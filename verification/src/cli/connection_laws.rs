//! What connecting to an agent promises.
use vstd::prelude::*;
use crate::agents;
use crate::agents::{AgentType, ConnectionTransport, DriverKind};
use crate::cli::binary;
use crate::cli::connection;
use crate::cli::connection::{Claim, CliConnectRequest, LiveConnection};
use crate::cli::dsh_profile;
use crate::cli::dsh_profile::DshLaunchProfile;
use crate::events::{ConnectionStatus, EventView};
use crate::json;
use crate::json::JsonView;
use crate::paths;
use crate::text;

verus! {

/// A connection that is alive and drives a session.
pub open spec fn holds(c: LiveConnection, session: Seq<char>) -> bool {
    &&& c.status != ConnectionStatus::Disconnected
    &&& c.status != ConnectionStatus::Error
    &&& c.external_id is Some
    &&& c.external_id->0@ == session
}

/// A session is claimed by the first connection that holds it: it is used again where it
/// drives the same agent by its command line in the same directory, and locks the session
/// where it does not. A session that none holds is free.
pub proof fn the_first_holder_decides(
    live: Seq<LiveConnection>,
    request: CliConnectRequest,
    session: Seq<char>,
    i: int,
)
    requires
        0 <= i <= live.len(),
        forall|j: int| 0 <= j < i ==> !holds(#[trigger] live[j], session),
        i < live.len() ==> holds(live[i], session),
    ensures
        i == live.len() ==> connection::claim(live, request, session) == Claim::Free,
        i < live.len() ==> connection::claim(live, request, session) == (if live[i].transport
            == ConnectionTransport::Cli && live[i].agent_type == request.agent_type
            && live[i].working_dir is Some && paths::same_parts(
            live[i].working_dir->0@,
            request.working_dir@,
        ) {
            Claim::Reuse(live[i].id@)
        } else {
            Claim::Locked(live[i].id@)
        }),
    decreases live.len(),
{
    if live.len() > 0 {
        let front = live.drop_last();
        assert forall|j: int| 0 <= j < front.len() implies #[trigger] front[j] == live[j] by {}
        if i < live.len() - 1 {
            the_first_holder_decides(front, request, session, i);
        } else {
            the_first_holder_decides(front, request, session, front.len() as int);
            assert(holds(live.last(), session) == connection::drives(live.last(), session));
            if i == live.len() {
                assert(!holds(live[live.len() - 1], session));
            }
        }
    }
}

/// A request that names no session claims none.
pub proof fn new_sessions_are_free(live: Seq<LiveConnection>, request: CliConnectRequest)
    ensures
        request.session_id is None ==> connection::claim_of(live, request) == Claim::Free,
        request.session_id is Some ==> connection::claim_of(live, request) == connection::claim(
            live,
            request,
            request.session_id->0@,
        ),
{
}

/// A new connection goes on with the session that was asked for. Where none was asked for,
/// the session is minted, but for the agents that name their sessions themselves.
pub proof fn sessions_are_gone_on_with(id: Seq<char>, minted: Seq<char>, rest: Seq<char>)
    ensures
        connection::first_session(AgentType::ClaudeCode, Some(id), minted) == Some(id),
        connection::first_session(AgentType::Codex, Some(id), minted) == Some(id),
        connection::first_session(AgentType::ClaudeCode, None, minted) == Some(minted),
        connection::first_session(AgentType::Codex, None, minted) is None,
        connection::first_session(AgentType::DeepSeek, None, minted) is None,
        connection::uuid_accepted(rest) ==> connection::first_session(
            AgentType::DeepSeek,
            Some("session-"@ + rest),
            minted,
        ) == Some("session-"@ + rest) && connection::linked_session(
            AgentType::DeepSeek,
            Some("session-"@ + rest),
        ) is None,
        !text::begins(id, "session-"@) ==> connection::first_session(
            AgentType::DeepSeek,
            Some(id),
            minted,
        ) is None && connection::linked_session(AgentType::DeepSeek, Some(id)) == Some(id),
        connection::linked_session(AgentType::ClaudeCode, Some(id)) is None,
        connection::linked_session(AgentType::Codex, Some(id)) is None,
{
    let s = "session-"@ + rest;
    let p = "session-"@;
    assert(s.take(p.len() as int) =~= p);
    assert(s.skip(p.len() as int) =~= rest);
}

/// A new connection is announced as connected, behind its session where that is known; it
/// belongs to the window that asked, or else to the web, and a model or a route that is
/// blank is none.
pub proof fn new_connections_are_announced(
    request: CliConnectRequest,
    id: Seq<char>,
    minted: Seq<char>,
)
    ensures
        ({
            let n = connection::fresh(request, id, minted);
            let connected = EventView::StatusChanged { status: ConnectionStatus::Connected };
            &&& n.connection.connection_id == id
            &&& !n.connection.reused
            &&& n.connection.session_id is Some ==> n.events == seq![
                EventView::SessionStarted { session_id: n.connection.session_id->0 },
                connected,
            ]
            &&& n.connection.session_id is None ==> n.events == seq![connected]
            &&& request.owner_window_label is None ==> n.owner_window_label == "web"@
            &&& request.owner_window_label is Some ==> n.owner_window_label
                == request.owner_window_label->0@
            &&& n.cli_model == (if request.model is Some && text::trim(request.model->0@).len() > 0 {
                Some(request.model->0@)
            } else {
                None
            })
            &&& n.provider == (if request.provider is Some && text::trim(request.provider->0@).len()
                > 0 {
                Some(request.provider->0@)
            } else {
                None
            })
            &&& n.driver == (if request.agent_type == AgentType::DeepSeek {
                DriverKind::Dsh
            } else if request.agent_type == AgentType::Codex {
                DriverKind::Codex
            } else {
                DriverKind::Stream
            })
        }),
{
}

/// A connection is found by its id: the first that bears it counts.
pub proof fn connections_are_found_by_id(live: Seq<LiveConnection>, id: Seq<char>, i: int)
    requires
        0 <= i <= live.len(),
        forall|j: int| 0 <= j < i ==> (#[trigger] live[j]).id@ != id,
        i < live.len() ==> live[i].id@ == id,
    ensures
        i < live.len() ==> connection::transport_of(live, id) == Some(live[i].transport),
        i == live.len() ==> connection::transport_of(live, id) is None,
    decreases i,
{
    if i > 0 {
        assert(live[0].id@ != id);
        let rest = live.skip(1);
        assert forall|j: int| 0 <= j < i - 1 implies (#[trigger] rest[j]).id@ != id by {
            assert(rest[j] == live[j + 1]);
        }
        connections_are_found_by_id(rest, id, i - 1);
    }
}

/// A variable of an environment has the value that it was given first.
pub proof fn variables_are_read(vars: Seq<(Seq<char>, Seq<char>)>, name: Seq<char>, i: int)
    requires
        0 <= i <= vars.len(),
        forall|j: int| 0 <= j < i ==> (#[trigger] vars[j]).0 != name,
        i < vars.len() ==> vars[i].0 == name,
    ensures
        i < vars.len() ==> dsh_profile::env(vars, name) == Some(vars[i].1),
        i == vars.len() ==> dsh_profile::env(vars, name) is None,
    decreases i,
{
    if i > 0 {
        assert(vars[0].0 != name);
        let rest = vars.skip(1);
        assert forall|j: int| 0 <= j < i - 1 implies (#[trigger] rest[j]).0 != name by {
            assert(rest[j] == vars[j + 1]);
        }
        variables_are_read(rest, name, i - 1);
    }
}

/// A program is named by the environment of the connection, or else by that of the host; an
/// empty name names none.
pub proof fn programs_are_named(
    vars: Seq<(Seq<char>, Seq<char>)>,
    name: Seq<char>,
    path: Seq<char>,
    own: Seq<char>,
)
    ensures
        dsh_profile::env(vars, name) == Some(path) && path.len() > 0 ==> binary::named(
            vars,
            Some(own),
            name,
        ) == Some(path) && binary::named(vars, None, name) == Some(path),
        (dsh_profile::env(vars, name) is None || dsh_profile::env(vars, name)->0.len() == 0)
            ==> binary::named(vars, None, name) is None && binary::named(vars, Some(own), name) == (
        if own.len() > 0 {
            Some(own)
        } else {
            None
        }),
{
}

/// Packages name the two common processors their own way, and the others as they are called.
pub proof fn processors_are_renamed(arch: Seq<char>)
    ensures
        binary::arch_name("x86_64"@) == "x64"@,
        binary::arch_name("aarch64"@) == "arm64"@,
        arch != "x86_64"@ && arch != "aarch64"@ ==> binary::arch_name(arch) == arch,
{
    reveal_strlit("x86_64");
    reveal_strlit("aarch64");
    assert("x86_64"@.len() == 6);
    assert("aarch64"@.len() == 7);
}

/// The modules of a prefix lie below `lib`, but on Windows; the packages are looked for among
/// those of the adapter first, then beside it, one prefix after the other.
pub proof fn programs_are_looked_for(
    prefixes: Seq<Seq<char>>,
    prefix: Seq<char>,
    package: Seq<char>,
    file: Seq<char>,
    windows: bool,
)
    requires
        prefix.len() > 0,
        prefix.last() != '/',
    ensures
        binary::modules(prefix, false) == prefix + "/lib/node_modules"@,
        binary::modules(prefix, true) == prefix + "/node_modules"@,
        binary::candidates(Seq::empty(), seq![(package, file)], windows).len() == 0,
        binary::candidates(prefixes.push(prefix), seq![(package, file)], windows)
            == binary::candidates(prefixes, seq![(package, file)], windows) + seq![
            paths::below(
                paths::below(
                    paths::below(
                        paths::below(
                            paths::below(binary::modules(prefix, windows), binary::adapter()),
                            "node_modules"@,
                        ),
                        "@anthropic-ai"@,
                    ),
                    package,
                ),
                file,
            ),
            paths::below(
                paths::below(
                    paths::below(binary::modules(prefix, windows), "@anthropic-ai"@),
                    package,
                ),
                file,
            ),
        ],
{
    reveal_strlit("lib");
    reveal_strlit("node_modules");
    reveal_strlit("/lib/node_modules");
    reveal_strlit("/node_modules");
    assert("lib"@[0] == 'l');
    assert("lib"@.last() == 'b');
    assert("node_modules"@[0] == 'n');
    let lib = prefix.push('/') + "lib"@;
    assert(lib.last() == 'b');
    assert(paths::below(prefix, "lib"@) == lib);
    assert(binary::modules(prefix, false) == lib.push('/') + "node_modules"@);
    assert(lib.push('/') + "node_modules"@ =~= prefix + "/lib/node_modules"@);
    assert(prefix.push('/') + "node_modules"@ =~= prefix + "/node_modules"@);
    let all = prefixes.push(prefix);
    assert(all.drop_last() =~= prefixes);
    let one = seq![(package, file)];
    let a = binary::under(binary::nested(prefix, windows), one);
    let b = binary::under(binary::hoisted(prefix, windows), one);
    assert(binary::candidates(all, one, windows) == binary::candidates(prefixes, one, windows) + a
        + b);
    assert(a =~= seq![
        paths::below(paths::below(binary::nested(prefix, windows), package), file),
    ]);
    assert(b =~= seq![
        paths::below(paths::below(binary::hoisted(prefix, windows), package), file),
    ]);
    assert(binary::candidates(prefixes, one, windows) + a + b =~= binary::candidates(
        prefixes,
        one,
        windows,
    ) + seq![a[0], b[0]]);
}

/// The first candidate that can be run is taken.
pub proof fn the_first_that_runs_is_taken(flags: Seq<bool>, n: int, i: int)
    requires
        0 <= n <= i <= flags.len(),
        forall|j: int| n <= j < i ==> !#[trigger] flags[j],
        i < flags.len() ==> flags[i],
    ensures
        i < flags.len() ==> binary::first_set(flags, n) == Some(i),
        i == flags.len() ==> binary::first_set(flags, n) is None,
    decreases i - n,
{
    if n < i {
        assert(!flags[n]);
        the_first_that_runs_is_taken(flags, n + 1, i);
    }
}

/// A program is new enough where its help tells of both flags.
pub proof fn programs_tell_what_they_can(a: Seq<char>, b: Seq<char>, c: Seq<char>, help: Seq<char>)
    ensures
        binary::capable(a + "--json"@ + b + "--session-id"@ + c),
        binary::capable(a + "--session-id"@ + b + "--json"@ + c),
        !text::contains(help, "--json"@) ==> !binary::capable(help),
        !text::contains(help, "--session-id"@) ==> !binary::capable(help),
{
    let p = "--json"@;
    let q = "--session-id"@;
    let s = a + p + b + q + c;
    assert(s.subrange(a.len() as int, a.len() + p.len() as int) =~= p);
    assert(text::stands_at(s, p, a.len() as int));
    let k = (a + p + b).len() as int;
    assert(s.subrange(k, k + q.len()) =~= q);
    assert(text::stands_at(s, q, k));
    let t = a + q + b + p + c;
    assert(t.subrange(a.len() as int, a.len() + q.len() as int) =~= q);
    assert(text::stands_at(t, q, a.len() as int));
    let l = (a + q + b).len() as int;
    assert(t.subrange(l, l + p.len()) =~= p);
    assert(text::stands_at(t, p, l));
}

/// What the variables of a connection choose: which runner, how long to wait for work in the
/// background, and whether tools are searched for.
pub proof fn variables_choose(vars: Seq<(Seq<char>, Seq<char>)>, v: Seq<char>)
    ensures
        dsh_profile::env(vars, "CODEG_DSH_RUNNER"@) == Some(v) ==> dsh_profile::stock(vars) == (
        text::lower(text::trim(v)) == "stock"@),
        dsh_profile::env(vars, "CODEG_DSH_RUNNER"@) is None ==> !dsh_profile::stock(vars),
        dsh_profile::env(vars, "CODEG_CLI_BACKGROUND_WAIT_SECS"@) is None ==> dsh_profile::wait_secs(
            vars,
        ) == 1200,
        dsh_profile::env(vars, "CODEG_CLI_BACKGROUND_WAIT_SECS"@) == Some(v) && text::number(
            text::trim(v),
        ) is Some && text::number(text::trim(v))->0 > 0 ==> Some(dsh_profile::wait_secs(vars))
            == text::number(text::trim(v)),
        dsh_profile::env(vars, "CODEG_CLI_BACKGROUND_WAIT_SECS"@) == Some(v) && (text::number(
            text::trim(v),
        ) is None || text::number(text::trim(v))->0 == 0) ==> dsh_profile::wait_secs(vars) == 1200,
        dsh_profile::env(vars, "DSH_TOOL_SEARCH"@) is None ==> dsh_profile::search_mode(vars)
            == "auto"@,
        dsh_profile::env(vars, "DSH_TOOL_SEARCH"@) == Some(v) ==> {
            let m = text::lower(text::trim(v));
            &&& m == "off"@ || m == "0"@ || m == "false"@ ==> dsh_profile::search_mode(vars)
                == "off"@
            &&& m == "on"@ || m == "1"@ || m == "true"@ ==> dsh_profile::search_mode(vars) == "on"@
            &&& m != "off"@ && m != "0"@ && m != "false"@ && m != "on"@ && m != "1"@ && m
                != "true"@ ==> dsh_profile::search_mode(vars) == "auto"@
        },
{
    reveal_strlit("off");
    reveal_strlit("0");
    reveal_strlit("false");
    reveal_strlit("on");
    reveal_strlit("1");
    reveal_strlit("true");
    assert("off"@.len() == 3);
    assert("0"@.len() == 1 && "0"@[0] == '0');
    assert("false"@.len() == 5);
    assert("on"@.len() == 2);
    assert("1"@.len() == 1 && "1"@[0] == '1');
    assert("true"@.len() == 4);
}

/// The model of a connection is an entry of its own, where its route and the model are both
/// chosen.
pub proof fn models_are_set(provider: Seq<char>, model: Seq<char>)
    ensures
        provider.len() > 0 && model.len() > 0 ==> dsh_profile::model_entry(
            Some(provider),
            Some(model),
        ) == seq![
            JsonView::Object(
                seq![
                    ("id"@, JsonView::Str("agent-default-model"@)),
                    (
                        "config"@,
                        JsonView::Object(
                            seq![
                                ("provider"@, JsonView::Str(provider)),
                                ("model"@, JsonView::Str(model)),
                            ],
                        ),
                    ),
                ],
            ),
        ],
        dsh_profile::model_entry(None, Some(model)).len() == 0,
        dsh_profile::model_entry(Some(provider), None).len() == 0,
        provider.len() == 0 || model.len() == 0 ==> dsh_profile::model_entry(
            Some(provider),
            Some(model),
        ).len() == 0,
{
    let config = JsonView::empty_object().with("provider"@, JsonView::Str(provider)).with(
        "model"@,
        JsonView::Str(model),
    );
    assert(config->Object_0 =~= seq![
        ("provider"@, JsonView::Str(provider)),
        ("model"@, JsonView::Str(model)),
    ]);
    let entry = JsonView::empty_object().with("id"@, JsonView::Str("agent-default-model"@)).with(
        "config"@,
        config,
    );
    assert(entry->Object_0 =~= seq![
        ("id"@, JsonView::Str("agent-default-model"@)),
        ("config"@, config),
    ]);
}

/// The companion server is run by its command with its arguments, over its standard streams.
pub proof fn the_companion_is_run(command: Seq<char>, arguments: Seq<Seq<char>>)
    ensures
        dsh_profile::companion_entry(command, arguments) == JsonView::Object(
            seq![
                ("id"@, JsonView::Str("myclaw"@)),
                ("name"@, JsonView::Str("@deepseek-ai/dsh-mcp-client"@)),
                (
                    "config"@,
                    JsonView::Object(
                        seq![
                            ("serverName"@, JsonView::Str("myclaw"@)),
                            ("transport"@, JsonView::Str("stdio"@)),
                            ("command"@, JsonView::Str(command)),
                            (
                                "args"@,
                                JsonView::Array(
                                    Seq::new(
                                        arguments.len(),
                                        |i: int| JsonView::Str(arguments[i]),
                                    ),
                                ),
                            ),
                            ("env"@, JsonView::Object(seq![])),
                        ],
                    ),
                ),
            ],
        ),
{
    let args = Seq::new(arguments.len(), |i: int| JsonView::Str(arguments[i]));
    assert(JsonView::strings(arguments)->Array_0 =~= args);
    assert(JsonView::empty_object()->Object_0 =~= seq![]);
    let inner = seq![
        ("serverName"@, JsonView::Str("myclaw"@)),
        ("transport"@, JsonView::Str("stdio"@)),
        ("command"@, JsonView::Str(command)),
        ("args"@, JsonView::Array(args)),
        ("env"@, JsonView::Object(seq![])),
    ];
    let config = JsonView::empty_object().with("serverName"@, JsonView::Str("myclaw"@)).with(
        "transport"@,
        JsonView::Str("stdio"@),
    ).with("command"@, JsonView::Str(command)).with("args"@, JsonView::strings(arguments)).with(
        "env"@,
        JsonView::empty_object(),
    );
    assert(config->Object_0 =~= inner);
    assert(dsh_profile::companion_entry(command, arguments)->Object_0 =~= seq![
        ("id"@, JsonView::Str("myclaw"@)),
        ("name"@, JsonView::Str("@deepseek-ai/dsh-mcp-client"@)),
        ("config"@, JsonView::Object(inner)),
    ]);
}

/// The search for tools is the plugin at its path, in its mode, and leaves out the companion.
pub proof fn tools_are_searched_for(plugin_path: Seq<char>, mode: Seq<char>)
    ensures
        dsh_profile::search_entry(plugin_path, mode) == JsonView::Object(
            seq![
                ("id"@, JsonView::Str("codeg-tool-search"@)),
                ("name"@, JsonView::Str(plugin_path)),
                (
                    "config"@,
                    JsonView::Object(
                        seq![
                            ("mode"@, JsonView::Str(mode)),
                            ("exemptServers"@, JsonView::Array(seq![JsonView::Str("myclaw"@)])),
                        ],
                    ),
                ),
            ],
        ),
{
    let config = JsonView::empty_object().with("mode"@, JsonView::Str(mode)).with(
        "exemptServers"@,
        JsonView::Array(seq![JsonView::Str("myclaw"@)]),
    );
    assert(config->Object_0 =~= seq![
        ("mode"@, JsonView::Str(mode)),
        ("exemptServers"@, JsonView::Array(seq![JsonView::Str("myclaw"@)])),
    ]);
    assert(dsh_profile::search_entry(plugin_path, mode)->Object_0 =~= seq![
        ("id"@, JsonView::Str("codeg-tool-search"@)),
        ("name"@, JsonView::Str(plugin_path)),
        ("config"@, config),
    ]);
}

/// A patch tells who wrote it, holds the entries, and behind them the runner that replaces
/// the stock one, where there is one; what is inserted is the companion and, unless it is
/// off, the search for tools.
pub proof fn patches_hold_every_entry(
    p: DshLaunchProfile,
    provider: Option<Seq<char>>,
    model: Option<Seq<char>>,
    yaml: Seq<char>,
)
    ensures
        dsh_profile::yaml_written(JsonView::Array(dsh_profile::entries(p, provider, model))) == Some(
            yaml,
        ) && p.runner_path is None ==> dsh_profile::patch(p, provider, model)
            == "# Written by codeg for one CLI-transport connection; do not edit.\n"@ + yaml,
        dsh_profile::yaml_written(JsonView::Array(dsh_profile::entries(p, provider, model))) == Some(
            yaml,
        ) && p.runner_path is Some ==> dsh_profile::patch(p, provider, model)
            == "# Written by codeg for one CLI-transport connection; do not edit.\n"@ + yaml
            + dsh_profile::runner_text(p.runner_path->0@, p.background_wait_secs),
        p.companion is Some && p.tool_search_mode@ != "off"@ ==> dsh_profile::inserts(p) == seq![
            dsh_profile::companion_entry(p.companion->0.command@, p.companion->0.args.deep_view()),
            dsh_profile::search_entry(p.plugin_path@, p.tool_search_mode@),
        ],
        p.companion is Some && p.tool_search_mode@ == "off"@ ==> dsh_profile::inserts(p) == seq![
            dsh_profile::companion_entry(p.companion->0.command@, p.companion->0.args.deep_view()),
        ],
        p.companion is None && p.tool_search_mode@ != "off"@ ==> dsh_profile::inserts(p) == seq![
            dsh_profile::search_entry(p.plugin_path@, p.tool_search_mode@),
        ],
        dsh_profile::inserts(p).len() > 0 ==> dsh_profile::entries(p, provider, model)
            == dsh_profile::model_entry(provider, model) + seq![
            JsonView::Object(seq![("insert"@, JsonView::Array(dsh_profile::inserts(p)))]),
        ],
        dsh_profile::inserts(p).len() == 0 ==> dsh_profile::entries(p, provider, model)
            == dsh_profile::model_entry(provider, model),
{
    let put = JsonView::empty_object().with("insert"@, JsonView::Array(dsh_profile::inserts(p)));
    assert(put->Object_0 =~= seq![("insert"@, JsonView::Array(dsh_profile::inserts(p)))]);
    let m = dsh_profile::model_entry(provider, model);
    assert(m.push(put) =~= m + seq![put]);
    let head = "# Written by codeg for one CLI-transport connection; do not edit.\n"@;
    assert(head + yaml + Seq::empty() =~= head + yaml);
}

/// The runner of a patch is the file at the path, with the time to wait for work in the
/// background.
pub proof fn the_runner_is_replaced(path: Seq<char>, wait: u64)
    ensures
        dsh_profile::runner_text(path, wait)
            == "- id: headless-runner\n  disabled: true\n- insert:\n    - id: codeg-headless-runner\n      name: "@
            + json::written(JsonView::Str(path))
            + "\n      inject: [headlessStartup]\n      config:\n        task: !!js ctx.headlessStartup.task\n        sessionId: !!js ctx.headlessStartup.sessionId\n        json: !!js ctx.headlessStartup.json\n        backgroundWaitSecs: "@
            + text::dec(wait as nat) + "\n"@,
{
}

/// An agent is driven by its command line where it is one of three, each by its own driver
/// and under its own id.
pub proof fn three_agents_have_drivers(agent: AgentType)
    ensures
        agents::on_cli(agent) <==> agent == AgentType::ClaudeCode || agent == AgentType::DeepSeek
            || agent == AgentType::Codex,
        agents::cli_id(AgentType::ClaudeCode) == Some("claude_code"@),
        agents::cli_id(AgentType::DeepSeek) == Some("deepseek"@),
        agents::cli_id(AgentType::Codex) == Some("codex"@),
        !agents::on_cli(agent) ==> agents::cli_id(agent) is None,
{
}

/// The variables that name the programs, the packages that hold them, and the files of a
/// profile.
pub proof fn programs_go_by_these_names()
    ensures
        binary::CLAUDE_EXECUTABLE_ENV@ == "CLAUDE_CODE_EXECUTABLE"@,
        binary::CODEX_EXECUTABLE_ENV@ == "CODEX_EXECUTABLE"@,
        binary::DSH_EXECUTABLE_ENV@ == "DSH_EXECUTABLE"@,
        binary::CODEX_REQUIRED_PACKAGE@ == "@openai/codex@0.155.0"@,
        binary::DSH_REQUIRED_PACKAGE@ == "@deepseek-ai/dsh@0.1.6-alpha.2"@,
        binary::PROBE_TIMEOUT_SECS == 15,
        dsh_profile::PLUGIN_FILE_NAME@ == "codeg-tool-search.mjs"@,
        dsh_profile::RUNNER_FILE_NAME@ == "codeg-headless-runner.mjs"@,
{
}

/// A program that is missing is told with what to install and what to set; one that is too
/// old with what to upgrade to.
pub proof fn missing_programs_are_told(
    program: Seq<char>,
    package: Seq<char>,
    name: Seq<char>,
    looked: Seq<Seq<char>>,
)
    ensures
        binary::not_found(program, package, name) == program
            + " not found on PATH or in the npm global prefix; install "@ + package
            + " (npm install -g) or set "@ + name,
        binary::too_old(program) == program
            + " does not support `--json` / `--session-id`; upgrade to "@
            + "@deepseek-ai/dsh@0.1.6-alpha.2"@,
        binary::no_candidate(looked) == agents::called(DriverKind::Stream)
            + " native binary not found; install "@ + binary::adapter() + " or set "@
            + "CLAUDE_CODE_EXECUTABLE"@ + " (looked in: "@ + text::join(looked, ", "@) + ")"@,
        agents::called(DriverKind::Dsh) == "DeepSeek Harness"@,
        agents::called(DriverKind::Codex) == "Codex"@,
{
}

/// What messages call an agent is its id, each word with a capital, and a space between.
pub proof fn ids_are_put_in_capitals(a: Seq<char>, b: Seq<char>)
    requires
        a.len() > 0,
        b.len() > 0,
        forall|i: int| 0 <= i < a.len() ==> a[i] != '_',
        forall|i: int| 0 <= i < b.len() ==> b[i] != '_',
        'a' <= a[0] <= 'z',
        'a' <= b[0] <= 'z',
    ensures
        agents::title(a.push('_') + b) == seq![(a[0] as u32 - 32) as char] + a.skip(1) + seq![' ']
            + (seq![(b[0] as u32 - 32) as char] + b.skip(1)),
        agents::family(a.push('_') + b) == a,
        agents::called(DriverKind::Stream) == agents::title("claude_code"@),
{
    text::split_in_two(a, '_', b);
    reveal_strlit(" ");
    assert(" "@ =~= seq![' ']);
    let f = |w: Seq<char>| agents::capitalized(w);
    let pieces = seq![a, b];
    assert(pieces.map_values(f) =~= seq![agents::capitalized(a), agents::capitalized(b)]);
    text::join_from_front(pieces.map_values(f), " "@);
    let rest = pieces.map_values(f).skip(1);
    assert(rest =~= seq![agents::capitalized(b)]);
    assert(rest.drop_last() =~= Seq::<Seq<char>>::empty());
    reveal_with_fuel(text::join, 2);
    assert(text::join(rest, " "@) =~= agents::capitalized(b));
}

} // verus!
