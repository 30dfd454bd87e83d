//! What stands beside a DeepSeek Harness home for a connection: the bundled
//! plugins and the per-connection patch with the model, the companion server and
//! the plugin entries.
use vstd::prelude::*;
use crate::cli::prompt::CompanionLaunchSpec;
use crate::json;
use crate::json::{Json, JsonView};
use crate::paths;
use crate::text;

verus! {

pub const TOOL_SEARCH_ENV: &'static str = "DSH_TOOL_SEARCH";

/// `stock` keeps the harness's own headless runner.
pub const RUNNER_ENV: &'static str = "CODEG_DSH_RUNNER";

/// How long background work may run past the model's own turn.
pub const BACKGROUND_WAIT_ENV: &'static str = "CODEG_CLI_BACKGROUND_WAIT_SECS";

/// The file of the tool search among the bundled plugins.
pub const PLUGIN_FILE_NAME: &'static str = "codeg-tool-search.mjs";

/// The file of the replacement of the headless runner.
pub const RUNNER_FILE_NAME: &'static str = "codeg-headless-runner.mjs";

pub const DEFAULT_BACKGROUND_WAIT_SECS: u64 = 1200;

/// The name under which the companion server is mounted.
pub const COMPANION_SERVER_NAME: &'static str = "myclaw";

/// Everything that a driver needs to write its patch.
#[derive(Debug)]
pub struct DshLaunchProfile {
    pub dsh_home: String,
    pub plugin_path: String,
    pub companion: Option<CompanionLaunchSpec>,
    /// `off`, `on` or `auto`.
    pub tool_search_mode: String,
    /// The replacement of the headless runner, where it is used.
    pub runner_path: Option<String>,
    pub background_wait_secs: u64,
}

/// The YAML text that `serde_yaml` writes for a value.
pub uninterp spec fn yaml_written(value: JsonView) -> Option<Seq<char>>;

/// `serde_yaml::to_string`: the YAML text of a value, nothing where that crate
/// fails. The result is named `yaml_written`.
#[verifier::external_body]
fn write_yaml(value: &Json) -> (r: Option<String>)
    ensures
        r.deep_view() == yaml_written(value@),
{
    serde_yaml::to_string(&json::to_value(value)).ok()
}

/// The value of a variable; the first one counts.
pub open spec fn env(vars: Seq<(Seq<char>, Seq<char>)>, name: Seq<char>) -> Option<Seq<char>>
    decreases vars.len(),
{
    if vars.len() == 0 {
        None
    } else if vars[0].0 == name {
        Some(vars[0].1)
    } else {
        env(vars.skip(1), name)
    }
}

/// The value of a variable.
pub fn env_get<'a>(vars: &'a Vec<(String, String)>, name: &str) -> (r: Option<&'a str>)
    ensures
        r.deep_view() == env(vars.deep_view(), name@),
{
    assert(vars.deep_view().skip(0) =~= vars.deep_view());
    for i in 0..vars.len()
        invariant
            env(vars.deep_view(), name@) == env(vars.deep_view().skip(i as int), name@),
    {
        let ghost rest = vars.deep_view().skip(i as int);
        assert(rest[0] == (vars@[i as int].0@, vars@[i as int].1@));
        if text::same(vars[i].0.as_str(), name) {
            return Some(vars[i].1.as_str());
        }
        assert(rest.skip(1) =~= vars.deep_view().skip(i + 1));
    }
    None
}

/// Whether the harness's own runner is asked for.
pub open spec fn stock(vars: Seq<(Seq<char>, Seq<char>)>) -> bool {
    match env(vars, RUNNER_ENV@) {
        Some(v) => text::lower(text::trim(v)) == "stock"@,
        None => false,
    }
}

/// Whether the harness's own runner is asked for.
pub fn runner_is_stock(runtime_env: &Vec<(String, String)>) -> (r: bool)
    ensures
        r == stock(runtime_env.deep_view()),
{
    match env_get(runtime_env, RUNNER_ENV) {
        Some(v) => text::same(text::to_lower(text::trimmed(v).as_str()).as_str(), "stock"),
        None => false,
    }
}

/// The seconds that background work may take: a positive number, or the default.
pub open spec fn wait_secs(vars: Seq<(Seq<char>, Seq<char>)>) -> u64 {
    match env(vars, BACKGROUND_WAIT_ENV@) {
        Some(v) => match text::number(text::trim(v)) {
            Some(n) => if n > 0 {
                n
            } else {
                DEFAULT_BACKGROUND_WAIT_SECS
            },
            None => DEFAULT_BACKGROUND_WAIT_SECS,
        },
        None => DEFAULT_BACKGROUND_WAIT_SECS,
    }
}

/// The seconds that background work may take.
pub fn background_wait_secs(runtime_env: &Vec<(String, String)>) -> (r: u64)
    ensures
        r == wait_secs(runtime_env.deep_view()),
{
    match env_get(runtime_env, BACKGROUND_WAIT_ENV) {
        Some(v) => match text::parse_u64(text::trimmed(v).as_str()) {
            Some(n) => if n > 0 {
                n
            } else {
                DEFAULT_BACKGROUND_WAIT_SECS
            },
            None => DEFAULT_BACKGROUND_WAIT_SECS,
        },
        None => DEFAULT_BACKGROUND_WAIT_SECS,
    }
}

/// The mode of the tool search.
pub open spec fn search_mode(vars: Seq<(Seq<char>, Seq<char>)>) -> Seq<char> {
    match env(vars, TOOL_SEARCH_ENV@) {
        Some(v) => {
            let m = text::lower(text::trim(v));
            if m == "off"@ || m == "0"@ || m == "false"@ {
                "off"@
            } else if m == "on"@ || m == "1"@ || m == "true"@ {
                "on"@
            } else {
                "auto"@
            }
        },
        None => "auto"@,
    }
}

/// The mode of the tool search.
pub fn tool_search_mode(runtime_env: &Vec<(String, String)>) -> (r: String)
    ensures
        r@ == search_mode(runtime_env.deep_view()),
{
    match env_get(runtime_env, TOOL_SEARCH_ENV) {
        Some(v) => {
            let m = text::to_lower(text::trimmed(v).as_str());
            let m = m.as_str();
            if text::same(m, "off") || text::same(m, "0") || text::same(m, "false") {
                "off".to_owned()
            } else if text::same(m, "on") || text::same(m, "1") || text::same(m, "true") {
                "on".to_owned()
            } else {
                "auto".to_owned()
            }
        },
        None => "auto".to_owned(),
    }
}

impl DshLaunchProfile {
    /// The patch file of a connection.
    pub fn patch_path(&self, connection_id: &str) -> (r: String)
        ensures
            r@ == paths::below(
                self.dsh_home@,
                "codeg-"@ + connection_id@ + ".patch.yml"@,
            ),
    {
        paths::join(
            self.dsh_home.as_str(),
            text::cat3("codeg-", connection_id, ".patch.yml").as_str(),
        )
    }
}

/// The entry that sets the default model, where provider and model are known.
pub open spec fn model_entry(provider: Option<Seq<char>>, model: Option<Seq<char>>) -> Seq<JsonView> {
    if provider is Some && provider->0.len() > 0 && model is Some && model->0.len() > 0 {
        seq![
            JsonView::empty_object().with("id"@, JsonView::Str("agent-default-model"@)).with(
                "config"@,
                JsonView::empty_object().with("provider"@, JsonView::Str(provider->0)).with(
                    "model"@,
                    JsonView::Str(model->0),
                ),
            ),
        ]
    } else {
        Seq::empty()
    }
}

/// The entry that mounts the companion server.
pub open spec fn companion_entry(command: Seq<char>, arguments: Seq<Seq<char>>) -> JsonView {
    JsonView::empty_object().with("id"@, JsonView::Str(COMPANION_SERVER_NAME@)).with(
        "name"@,
        JsonView::Str("@deepseek-ai/dsh-mcp-client"@),
    ).with(
        "config"@,
        JsonView::empty_object().with("serverName"@, JsonView::Str(COMPANION_SERVER_NAME@)).with(
            "transport"@,
            JsonView::Str("stdio"@),
        ).with("command"@, JsonView::Str(command)).with("args"@, JsonView::strings(arguments)).with(
            "env"@,
            JsonView::empty_object(),
        ),
    )
}

/// The entry of the tool search. It leaves out the companion server, under the
/// name that the companion is mounted with.
pub open spec fn search_entry(plugin_path: Seq<char>, mode: Seq<char>) -> JsonView {
    JsonView::empty_object().with("id"@, JsonView::Str("codeg-tool-search"@)).with(
        "name"@,
        JsonView::Str(plugin_path),
    ).with(
        "config"@,
        JsonView::empty_object().with("mode"@, JsonView::Str(mode)).with(
            "exemptServers"@,
            JsonView::Array(seq![JsonView::Str(COMPANION_SERVER_NAME@)]),
        ),
    )
}

/// The entries to insert.
pub open spec fn inserts(p: DshLaunchProfile) -> Seq<JsonView> {
    let a = match p.companion {
        Some(c) => seq![companion_entry(c.command@, c.args.deep_view())],
        None => Seq::empty(),
    };
    if p.tool_search_mode@ != "off"@ {
        a.push(search_entry(p.plugin_path@, p.tool_search_mode@))
    } else {
        a
    }
}

/// All entries of the patch but the runner's.
pub open spec fn entries(p: DshLaunchProfile, provider: Option<Seq<char>>, model: Option<Seq<char>>) -> Seq<
    JsonView,
> {
    if inserts(p).len() > 0 {
        model_entry(provider, model).push(
            JsonView::empty_object().with("insert"@, JsonView::Array(inserts(p))),
        )
    } else {
        model_entry(provider, model)
    }
}

/// The entries that swap the harness's runner for the replacement. The stock row
/// is disabled and a new one inserted; its wiring are expressions of the loader,
/// which a YAML writer cannot emit. A JSON string is a valid YAML scalar.
pub open spec fn runner_text(path: Seq<char>, wait: u64) -> Seq<char> {
    "- id: headless-runner\n  disabled: true\n- insert:\n    - id: codeg-headless-runner\n      name: "@
        + json::written(JsonView::Str(path))
        + "\n      inject: [headlessStartup]\n      config:\n        task: !!js ctx.headlessStartup.task\n        sessionId: !!js ctx.headlessStartup.sessionId\n        json: !!js ctx.headlessStartup.json\n        backgroundWaitSecs: "@
        + text::dec(wait as nat) + "\n"@
}

/// The text of the patch.
pub open spec fn patch(p: DshLaunchProfile, provider: Option<Seq<char>>, model: Option<Seq<char>>) -> Seq<
    char,
> {
    let yaml = match yaml_written(JsonView::Array(entries(p, provider, model))) {
        Some(y) => y,
        None => "[]\n"@,
    };
    "# Written by codeg for one CLI-transport connection; do not edit.\n"@ + yaml + match p.runner_path {
        Some(path) => runner_text(path@, p.background_wait_secs),
        None => Seq::empty(),
    }
}

/// The entries to insert.
fn insert_list(profile: &DshLaunchProfile) -> (r: Vec<Json>)
    ensures
        r.deep_view() == inserts(*profile),
{
    let mut out: Vec<Json> = Vec::new();
    if let Some(c) = &profile.companion {
        let entry = Json::empty_object().with("id", Json::of_str(COMPANION_SERVER_NAME)).with(
            "name",
            Json::of_str("@deepseek-ai/dsh-mcp-client"),
        ).with(
            "config",
            Json::empty_object().with("serverName", Json::of_str(COMPANION_SERVER_NAME)).with(
                "transport",
                Json::of_str("stdio"),
            ).with("command", Json::of_str(c.command.as_str())).with(
                "args",
                Json::strings(&c.args),
            ).with("env", Json::empty_object()),
        );
        assert(entry@ == companion_entry(c.command@, c.args.deep_view()));
        out.push(entry);
    }
    if !text::same(profile.tool_search_mode.as_str(), "off") {
        let entry = Json::empty_object().with("id", Json::of_str("codeg-tool-search")).with(
            "name",
            Json::of_str(profile.plugin_path.as_str()),
        ).with(
            "config",
            Json::empty_object().with(
                "mode",
                Json::of_str(profile.tool_search_mode.as_str()),
            ).with("exemptServers", Json::single(Json::of_str(COMPANION_SERVER_NAME))),
        );
        assert(entry@ == search_entry(profile.plugin_path@, profile.tool_search_mode@));
        out.push(entry);
    }
    assert(out.deep_view() =~= inserts(*profile));
    out
}

/// The entries that swap the harness's runner for the replacement.
fn runner_entries(path: &str, background_wait_secs: u64) -> (r: String)
    ensures
        r@ == runner_text(path@, background_wait_secs),
{
    text::cat5(
        "- id: headless-runner\n  disabled: true\n- insert:\n    - id: codeg-headless-runner\n      name: ",
        Json::of_str(path).write().as_str(),
        "\n      inject: [headlessStartup]\n      config:\n        task: !!js ctx.headlessStartup.task\n        sessionId: !!js ctx.headlessStartup.sessionId\n        json: !!js ctx.headlessStartup.json\n        backgroundWaitSecs: ",
        text::dec_u64(background_wait_secs).as_str(),
        "\n",
    )
}

/// The text of the patch: a list of loader entries.
pub fn render_patch(profile: &DshLaunchProfile, provider: Option<&str>, model: Option<&str>) -> (r: String)
    ensures
        r@ == patch(*profile, provider.deep_view(), model.deep_view()),
{
    let mut list: Vec<Json> = Vec::new();
    if let (Some(p), Some(m)) = (provider, model) {
        if !p.is_empty() && !m.is_empty() {
            list.push(
                Json::empty_object().with("id", Json::of_str("agent-default-model")).with(
                    "config",
                    Json::empty_object().with("provider", Json::of_str(p)).with(
                        "model",
                        Json::of_str(m),
                    ),
                ),
            );
        }
    }
    assert(list.deep_view() =~= model_entry(provider.deep_view(), model.deep_view()));
    let added = insert_list(profile);
    if added.len() > 0 {
        let ghost before = list.deep_view();
        let entry = Json::empty_object().with("insert", Json::of_vec(added));
        list.push(entry);
        assert(list.deep_view() =~= before.push(entry@));
    }
    assert(list.deep_view() =~= entries(*profile, provider.deep_view(), model.deep_view()));
    let yaml = match write_yaml(&Json::of_vec(list)) {
        Some(y) => y,
        None => "[]\n".to_owned(),
    };
    let runner = match &profile.runner_path {
        Some(path) => runner_entries(path.as_str(), profile.background_wait_secs),
        None => String::new(),
    };
    text::cat3(
        "# Written by codeg for one CLI-transport connection; do not edit.\n",
        yaml.as_str(),
        runner.as_str(),
    )
}

/// What is known of the launch once the bundled files are in place. `runner_path` is
/// where the replacement of the runner was put; it is used unless the environment
/// asks for the stock one.
pub fn launch_profile(
    dsh_home: String,
    plugin_path: String,
    runner_path: Option<String>,
    companion: Option<CompanionLaunchSpec>,
    runtime_env: &Vec<(String, String)>,
) -> (r: DshLaunchProfile)
    ensures
        r.dsh_home@ == dsh_home@,
        r.plugin_path@ == plugin_path@,
        r.runner_path.deep_view() == (if stock(runtime_env.deep_view()) {
            None
        } else {
            runner_path.deep_view()
        }),
        r.companion == companion,
        r.tool_search_mode@ == search_mode(runtime_env.deep_view()),
        r.background_wait_secs == wait_secs(runtime_env.deep_view()),
{
    DshLaunchProfile {
        dsh_home,
        plugin_path,
        companion,
        tool_search_mode: tool_search_mode(runtime_env),
        runner_path: if runner_is_stock(runtime_env) {
            None
        } else {
            runner_path
        },
        background_wait_secs: background_wait_secs(runtime_env),
    }
}

/// The error for a patch that could not be written.
pub fn patch_error(path: &str, error: &str) -> (r: String)
    ensures
        r@ == "could not write "@ + path@ + ": "@ + error@,
{
    text::cat4("could not write ", path, ": ", error)
}

/// Where a bundled plugin lies in a harness home: its directory and its file.
pub fn plugin_place(dsh_home: &str, file_name: &str) -> (r: (String, String))
    ensures
        r.0@ == paths::below(dsh_home@, "plugins"@),
        r.1@ == paths::below(paths::below(dsh_home@, "plugins"@), file_name@),
{
    let dir = paths::join(dsh_home, "plugins");
    let path = paths::join(dir.as_str(), file_name);
    (dir, path)
}

/// Whether a bundled file has to be written: only when what is there differs.
pub fn must_write(current: Option<&str>, source: &str) -> (r: bool)
    ensures
        r == (current.deep_view() != Some(source@)),
{
    match current {
        Some(c) => !text::same(c, source),
        None => true,
    }
}

/// With the tool search off and no companion, the patch inserts nothing.
pub proof fn off_inserts_nothing(p: DshLaunchProfile)
    requires
        p.tool_search_mode@ == "off"@,
        p.companion is None,
    ensures
        inserts(p).len() == 0,
{
}

/// The tool search never hides the companion: what it leaves out is the name that
/// the companion is mounted with.
pub proof fn companion_is_exempt(command: Seq<char>, arguments: Seq<Seq<char>>, plugin: Seq<char>, mode: Seq<char>)
    ensures
        search_entry(plugin, mode).at("config"@).at("exemptServers"@).as_array() == Some(
            seq![companion_entry(command, arguments).at("config"@).at("serverName"@)],
        ),
{
    reveal_strlit("id");
    reveal_strlit("name");
    reveal_strlit("config");
    reveal_strlit("mode");
    reveal_strlit("exemptServers");
    assert("id"@.len() == 2 && "name"@.len() == 4 && "config"@.len() == 6 && "mode"@.len() == 4
        && "exemptServers"@.len() == 13);
    reveal_with_fuel(json::lookup, 5);
    let c = companion_entry(command, arguments)->Object_0;
    let s = search_entry(plugin, mode)->Object_0;
    assert(c.len() == 3 && s.len() == 3);
    assert(c.skip(1).skip(1)[0] == c[2]);
    assert(s.skip(1).skip(1)[0] == s[2]);
    let sc = s[2].1->Object_0;
    assert(sc.skip(1)[0] == sc[1]);
}

/// Every connection has a patch file of its own.
pub proof fn patches_are_apart(dsh_home: Seq<char>, a: Seq<char>, b: Seq<char>)
    requires
        a != b,
    ensures
        paths::below(dsh_home, "codeg-"@ + a + ".patch.yml"@) != paths::below(
            dsh_home,
            "codeg-"@ + b + ".patch.yml"@,
        ),
{
    let x = "codeg-"@ + a + ".patch.yml"@;
    let y = "codeg-"@ + b + ".patch.yml"@;
    reveal_strlit("codeg-");
    reveal_strlit(".patch.yml");
    assert(x[0] == 'c' && y[0] == 'c');
    if x == y {
        assert(a =~= x.subrange(6, x.len() - 10));
        assert(b =~= y.subrange(6, y.len() - 10));
    }
    let u = paths::below(dsh_home, x);
    let v = paths::below(dsh_home, y);
    if u == v {
        assert(x =~= u.skip(u.len() - x.len()));
        assert(y =~= v.skip(v.len() - y.len()));
    }
}

} // verus!
