//! What requests are refused for, and where messages go.
use vstd::prelude::*;
use crate::agents::{AgentType, ConnectionTransport};
use crate::chat::backends::{DefaultsView, TelegramConfig};
use crate::cli::connection;
use crate::cli::connection::CliConnectError;
use crate::cli::dsh_profile;
use crate::digest;
use crate::errors::{AppErrorCode, AppErrorView};
use crate::handlers::chat_channel;
use crate::handlers::chat_channel::{
    InjectChatChannelMessageParams,
    RouteView,
    SenderContext,
    TargetView,
    ThreadBinding,
};
use crate::handlers::cli;
use crate::handlers::cli::{AcpFailure, AcpFailureKind, CliPromptParams};
use crate::handlers::ws_invoke;
use crate::handlers::ws_snapshot;
use crate::handlers::ws_snapshot::Release;
use crate::json;
use crate::json::JsonView;
use crate::text;

verus! {

/// A refusal of input that makes no sense.
pub open spec fn senseless(message: Seq<char>) -> Option<AppErrorView> {
    Some(AppErrorView { code: AppErrorCode::InvalidInput, message })
}

/// A prompt needs something to say, and a folder where it names a conversation.
pub proof fn prompts_need_something_to_say(params: CliPromptParams)
    ensures
        params.blocks@.len() == 0 ==> cli::prompt_fault(params) == senseless(
            "invalid_params"@ + ": "@ + "blocks must contain at least one content block"@,
        ),
        params.blocks@.len() > 0 && params.conversation_id is Some && params.folder_id is None
            ==> cli::prompt_fault(params) == senseless(
            "invalid_params"@ + ": "@ + "conversationId requires folderId"@,
        ),
        params.blocks@.len() > 0 && (params.conversation_id is None || params.folder_id is Some)
            ==> cli::prompt_fault(params) is None,
{
}

/// A request is served on a connection of its own transport only, and refused where there is
/// no such connection.
pub proof fn connections_serve_their_own_transport(id: Seq<char>)
    ensures
        cli::transport_fault(Some(ConnectionTransport::Cli), id) is None,
        cli::transport_fault(Some(ConnectionTransport::Acp), id) == senseless(
            "transport_mismatch"@ + ": "@
                + "this connection uses the ACP transport; use acp_prompt / acp_cancel"@,
        ),
        cli::transport_fault(None, id) == Some(
            AppErrorView {
                code: AppErrorCode::NotFound,
                message: "connection_not_found: "@ + id,
            },
        ),
        cli::refused_elsewhere(Some(ConnectionTransport::Cli)),
        !cli::refused_elsewhere(Some(ConnectionTransport::Acp)),
        !cli::refused_elsewhere(None),
{
}

/// A session is named by a UUID; DeepSeek also takes one behind `session-`.
pub proof fn sessions_are_named(agent: AgentType, id: Seq<char>)
    ensures
        connection::uuid_accepted(id) ==> cli::session_fits(agent, id),
        connection::uuid_accepted(id) ==> cli::session_fits(
            AgentType::DeepSeek,
            "session-"@ + id,
        ),
        !connection::uuid_accepted(id) && agent != AgentType::DeepSeek ==> !cli::session_fits(
            agent,
            id,
        ),
        !connection::uuid_accepted(id) && !text::begins(id, "session-"@) ==> !cli::session_fits(
            agent,
            id,
        ),
{
    let p = "session-"@;
    assert((p + id).take(p.len() as int) =~= p);
    assert((p + id).skip(p.len() as int) =~= id);
}

/// A new connection needs an agent that has a command line and a directory that there is;
/// a session that it names must fit the agent.
pub proof fn new_connections_need_a_place(params: CliPromptParams, name: Seq<char>, is_dir: bool)
    ensures
        ({
            let fault = cli::connect_fault(params, name, is_dir);
            let agent = params.agent_type->0;
            let known = params.agent_type is Some && (agent == AgentType::ClaudeCode || agent
                == AgentType::DeepSeek || agent == AgentType::Codex);
            let placed = params.working_dir is Some && text::trim(params.working_dir->0@).len() > 0;
            let fits = params.session_id is None || cli::session_fits(agent, params.session_id->0@);
            &&& params.agent_type is None ==> fault == senseless(
                "invalid_params"@ + ": "@ + "agentType is required when connectionId is omitted"@,
            )
            &&& params.agent_type is Some && !known ==> fault == senseless(
                "unsupported_agent"@ + ": "@ + (name
                    + " is not supported by the CLI transport; supported: claude_code, deepseek, codex"@),
            )
            &&& known && !placed ==> fault == senseless(
                "invalid_params"@ + ": "@ + "workingDir is required when connectionId is omitted"@,
            )
            &&& known && placed && !is_dir ==> fault == senseless(
                "invalid_params"@ + ": "@ + ("workingDir is not a directory: "@ + text::trim(
                    params.working_dir->0@,
                )),
            )
            &&& known && placed && is_dir && !fits && agent == AgentType::DeepSeek ==> fault
                == senseless(
                "invalid_params"@ + ": "@
                    + "sessionId must be `session-<uuid>` (or a bridge uuid) for deepseek"@,
            )
            &&& known && placed && is_dir && !fits && agent != AgentType::DeepSeek ==> fault
                == senseless("invalid_params"@ + ": "@ + "sessionId must be a UUID"@)
            &&& known && placed && is_dir && fits ==> fault is None
        }),
{
}

/// What went wrong with a connection or a prompt is told with its own code.
pub proof fn failures_are_told(holder: String, why: String, message: String, id: String)
    ensures
        cli::connect_refusal(CliConnectError::SessionLocked { connection_id: holder }) == (
        AppErrorView {
            code: AppErrorCode::AlreadyExists,
            message: "session_locked: this session is held by connection "@ + holder@,
        }),
        cli::connect_refusal(CliConnectError::ProfileWriteFailed(why)) == (AppErrorView {
            code: AppErrorCode::ConfigurationMissing,
            message: "dsh_profile_failed: "@ + why@,
        }),
        cli::prompt_refusal(AcpFailure { kind: AcpFailureKind::TurnInProgress, message }) == (
        AppErrorView { code: AppErrorCode::TurnInProgress, message: message@ }),
        cli::prompt_refusal(AcpFailure { kind: AcpFailureKind::ConnectionNotFound(id), message })
            == (AppErrorView {
            code: AppErrorCode::NotFound,
            message: "connection_not_found: "@ + id@,
        }),
        cli::prompt_refusal(AcpFailure { kind: AcpFailureKind::Other, message }) == (AppErrorView {
            code: AppErrorCode::TaskExecutionFailed,
            message: message@,
        }),
{
}

/// The variables of a request stand as they came, in front of those of the host that it does
/// not set itself.
pub proof fn variables_of_the_host_stay(
    base: Seq<(Seq<char>, Seq<char>)>,
    v: (Seq<char>, Seq<char>),
    extra: Seq<(Seq<char>, Seq<char>)>,
)
    ensures
        cli::overlaid(Seq::empty(), extra) == extra,
        dsh_profile::env(extra, v.0) is None ==> cli::overlaid(base.push(v), extra)
            == cli::overlaid(base, extra).push(v),
        dsh_profile::env(extra, v.0) is Some ==> cli::overlaid(base.push(v), extra)
            == cli::overlaid(base, extra),
{
    assert(base.push(v).drop_last() =~= base);
    assert(extra + Seq::empty() =~= extra);
    let left = cli::unnamed(base, extra);
    assert(extra + left.push(v) =~= (extra + left).push(v));
}

/// A message to a conversation goes to the chat that the conversation is on, first of all;
/// then to the topic that it is bound to.
pub proof fn messages_go_where_the_conversation_is(
    on: Seq<SenderContext>,
    bindings: Seq<ThreadBinding>,
    all: Seq<SenderContext>,
)
    ensures
        on.len() > 0 ==> chat_channel::chosen(on, bindings, all) == Some(
            RouteView {
                channel_id: on[0].channel_id,
                sender_id: on[0].sender_id@,
                target: TargetView::TelegramDirect {
                    channel_id: on[0].channel_id,
                    chat_id: on[0].sender_id@,
                    sender_id: on[0].sender_id@,
                },
            },
        ),
        on.len() == 0 && bindings.len() > 0 ==> chat_channel::chosen(on, bindings, all) == Some(
            RouteView {
                channel_id: bindings[0].channel_id,
                sender_id: bindings[0].created_by_sender_id@,
                target: TargetView::TelegramForumTopic {
                    channel_id: bindings[0].channel_id,
                    chat_id: bindings[0].chat_id@,
                    thread_key: bindings[0].thread_key@,
                },
            },
        ),
{
}

/// A sender that has a conversation or a folder.
pub open spec fn at_work(ctx: SenderContext) -> bool {
    ctx.current_conversation_id is Some || ctx.current_folder_id is Some
}

/// The senders at work, in their order.
proof fn senders_at_work(all: Seq<SenderContext>, i: int)
    requires
        0 <= i <= all.len(),
        forall|j: int| 0 <= j < all.len() && j != i ==> !at_work(#[trigger] all[j]),
        i < all.len() ==> at_work(all[i]),
    ensures
        i == all.len() ==> chat_channel::active_senders(all).len() == 0,
        i < all.len() ==> chat_channel::active_senders(all) == seq![all[i]],
    decreases all.len(),
{
    if all.len() > 0 {
        let front = all.drop_last();
        assert forall|j: int| 0 <= j < front.len() implies #[trigger] front[j] == all[j] by {}
        if i < all.len() - 1 {
            assert(!at_work(all[all.len() - 1]));
            senders_at_work(front, i);
        } else {
            senders_at_work(front, front.len() as int);
            if i == all.len() {
                assert(!at_work(all[all.len() - 1]));
            } else {
                assert(chat_channel::active_senders(front) =~= Seq::empty());
                assert(chat_channel::active_senders(all) =~= seq![all[i]]);
            }
        }
    }
}

/// Where the conversation is on no chat, its message goes to the only sender that is at work;
/// where none is, it goes nowhere.
pub proof fn the_only_sender_at_work_is_meant(all: Seq<SenderContext>, i: int)
    requires
        0 <= i <= all.len(),
        forall|j: int| 0 <= j < all.len() && j != i ==> !at_work(#[trigger] all[j]),
        i < all.len() ==> at_work(all[i]),
    ensures
        i == all.len() ==> chat_channel::chosen(Seq::empty(), Seq::empty(), all) is None,
        i < all.len() ==> chat_channel::chosen(Seq::empty(), Seq::empty(), all) == Some(
            RouteView {
                channel_id: all[i].channel_id,
                sender_id: all[i].sender_id@,
                target: TargetView::TelegramDirect {
                    channel_id: all[i].channel_id,
                    chat_id: all[i].sender_id@,
                    sender_id: all[i].sender_id@,
                },
            },
        ),
{
    senders_at_work(all, i);
}

/// How many senders are at work, at least.
proof fn two_are_two(all: Seq<SenderContext>, i: int, j: int)
    requires
        0 <= i < j < all.len(),
        at_work(all[i]),
        at_work(all[j]),
    ensures
        chat_channel::active_senders(all).len() >= 2,
    decreases all.len(),
{
    let front = all.drop_last();
    if j < all.len() - 1 {
        two_are_two(front, i, j);
    } else {
        one_is_one(front, i);
    }
}

/// A sender at work is counted.
proof fn one_is_one(all: Seq<SenderContext>, i: int)
    requires
        0 <= i < all.len(),
        at_work(all[i]),
    ensures
        chat_channel::active_senders(all).len() >= 1,
    decreases all.len(),
{
    if i < all.len() - 1 {
        one_is_one(all.drop_last(), i);
    }
}

/// Where two senders are at work, neither is taken for the other: the message is refused.
pub proof fn doubtful_messages_are_refused(
    params: InjectChatChannelMessageParams,
    all: Seq<SenderContext>,
    i: int,
    j: int,
    session: Option<(Seq<char>, i32)>,
    settings: Option<TelegramConfig>,
)
    requires
        text::trim(params.text@).len() > 0,
        text::trim(params.text@)[0] != '/',
        0 <= i < j < all.len(),
        at_work(all[i]),
        at_work(all[j]),
    ensures
        chat_channel::injected(params, Seq::empty(), Seq::empty(), all, session, settings) == Err::<
            chat_channel::InjectionView,
            AppErrorView,
        >(
            AppErrorView {
                code: AppErrorCode::TaskExecutionFailed,
                message: "conversation is not attached to any channel chat"@,
            },
        ),
{
    two_are_two(all, i, j);
    reveal_strlit("/");
    let t = text::trim(params.text@);
    assert(t.take(1)[0] == t[0]);
    assert("/"@[0] == '/');
}

/// A message is delivered on its route as the command of its sender, marked as coming from
/// the web; a session that is on another conversation is retired first, and the defaults
/// of the channel go along.
pub proof fn messages_are_delivered(
    conversation: i32,
    message: Seq<char>,
    route: RouteView,
    held: Seq<char>,
    on: i32,
    cfg: TelegramConfig,
)
    ensures
        ({
            let d = chat_channel::delivery(
                conversation,
                message,
                route,
                Some((held, on)),
                Some(cfg),
            );
            &&& d.conversation_id == conversation
            &&& d.marker == "🌐 "@ + message
            &&& d.command.channel_id == route.channel_id
            &&& d.command.sender_id == route.sender_id
            &&& d.command.target == route.target
            &&& d.command.command_text == message
            &&& d.command.callback_data is None
            &&& d.command.metadata == JsonView::Object(seq![("source"@, JsonView::Str("web"@))])
            &&& on != conversation ==> d.retire == Some(held)
            &&& on == conversation ==> d.retire is None
            &&& cfg.default_folder_path is Some && text::trim(cfg.default_folder_path->0@).len() > 0
                && cfg.default_agent_type is Some && text::trim(cfg.default_agent_type->0@).len() > 0
                ==> d.command.session_defaults == Some(
                DefaultsView {
                    folder_path: cfg.default_folder_path->0@,
                    agent_type: cfg.default_agent_type->0@,
                },
            )
            &&& cfg.default_folder_path is None || cfg.default_agent_type is None
                ==> d.command.session_defaults is None
        }),
        chat_channel::delivery(conversation, message, route, None, None).retire is None,
        chat_channel::delivery(
            conversation,
            message,
            route,
            None,
            None,
        ).command.session_defaults is None,
{
    let m = JsonView::empty_object().with("source"@, JsonView::Str("web"@));
    assert(m->Object_0 =~= seq![("source"@, JsonView::Str("web"@))]);
}

/// A command is named by up to a hundred and twenty-eight letters, digits, underscores,
/// hyphens and slashes, of which none stands first and no two stand together.
pub proof fn commands_are_named(name: Seq<char>)
    ensures
        ws_invoke::good_name(name) <==> {
            &&& 1 <= name.len() <= 128
            &&& name[0] != '/'
            &&& !text::contains(name, seq!['/', '/'])
            &&& forall|i: int|
                0 <= i < name.len() ==> ('a' <= #[trigger] name[i] <= 'z' || 'A' <= name[i] <= 'Z'
                    || '0' <= name[i] <= '9' || name[i] == '_' || name[i] == '-' || name[i] == '/')
        },
{
    reveal_strlit("//");
    assert("//"@ =~= seq!['/', '/']);
    if ws_invoke::good_name(name) {
        assert forall|i: int| 0 <= i < name.len() implies ('a' <= #[trigger] name[i] <= 'z' || 'A'
            <= name[i] <= 'Z' || '0' <= name[i] <= '9' || name[i] == '_' || name[i] == '-'
            || name[i] == '/') by {
            assert(ws_invoke::name_char(name[i]));
        }
    }
}

/// A body is the value that it spells; an empty one is nothing, and one that spells none is a
/// text.
pub proof fn bodies_are_read(bytes: Seq<u8>, v: JsonView)
    ensures
        bytes.len() == 0 ==> ws_invoke::body_value(bytes) == JsonView::Null,
        bytes.len() > 0 && json::reading_bytes(bytes) == Some(v) ==> ws_invoke::body_value(bytes)
            == v,
        bytes.len() > 0 && json::reading_bytes(bytes) is None ==> ws_invoke::body_value(bytes)
            == JsonView::Str(digest::lossy_text(bytes)),
{
}

/// The first frame tells the version, what can be done, how it is run and the figures, and
/// that no update was looked for yet.
pub proof fn the_first_frame_tells_how_it_stands(
    version: Seq<char>,
    capability: JsonView,
    runtime: Seq<char>,
    delay: u64,
    figures: JsonView,
)
    ensures
        ws_snapshot::first(version, capability, runtime, delay, figures) == JsonView::Object(
            seq![
                ("version"@, JsonView::Str(version)),
                ("capability"@, capability),
                ("runtime"@, JsonView::Str(runtime)),
                ("restartDelayMs"@, JsonView::of_u64(delay)),
                ("updateChecked"@, JsonView::Bool(false)),
                ("metrics"@, figures),
            ],
        ),
{
    assert(ws_snapshot::first(version, capability, runtime, delay, figures)->Object_0 =~= seq![
        ("version"@, JsonView::Str(version)),
        ("capability"@, capability),
        ("runtime"@, JsonView::Str(runtime)),
        ("restartDelayMs"@, JsonView::of_u64(delay)),
        ("updateChecked"@, JsonView::Bool(false)),
        ("metrics"@, figures),
    ]);
}

/// A text that is there, or nothing.
pub open spec fn text_or_null(s: Option<String>) -> JsonView {
    match s {
        Some(t) => JsonView::Str(t@),
        None => JsonView::Null,
    }
}

/// The second frame tells the update: a newer release with what is known of it, and of one
/// that is not newer nothing.
pub proof fn the_second_frame_tells_the_update(current: Seq<char>, release: Release)
    ensures
        ws_snapshot::second(current, true, release) == JsonView::Object(
            seq![
                ("version"@, JsonView::Str(current)),
                ("updateChecked"@, JsonView::Bool(true)),
                ("updateAvailable"@, JsonView::Bool(true)),
                ("latestVersion"@, JsonView::Str(release.version@)),
                ("releaseNotes"@, text_or_null(release.notes)),
                ("releaseDate"@, text_or_null(release.date)),
            ],
        ),
        ws_snapshot::second(current, false, release) == JsonView::Object(
            seq![
                ("version"@, JsonView::Str(current)),
                ("updateChecked"@, JsonView::Bool(true)),
                ("updateAvailable"@, JsonView::Bool(false)),
                ("latestVersion"@, JsonView::Null),
                ("releaseNotes"@, JsonView::Null),
                ("releaseDate"@, JsonView::Null),
            ],
        ),
{
    assert(ws_snapshot::second(current, true, release)->Object_0 =~= seq![
        ("version"@, JsonView::Str(current)),
        ("updateChecked"@, JsonView::Bool(true)),
        ("updateAvailable"@, JsonView::Bool(true)),
        ("latestVersion"@, JsonView::Str(release.version@)),
        ("releaseNotes"@, text_or_null(release.notes)),
        ("releaseDate"@, text_or_null(release.date)),
    ]);
    assert(ws_snapshot::second(current, false, release)->Object_0 =~= seq![
        ("version"@, JsonView::Str(current)),
        ("updateChecked"@, JsonView::Bool(true)),
        ("updateAvailable"@, JsonView::Bool(false)),
        ("latestVersion"@, JsonView::Null),
        ("releaseNotes"@, JsonView::Null),
        ("releaseDate"@, JsonView::Null),
    ]);
}

/// The figures are sent on a channel of their own, and refusals bear their code in front.
pub proof fn frames_have_their_channel(code: Seq<char>, message: Seq<char>)
    ensures
        ws_snapshot::SNAPSHOT_CHANNEL@ == "myclaw://snapshot"@,
        crate::errors::coded(code, message) == (AppErrorView {
            code: AppErrorCode::InvalidInput,
            message: code + ": "@ + message,
        }),
{
}

/// A text that a request holds counts without the white space around it, and not where
/// nothing else is left.
pub proof fn blank_texts_do_not_count(s: Seq<char>)
    ensures
        text::trim(s).len() > 0 ==> cli::filled(Some(s)) == Some(text::trim(s)),
        text::trim(s).len() == 0 ==> cli::filled(Some(s)) is None,
        cli::filled(None) is None,
{
}

} // verus!
