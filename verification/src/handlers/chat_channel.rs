//! The management of chat channels, and messages from the web into a channel.
use vstd::prelude::*;
use crate::chat::backends;
use crate::chat::backends::{ChannelSessionDefaults, DefaultsView, TelegramConfig};
use crate::chat::webhook::WebhookConfig;
use crate::errors::{AppCommandError, AppErrorCode, AppErrorView};
use crate::json::{Json, JsonView};
use crate::text;

verus! {

/// A channel to be created.
#[derive(Debug)]
pub struct CreateChatChannelParams {
    pub name: String,
    pub channel_type: String,
    pub config_json: String,
    pub enabled: bool,
    pub daily_report_enabled: bool,
    pub daily_report_time: Option<String>,
}

/// What is to be changed of a channel.
#[derive(Debug)]
pub struct UpdateChatChannelParams {
    pub id: i32,
    pub name: Option<String>,
    pub enabled: Option<bool>,
    pub config_json: Option<String>,
    pub event_filter_json: Option<Option<String>>,
    pub daily_report_enabled: Option<bool>,
    pub daily_report_time: Option<Option<String>>,
}

/// A channel.
#[derive(Debug)]
pub struct ChannelIdParams {
    pub id: i32,
}

/// A token for a channel.
pub struct SaveTokenParams {
    pub channel_id: i32,
    pub token: String,
}

/// A channel.
#[derive(Debug)]
pub struct ChannelIdOnlyParams {
    pub channel_id: i32,
}

/// Which messages of a channel are asked for.
#[derive(Debug)]
pub struct ListMessagesParams {
    pub channel_id: i32,
    pub limit: Option<u64>,
    pub offset: Option<u64>,
}

/// What commands begin with.
#[derive(Debug)]
pub struct SetCommandPrefixParams {
    pub prefix: String,
}

/// Which events are reported.
#[derive(Debug)]
pub struct SetEventFilterParams {
    pub filter: Option<Vec<String>>,
}

/// Where events are reported to.
#[derive(Debug)]
pub struct SetEventWebhooksParams {
    pub webhooks: Vec<WebhookConfig>,
}

/// The language of messages.
#[derive(Debug)]
pub struct SetMessageLanguageParams {
    pub language: String,
}

/// A QR code to be checked.
#[derive(Debug)]
pub struct WeixinCheckQrcodeParams {
    pub channel_id: i32,
    pub qrcode: String,
}

/// A message from the web for a conversation of a channel.
#[derive(Debug)]
pub struct InjectChatChannelMessageParams {
    pub conversation_id: i32,
    pub text: String,
}

/// What is known of a sender in a channel.
#[derive(Debug)]
pub struct SenderContext {
    pub channel_id: i32,
    pub sender_id: String,
    pub current_conversation_id: Option<i32>,
    pub current_folder_id: Option<i32>,
}

/// A thread of a channel that belongs to a conversation.
#[derive(Debug)]
pub struct ThreadBinding {
    pub channel_id: i32,
    pub chat_id: String,
    pub thread_key: String,
    pub created_by_sender_id: String,
}

/// Where in a channel a message goes.
#[derive(Debug, PartialEq, Eq)]
#[allow(inconsistent_fields)]
pub enum ChannelMessageTarget {
    TelegramDirect { channel_id: i32, chat_id: String, sender_id: String },
    TelegramForumTopic { channel_id: i32, chat_id: String, thread_key: String },
}

/// The content of a `ChannelMessageTarget`.
#[allow(inconsistent_fields)]
#[verifier::ext_equal]
pub enum TargetView {
    TelegramDirect { channel_id: i32, chat_id: Seq<char>, sender_id: Seq<char> },
    TelegramForumTopic { channel_id: i32, chat_id: Seq<char>, thread_key: Seq<char> },
}

impl View for ChannelMessageTarget {
    type V = TargetView;

    open spec fn view(&self) -> TargetView {
        match *self {
            ChannelMessageTarget::TelegramDirect { channel_id, chat_id, sender_id } => TargetView::TelegramDirect {
                channel_id,
                chat_id: chat_id@,
                sender_id: sender_id@,
            },
            ChannelMessageTarget::TelegramForumTopic { channel_id, chat_id, thread_key } => TargetView::TelegramForumTopic {
                channel_id,
                chat_id: chat_id@,
                thread_key: thread_key@,
            },
        }
    }
}

/// The chat that a message goes through.
#[derive(Debug, PartialEq, Eq)]
pub struct Route {
    pub channel_id: i32,
    pub sender_id: String,
    pub target: ChannelMessageTarget,
}

/// The content of a `Route`.
#[verifier::ext_equal]
pub struct RouteView {
    pub channel_id: i32,
    pub sender_id: Seq<char>,
    pub target: TargetView,
}

impl View for Route {
    type V = RouteView;

    open spec fn view(&self) -> RouteView {
        RouteView {
            channel_id: self.channel_id,
            sender_id: self.sender_id@,
            target: self.target@,
        }
    }
}

impl DeepView for Route {
    type V = RouteView;

    open spec fn deep_view(&self) -> RouteView {
        self@
    }
}

/// The direct chat of a sender.
pub open spec fn direct(ctx: SenderContext) -> RouteView {
    RouteView {
        channel_id: ctx.channel_id,
        sender_id: ctx.sender_id@,
        target: TargetView::TelegramDirect {
            channel_id: ctx.channel_id,
            chat_id: ctx.sender_id@,
            sender_id: ctx.sender_id@,
        },
    }
}

/// The thread of a conversation.
pub open spec fn topic(b: ThreadBinding) -> RouteView {
    RouteView {
        channel_id: b.channel_id,
        sender_id: b.created_by_sender_id@,
        target: TargetView::TelegramForumTopic {
            channel_id: b.channel_id,
            chat_id: b.chat_id@,
            thread_key: b.thread_key@,
        },
    }
}

/// Whether a sender has used the channel.
pub open spec fn active(ctx: SenderContext) -> bool {
    ctx.current_conversation_id is Some || ctx.current_folder_id is Some
}

/// The senders that have used the channel.
pub open spec fn active_senders(all: Seq<SenderContext>) -> Seq<SenderContext>
    decreases all.len(),
{
    if all.len() == 0 {
        Seq::empty()
    } else if active(all.last()) {
        active_senders(all.drop_last()).push(all.last())
    } else {
        active_senders(all.drop_last())
    }
}

/// The chat of a conversation: the direct chat that is on it, or else its thread, or
/// else the chat of the only sender there is.
pub open spec fn chosen(
    on_conversation: Seq<SenderContext>,
    bindings: Seq<ThreadBinding>,
    all: Seq<SenderContext>,
) -> Option<RouteView> {
    if on_conversation.len() > 0 {
        Some(direct(on_conversation[0]))
    } else if bindings.len() > 0 {
        Some(topic(bindings[0]))
    } else if active_senders(all).len() == 1 {
        Some(direct(active_senders(all)[0]))
    } else {
        None
    }
}

/// The direct chat of a sender.
fn direct_route(ctx: &SenderContext) -> (r: Route)
    ensures
        r@ == direct(*ctx),
{
    Route {
        channel_id: ctx.channel_id,
        sender_id: ctx.sender_id.clone(),
        target: ChannelMessageTarget::TelegramDirect {
            channel_id: ctx.channel_id,
            chat_id: ctx.sender_id.clone(),
            sender_id: ctx.sender_id.clone(),
        },
    }
}

/// The chat of a conversation. `on_conversation` are the senders that are on it,
/// `bindings` its threads, and `all` all senders.
pub fn choose_route(
    on_conversation: &Vec<SenderContext>,
    bindings: &Vec<ThreadBinding>,
    all: &Vec<SenderContext>,
) -> (r: Option<Route>)
    ensures
        r.deep_view() == chosen(on_conversation@, bindings@, all@),
{
    if on_conversation.len() > 0 {
        return Some(direct_route(&on_conversation[0]));
    }
    if bindings.len() > 0 {
        let b = &bindings[0];
        return Some(
            Route {
                channel_id: b.channel_id,
                sender_id: b.created_by_sender_id.clone(),
                target: ChannelMessageTarget::TelegramForumTopic {
                    channel_id: b.channel_id,
                    chat_id: b.chat_id.clone(),
                    thread_key: b.thread_key.clone(),
                },
            },
        );
    }
    let mut count: usize = 0;
    let mut found: usize = 0;
    for i in 0..all.len()
        invariant
            count <= i,
            count == active_senders(all@.take(i as int)).len(),
            count > 0 ==> found < all@.len() && active_senders(all@.take(i as int))[0]
                == all@[found as int],
    {
        assert(all@.take(i + 1).drop_last() =~= all@.take(i as int));
        assert(all@.take(i + 1).last() == all@[i as int]);
        if all[i].current_conversation_id.is_some() || all[i].current_folder_id.is_some() {
            if count == 0 {
                found = i;
            }
            count = count + 1;
        }
    }
    assert(all@.take(all@.len() as int) =~= all@);
    if count == 1 {
        Some(direct_route(&all[found]))
    } else {
        None
    }
}

/// The error for a task that failed.
pub open spec fn failed(message: Seq<char>) -> AppErrorView {
    AppErrorView { code: AppErrorCode::TaskExecutionFailed, message }
}

/// The error for a task that failed.
fn task_failed(message: &str) -> (r: AppCommandError)
    ensures
        r@ == failed(message@),
{
    AppCommandError { code: AppErrorCode::TaskExecutionFailed, message: message.to_owned() }
}

/// What is wrong with a text that is to be sent into a channel: it must not be blank,
/// and not be taken for a command of the channel.
pub open spec fn text_fault(s: Seq<char>) -> Option<AppErrorView> {
    if text::trim(s).len() == 0 {
        Some(failed("text is empty"@))
    } else if text::begins(text::trim(s), "/"@) {
        Some(failed("commands cannot be injected"@))
    } else {
        None
    }
}

/// Checks a text that is to be sent into a channel, and trims it.
pub fn check_text(params: &InjectChatChannelMessageParams) -> (r: Result<String, AppCommandError>)
    ensures
        match text_fault(params.text@) {
            Some(e) => r matches Err(x) && x@ == e,
            None => r matches Ok(t) && t@ == text::trim(params.text@),
        },
{
    let t = text::trimmed(params.text.as_str());
    if t.as_str().is_empty() {
        return Err(task_failed("text is empty"));
    }
    if text::starts_with(t.as_str(), "/") {
        return Err(task_failed("commands cannot be injected"));
    }
    Ok(t)
}

/// The text and the chat of a message from the web.
pub fn route_message(
    params: &InjectChatChannelMessageParams,
    on_conversation: &Vec<SenderContext>,
    bindings: &Vec<ThreadBinding>,
    all: &Vec<SenderContext>,
) -> (r: Result<(String, Route), AppCommandError>)
    ensures
        match text_fault(params.text@) {
            Some(e) => r matches Err(x) && x@ == e,
            None => match chosen(on_conversation@, bindings@, all@) {
                Some(route) => r matches Ok(p) && p.0@ == text::trim(params.text@) && p.1@ == route,
                None => r matches Err(x) && x@ == failed(
                    "conversation is not attached to any channel chat"@,
                ),
            },
        },
{
    match check_text(params) {
        Err(e) => Err(e),
        Ok(t) => match choose_route(on_conversation, bindings, all) {
            Some(route) => Ok((t, route)),
            None => Err(task_failed("conversation is not attached to any channel chat")),
        },
    }
}

/// A message as a channel receives it from its users.
#[derive(Debug)]
pub struct IncomingCommand {
    pub channel_id: i32,
    pub sender_id: String,
    pub command_text: String,
    pub callback_data: Option<String>,
    pub target: ChannelMessageTarget,
    pub metadata: Json,
    pub session_defaults: Option<ChannelSessionDefaults>,
}

/// The content of an `IncomingCommand`.
#[verifier::ext_equal]
pub struct CommandView {
    pub channel_id: i32,
    pub sender_id: Seq<char>,
    pub command_text: Seq<char>,
    pub callback_data: Option<Seq<char>>,
    pub target: TargetView,
    pub metadata: JsonView,
    pub session_defaults: Option<DefaultsView>,
}

impl View for IncomingCommand {
    type V = CommandView;

    open spec fn view(&self) -> CommandView {
        CommandView {
            channel_id: self.channel_id,
            sender_id: self.sender_id@,
            command_text: self.command_text@,
            callback_data: self.callback_data.deep_view(),
            target: self.target@,
            metadata: self.metadata@,
            session_defaults: self.session_defaults.deep_view(),
        }
    }
}

/// What is done for a message from the web, in this order: a session of the sender on
/// another conversation is retired, the sender is put on this one, the marker is sent
/// to the chat, and the message is queued like one of the channel's users.
#[derive(Debug)]
pub struct Injection {
    pub retire: Option<String>,
    pub conversation_id: i32,
    pub marker: String,
    pub command: IncomingCommand,
}

/// The connection of a session that is on another conversation.
pub open spec fn stale(session: Option<(Seq<char>, i32)>, conversation_id: i32) -> Option<Seq<char>> {
    match session {
        Some((connection, on)) => if on != conversation_id {
            Some(connection)
        } else {
            None
        },
        None => None,
    }
}

/// The defaults for new sessions in a channel with these settings.
pub open spec fn defaults_in(settings: Option<TelegramConfig>) -> Option<DefaultsView> {
    match settings {
        Some(cfg) => backends::named_defaults(cfg),
        None => None,
    }
}

/// The content of an `Injection`.
#[verifier::ext_equal]
pub struct InjectionView {
    pub retire: Option<Seq<char>>,
    pub conversation_id: i32,
    pub marker: Seq<char>,
    pub command: CommandView,
}

impl View for Injection {
    type V = InjectionView;

    open spec fn view(&self) -> InjectionView {
        InjectionView {
            retire: self.retire.deep_view(),
            conversation_id: self.conversation_id,
            marker: self.marker@,
            command: self.command@,
        }
    }
}

/// What is done for a text on its route.
pub open spec fn delivery(
    conversation_id: i32,
    message: Seq<char>,
    route: RouteView,
    session: Option<(Seq<char>, i32)>,
    settings: Option<TelegramConfig>,
) -> InjectionView {
    InjectionView {
        retire: stale(session, conversation_id),
        conversation_id,
        marker: "🌐 "@ + message,
        command: CommandView {
            channel_id: route.channel_id,
            sender_id: route.sender_id,
            command_text: message,
            callback_data: None,
            target: route.target,
            metadata: JsonView::empty_object().with("source"@, JsonView::Str("web"@)),
            session_defaults: defaults_in(settings),
        },
    }
}

/// What is done for a message from the web, or why nothing is.
pub open spec fn injected(
    params: InjectChatChannelMessageParams,
    on_conversation: Seq<SenderContext>,
    bindings: Seq<ThreadBinding>,
    all: Seq<SenderContext>,
    session: Option<(Seq<char>, i32)>,
    settings: Option<TelegramConfig>,
) -> Result<InjectionView, AppErrorView> {
    match text_fault(params.text@) {
        Some(e) => Err(e),
        None => match chosen(on_conversation, bindings, all) {
            Some(route) => Ok(
                delivery(
                    params.conversation_id,
                    text::trim(params.text@),
                    route,
                    session,
                    settings,
                ),
            ),
            None => Err(failed("conversation is not attached to any channel chat"@)),
        },
    }
}

/// What is done for a message from the web, or why nothing is. The senders and threads
/// are those of `choose_route`. `session` is the live session on the chat that the
/// message goes through: its connection and the conversation that it is on. `settings`
/// are those of that chat's channel, where they could be read.
pub fn inject_chat_channel_message(
    params: &InjectChatChannelMessageParams,
    on_conversation: &Vec<SenderContext>,
    bindings: &Vec<ThreadBinding>,
    all: &Vec<SenderContext>,
    session: Option<(String, i32)>,
    settings: Option<TelegramConfig>,
) -> (r: Result<Injection, AppCommandError>)
    ensures
        match injected(
            *params,
            on_conversation@,
            bindings@,
            all@,
            session.deep_view(),
            settings,
        ) {
            Ok(i) => r matches Ok(x) && x@ == i,
            Err(e) => r matches Err(x) && x@ == e,
        },
{
    let (message, route) = match route_message(params, on_conversation, bindings, all) {
        Ok(p) => p,
        Err(e) => {
            return Err(e);
        },
    };
    let session_defaults = match settings {
        Some(cfg) => backends::session_defaults(cfg),
        None => None,
    };
    let retire = match session {
        Some((connection, on)) => if on != params.conversation_id {
            Some(connection)
        } else {
            None
        },
        None => None,
    };
    Ok(
        Injection {
            retire,
            conversation_id: params.conversation_id,
            marker: text::cat2("🌐 ", message.as_str()),
            command: IncomingCommand {
                channel_id: route.channel_id,
                sender_id: route.sender_id,
                command_text: message,
                callback_data: None,
                target: route.target,
                metadata: Json::empty_object().with("source", Json::of_str("web")),
                session_defaults,
            },
        },
    )
}

/// The error for a message that could not be queued.
pub fn enqueue_failed(why: &str) -> (r: AppCommandError)
    ensures
        r@ == failed("enqueue failed: "@ + why@),
{
    task_failed(text::cat2("enqueue failed: ", why).as_str())
}

/// A blank text and a command of the channel, however they are padded, are refused:
/// nothing is done for them.
pub proof fn commands_are_not_injected(
    params: InjectChatChannelMessageParams,
    on_conversation: Seq<SenderContext>,
    bindings: Seq<ThreadBinding>,
    all: Seq<SenderContext>,
    session: Option<(Seq<char>, i32)>,
    settings: Option<TelegramConfig>,
)
    ensures
        text::trim(params.text@).len() == 0 ==> injected(
            params,
            on_conversation,
            bindings,
            all,
            session,
            settings,
        ) == Err::<InjectionView, _>(failed("text is empty"@)),
        text::trim(params.text@).len() > 0 && text::trim(params.text@)[0] == '/' ==> injected(
            params,
            on_conversation,
            bindings,
            all,
            session,
            settings,
        ) == Err::<InjectionView, _>(failed("commands cannot be injected"@)),
{
    let t = text::trim(params.text@);
    reveal_strlit("/");
    if t.len() > 0 && t[0] == '/' {
        assert(t.take(1) =~= "/"@);
    }
}

/// What is queued is what was typed, without the blanks around it, and it is no
/// command.
pub proof fn queued_text_is_what_was_typed(
    params: InjectChatChannelMessageParams,
    on_conversation: Seq<SenderContext>,
    bindings: Seq<ThreadBinding>,
    all: Seq<SenderContext>,
    session: Option<(Seq<char>, i32)>,
    settings: Option<TelegramConfig>,
)
    ensures
        injected(params, on_conversation, bindings, all, session, settings) matches Ok(i) ==> {
            &&& i.command.command_text == text::trim(params.text@)
            &&& i.command.command_text.len() > 0
            &&& i.command.command_text[0] != '/'
            &&& i.marker == "🌐 "@ + i.command.command_text
        },
{
    commands_are_not_injected(params, on_conversation, bindings, all, session, settings);
}

} // verus!
