//! Which backend serves a chat channel.
use vstd::prelude::*;
use crate::text;

verus! {

/// Why a channel cannot be served.
#[derive(Debug, PartialEq, Eq)]
pub enum ChatChannelError {
    ConfigurationInvalid(String),
}

/// The settings of a Telegram channel.
#[derive(Debug)]
pub struct TelegramConfig {
    pub chat_id: String,
    pub topic_mode: bool,
    pub direct_chat_enabled: bool,
    pub default_folder_path: Option<String>,
    pub default_agent_type: Option<String>,
}

/// The settings of a Weixin channel.
#[derive(Debug)]
pub struct WeixinConfig {
    pub base_url: String,
}

/// The settings of a Lark channel.
#[derive(Debug)]
pub struct LarkConfig {
    pub app_id: String,
    pub chat_id: String,
}

/// The kind of a channel, with its settings or why they could not be read.
#[derive(Debug)]
pub enum ChannelSettings {
    Telegram(Result<TelegramConfig, String>),
    Weixin(Result<WeixinConfig, String>),
    Lark(Result<LarkConfig, String>),
}

/// Where and with which agent new sessions of a channel start.
#[derive(Debug, PartialEq, Eq)]
pub struct ChannelSessionDefaults {
    pub folder_path: String,
    pub agent_type: String,
}

/// The content of `ChannelSessionDefaults`.
#[verifier::ext_equal]
pub struct DefaultsView {
    pub folder_path: Seq<char>,
    pub agent_type: Seq<char>,
}

impl View for ChannelSessionDefaults {
    type V = DefaultsView;

    open spec fn view(&self) -> DefaultsView {
        DefaultsView { folder_path: self.folder_path@, agent_type: self.agent_type@ }
    }
}

impl DeepView for ChannelSessionDefaults {
    type V = DefaultsView;

    open spec fn deep_view(&self) -> DefaultsView {
        self@
    }
}

/// The backend of a channel.
#[derive(Debug, PartialEq, Eq)]
#[allow(inconsistent_fields)]
pub enum Backend {
    Telegram {
        channel_id: i32,
        token: String,
        chat_id: String,
        topic_mode: bool,
        session_defaults: Option<ChannelSessionDefaults>,
    },
    Weixin { channel_id: i32, token: String, base_url: String },
    Lark { channel_id: i32, app_id: String, token: String, chat_id: String },
}

/// The content of a `Backend`.
#[allow(inconsistent_fields)]
#[verifier::ext_equal]
pub enum BackendView {
    Telegram {
        channel_id: i32,
        token: Seq<char>,
        chat_id: Seq<char>,
        topic_mode: bool,
        session_defaults: Option<DefaultsView>,
    },
    Weixin { channel_id: i32, token: Seq<char>, base_url: Seq<char> },
    Lark { channel_id: i32, app_id: Seq<char>, token: Seq<char>, chat_id: Seq<char> },
}

impl View for Backend {
    type V = BackendView;

    open spec fn view(&self) -> BackendView {
        match *self {
            Backend::Telegram { channel_id, token, chat_id, topic_mode, session_defaults } => BackendView::Telegram {
                channel_id,
                token: token@,
                chat_id: chat_id@,
                topic_mode,
                session_defaults: session_defaults.deep_view(),
            },
            Backend::Weixin { channel_id, token, base_url } => BackendView::Weixin {
                channel_id,
                token: token@,
                base_url: base_url@,
            },
            Backend::Lark { channel_id, app_id, token, chat_id } => BackendView::Lark {
                channel_id,
                app_id: app_id@,
                token: token@,
                chat_id: chat_id@,
            },
        }
    }
}

/// A text that is not blank.
pub open spec fn filled(s: Option<String>) -> bool {
    s matches Some(t) && text::trim(t@).len() > 0
}

/// The backend for a Telegram channel, or what is wrong with its settings.
pub open spec fn telegram(channel_id: i32, cfg: TelegramConfig, token: Seq<char>) -> Result<
    BackendView,
    Seq<char>,
> {
    if cfg.chat_id@.len() == 0 {
        Err("chat_id is required"@)
    } else if cfg.direct_chat_enabled && !filled(cfg.default_folder_path) {
        Err("default_folder_path is required when direct_chat_enabled is true"@)
    } else if cfg.direct_chat_enabled && !filled(cfg.default_agent_type) {
        Err("default_agent_type is required when direct_chat_enabled is true"@)
    } else {
        Ok(
            BackendView::Telegram {
                channel_id,
                token,
                chat_id: cfg.chat_id@,
                topic_mode: cfg.topic_mode,
                session_defaults: if cfg.direct_chat_enabled {
                    Some(
                        DefaultsView {
                            folder_path: cfg.default_folder_path->0@,
                            agent_type: cfg.default_agent_type->0@,
                        },
                    )
                } else {
                    None
                },
            },
        )
    }
}

/// The backend for a channel, or what is wrong with its settings.
pub open spec fn backend(channel_id: i32, settings: ChannelSettings, token: Seq<char>) -> Result<
    BackendView,
    Seq<char>,
> {
    match settings {
        ChannelSettings::Telegram(Err(e)) => Err("Invalid Telegram config: "@ + e@),
        ChannelSettings::Telegram(Ok(cfg)) => telegram(channel_id, cfg, token),
        ChannelSettings::Weixin(Err(e)) => Err("Invalid Weixin config: "@ + e@),
        ChannelSettings::Weixin(Ok(cfg)) => if cfg.base_url@.len() == 0 {
            Err("base_url is required"@)
        } else {
            Ok(BackendView::Weixin { channel_id, token, base_url: cfg.base_url@ })
        },
        ChannelSettings::Lark(Err(e)) => Err("Invalid Lark config: "@ + e@),
        ChannelSettings::Lark(Ok(cfg)) => if cfg.app_id@.len() == 0 || cfg.chat_id@.len() == 0 {
            Err("app_id and chat_id are required"@)
        } else {
            Ok(
                BackendView::Lark {
                    channel_id,
                    app_id: cfg.app_id@,
                    token,
                    chat_id: cfg.chat_id@,
                },
            )
        },
    }
}

/// The error for settings that make no sense.
fn invalid(message: &str) -> (r: ChatChannelError)
    ensures
        r matches ChatChannelError::ConfigurationInvalid(m) && m@ == message@,
{
    ChatChannelError::ConfigurationInvalid(message.to_owned())
}

/// A text where it is not blank.
fn if_filled(s: Option<String>) -> (r: Option<String>)
    ensures
        r == if filled(s) {
            s
        } else {
            None
        },
{
    match s {
        Some(t) => if text::trimmed(t.as_str()).as_str().is_empty() {
            None
        } else {
            Some(t)
        },
        None => None,
    }
}

/// The backend for a Telegram channel.
fn telegram_backend(channel_id: i32, cfg: TelegramConfig, token: String) -> (r: Result<
    Backend,
    ChatChannelError,
>)
    ensures
        match telegram(channel_id, cfg, token@) {
            Ok(b) => r matches Ok(x) && x@ == b,
            Err(m) => r matches Err(ChatChannelError::ConfigurationInvalid(x)) && x@ == m,
        },
{
    if cfg.chat_id.as_str().is_empty() {
        return Err(invalid("chat_id is required"));
    }
    let session_defaults = if cfg.direct_chat_enabled {
        let folder_path = match if_filled(cfg.default_folder_path) {
            Some(p) => p,
            None => {
                return Err(
                    invalid("default_folder_path is required when direct_chat_enabled is true"),
                );
            },
        };
        let agent_type = match if_filled(cfg.default_agent_type) {
            Some(a) => a,
            None => {
                return Err(
                    invalid("default_agent_type is required when direct_chat_enabled is true"),
                );
            },
        };
        Some(ChannelSessionDefaults { folder_path, agent_type })
    } else {
        None
    };
    Ok(
        Backend::Telegram {
            channel_id,
            token,
            chat_id: cfg.chat_id,
            topic_mode: cfg.topic_mode,
            session_defaults,
        },
    )
}

/// The backend for a channel.
pub fn create_backend(channel_id: i32, settings: ChannelSettings, token: String) -> (r: Result<
    Backend,
    ChatChannelError,
>)
    ensures
        match backend(channel_id, settings, token@) {
            Ok(b) => r matches Ok(x) && x@ == b,
            Err(m) => r matches Err(ChatChannelError::ConfigurationInvalid(x)) && x@ == m,
        },
{
    match settings {
        ChannelSettings::Telegram(Err(e)) => Err(
            invalid(text::cat2("Invalid Telegram config: ", e.as_str()).as_str()),
        ),
        ChannelSettings::Telegram(Ok(cfg)) => telegram_backend(channel_id, cfg, token),
        ChannelSettings::Weixin(Err(e)) => Err(
            invalid(text::cat2("Invalid Weixin config: ", e.as_str()).as_str()),
        ),
        ChannelSettings::Weixin(Ok(cfg)) => if cfg.base_url.as_str().is_empty() {
            Err(invalid("base_url is required"))
        } else {
            Ok(Backend::Weixin { channel_id, token, base_url: cfg.base_url })
        },
        ChannelSettings::Lark(Err(e)) => Err(
            invalid(text::cat2("Invalid Lark config: ", e.as_str()).as_str()),
        ),
        ChannelSettings::Lark(Ok(cfg)) => if cfg.app_id.as_str().is_empty()
            || cfg.chat_id.as_str().is_empty() {
            Err(invalid("app_id and chat_id are required"))
        } else {
            Ok(Backend::Lark { channel_id, app_id: cfg.app_id, token, chat_id: cfg.chat_id })
        },
    }
}

/// The defaults that a channel's settings name, where both are named.
pub open spec fn named_defaults(cfg: TelegramConfig) -> Option<DefaultsView> {
    if filled(cfg.default_folder_path) && filled(cfg.default_agent_type) {
        Some(
            DefaultsView {
                folder_path: cfg.default_folder_path->0@,
                agent_type: cfg.default_agent_type->0@,
            },
        )
    } else {
        None
    }
}

/// The defaults that a channel's settings name, where both are named.
pub fn session_defaults(cfg: TelegramConfig) -> (r: Option<ChannelSessionDefaults>)
    ensures
        r.deep_view() == named_defaults(cfg),
{
    match if_filled(cfg.default_folder_path) {
        Some(folder_path) => match if_filled(cfg.default_agent_type) {
            Some(agent_type) => Some(ChannelSessionDefaults { folder_path, agent_type }),
            None => None,
        },
        None => None,
    }
}

/// A Telegram channel that takes direct chats always knows where they start.
pub proof fn direct_chats_have_defaults(channel_id: i32, cfg: TelegramConfig, token: Seq<char>)
    requires
        cfg.direct_chat_enabled,
        telegram(channel_id, cfg, token) is Ok,
    ensures
        telegram(channel_id, cfg, token)->Ok_0 matches BackendView::Telegram {
            session_defaults,
            ..
        } && session_defaults == named_defaults(cfg) && session_defaults is Some,
{
}

} // verus!
