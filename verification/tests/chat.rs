use codeg::chat::backends::{
    create_backend, session_defaults, Backend, ChannelSettings, ChatChannelError, LarkConfig,
    TelegramConfig, WeixinConfig,
};
use codeg::handlers::chat_channel::{
    check_text, choose_route, enqueue_failed, inject_chat_channel_message, route_message,
    ChannelMessageTarget, InjectChatChannelMessageParams, SenderContext, ThreadBinding,
};
use codeg::image_pins::arg_default;

fn telegram(direct: bool, folder: Option<&str>, agent: Option<&str>) -> TelegramConfig {
    TelegramConfig {
        chat_id: "42".into(),
        topic_mode: false,
        direct_chat_enabled: direct,
        default_folder_path: folder.map(String::from),
        default_agent_type: agent.map(String::from),
    }
}

#[test]
fn each_channel_gets_its_backend() {
    match create_backend(1, ChannelSettings::Telegram(Ok(telegram(false, None, None))), "t".into()) {
        Ok(Backend::Telegram { channel_id, token, chat_id, session_defaults, .. }) => {
            assert_eq!((channel_id, token.as_str(), chat_id.as_str()), (1, "t", "42"));
            assert!(session_defaults.is_none());
        }
        _ => panic!("no backend"),
    }
    let weixin = ChannelSettings::Weixin(Ok(WeixinConfig { base_url: "https://x".into() }));
    assert!(matches!(create_backend(2, weixin, "t".into()), Ok(Backend::Weixin { .. })));
    let lark = LarkConfig { app_id: "a".into(), chat_id: "c".into() };
    assert!(matches!(
        create_backend(3, ChannelSettings::Lark(Ok(lark)), "t".into()),
        Ok(Backend::Lark { .. })
    ));
}

#[test]
fn direct_chats_need_defaults() {
    let broken = ChannelSettings::Telegram(Ok(telegram(true, None, Some("codex"))));
    assert!(matches!(
        create_backend(1, broken, "t".into()),
        Err(ChatChannelError::ConfigurationInvalid(_))
    ));
    let whole = ChannelSettings::Telegram(Ok(telegram(true, Some("/w"), Some("codex"))));
    match create_backend(1, whole, "t".into()) {
        Ok(Backend::Telegram { session_defaults: Some(d), .. }) => {
            assert_eq!(d.folder_path, "/w");
            assert_eq!(d.agent_type, "codex");
        }
        _ => panic!("no defaults"),
    }
    assert!(session_defaults(telegram(true, Some("/w"), Some("codex"))).is_some());
    assert!(session_defaults(telegram(true, None, None)).is_none());
}

#[test]
fn a_broken_configuration_is_told() {
    match create_backend(1, ChannelSettings::Lark(Err("missing field".into())), "t".into()) {
        Err(ChatChannelError::ConfigurationInvalid(why)) => {
            assert!(why.contains("missing field"), "{why}")
        }
        Ok(_) => panic!("built"),
    }
}

fn sender(id: &str, conversation: Option<i32>) -> SenderContext {
    SenderContext {
        channel_id: 1,
        sender_id: id.into(),
        current_conversation_id: conversation,
        current_folder_id: None,
    }
}

fn binding() -> ThreadBinding {
    ThreadBinding {
        channel_id: 2,
        chat_id: "g".into(),
        thread_key: "7".into(),
        created_by_sender_id: "s".into(),
    }
}

#[test]
fn a_message_goes_where_the_conversation_is() {
    let r = choose_route(&vec![sender("a", Some(5))], &vec![binding()], &vec![]).unwrap();
    assert_eq!(r.sender_id, "a");
    assert!(matches!(r.target, ChannelMessageTarget::TelegramDirect { .. }));
    let r = choose_route(&vec![], &vec![binding()], &vec![sender("a", Some(5))]).unwrap();
    assert_eq!(r.channel_id, 2);
    assert!(matches!(r.target, ChannelMessageTarget::TelegramForumTopic { .. }));
}

#[test]
fn the_only_active_sender_is_a_last_resort() {
    let r = choose_route(&vec![], &vec![], &vec![sender("a", Some(5)), sender("b", None)]);
    assert_eq!(r.unwrap().sender_id, "a");
    assert!(choose_route(&vec![], &vec![], &vec![sender("a", Some(5)), sender("b", Some(6))])
        .is_none());
    assert!(choose_route(&vec![], &vec![], &vec![]).is_none());
}

fn message(text: &str) -> InjectChatChannelMessageParams {
    InjectChatChannelMessageParams { conversation_id: 5, text: text.into() }
}

#[test]
fn blank_texts_and_commands_are_refused() {
    assert!(check_text(&message("  ")).is_err());
    assert!(check_text(&message("/new")).is_err());
    assert_eq!(check_text(&message(" hi ")).ok().as_deref(), Some("hi"));
    assert!(route_message(&message("hi"), &vec![], &vec![], &vec![]).is_err());
    let (text, route) =
        route_message(&message("hi"), &vec![sender("a", Some(5))], &vec![], &vec![]).ok().unwrap();
    assert_eq!(text, "hi");
    assert_eq!(route.sender_id, "a");
}

#[test]
fn a_session_of_another_conversation_is_retired() {
    let on = vec![sender("a", Some(5))];
    let inject = |text: &str, session: Option<(String, i32)>, settings: Option<TelegramConfig>| {
        inject_chat_channel_message(&message(text), &on, &vec![], &vec![], session, settings)
    };
    let i = inject("hi", Some(("c1".into(), 9)), None).unwrap();
    assert_eq!(i.retire.as_deref(), Some("c1"));
    assert_eq!(i.conversation_id, 5);
    assert_eq!(i.command.sender_id, "a");
    assert_eq!(i.command.command_text, "hi");
    let i = inject(" hi ", Some(("c1".into(), 5)), None).unwrap();
    assert_eq!(i.retire, None);
    assert_eq!(i.marker, "🌐 hi");
    assert_eq!(i.command.metadata.write(), r#"{"source":"web"}"#);
    assert!(i.command.session_defaults.is_none());
    let i = inject("hi", None, Some(telegram(false, Some("/w"), Some("codex")))).unwrap();
    let defaults = i.command.session_defaults.unwrap();
    assert_eq!((defaults.folder_path.as_str(), defaults.agent_type.as_str()), ("/w", "codex"));
    let i = inject("hi", None, Some(telegram(true, Some("/w"), Some("  ")))).unwrap();
    assert!(i.command.session_defaults.is_none());
    assert!(enqueue_failed("closed").message.contains("closed"));
}

#[test]
fn build_arguments_are_read_from_the_image_file() {
    let file = "FROM x\n  ARG V_PI=1.2.3 \nARG CODEG_VERSION\nARG V_PI=9\n";
    assert_eq!(arg_default(file, "V_PI").as_deref(), Some("1.2.3"));
    assert_eq!(arg_default(file, "CODEG_VERSION"), None);
    assert_eq!(arg_default(file, "V_P"), None);
}

#[test]
fn blank_texts_and_commands_are_not_injected() {
    let on = vec![sender("a", Some(5))];
    let inject = |text: &str, on: &Vec<SenderContext>| {
        inject_chat_channel_message(&message(text), on, &vec![], &vec![], None, None)
            .map(|i| i.command.command_text)
            .map_err(|e| e.message)
    };
    assert_eq!(inject("  \n", &on), Err("text is empty".to_string()));
    assert_eq!(inject(" /new", &on), Err("commands cannot be injected".to_string()));
    assert_eq!(
        inject("hi", &vec![]),
        Err("conversation is not attached to any channel chat".to_string())
    );
    assert_eq!(inject(" hi /new ", &on), Ok("hi /new".to_string()));
}
