use codeg::chat::composer::{split_head, Composer, TG_CHUNK};
use codeg::chat::turn_relay::{
    abort, derive_draft_base, failure_payload, may_register, method_url, read_answer,
    read_outcome, relay_turn_id_for, report_failure, tool_status, turn_for, Outcome,
    OutboundSpec, Relay, RelayAction, RelayInput, RelayTexts, TelegramTurn, TgError, TurnReport,
    CLAIM_TTL_MS,
};
use codeg::events::AcpEvent;
use codeg::json::Json;

fn json(text: &str) -> Json {
    Json::parse(text).unwrap()
}

#[test]
fn composer_keeps_growing_until_the_length_cap() {
    let mut c = Composer::new();
    assert!(c.push("先说一句").is_empty());
    assert!(c.push(",再说一句").is_empty());
    assert_eq!(c.text(), "先说一句,再说一句");
    assert_eq!(c.index(), 0);
}

#[test]
fn composer_overflow_finalizes_head_and_keeps_tail() {
    let mut c = Composer::new();
    let line = "字".repeat(1000);
    let text = format!("{line}\n{line}\n{line}\n{line}\n尾巴");
    let out = c.push(&text);
    assert_eq!(out.len(), 1);
    assert_eq!(out[0], format!("{line}\n{line}\n{line}"));
    assert_eq!(c.text(), format!("{line}\n尾巴"));
    assert_eq!(c.index(), 1);
}

#[test]
fn split_without_newlines_hard_cuts_by_chars() {
    let text = "长".repeat(TG_CHUNK + 5);
    let (head, tail) = split_head(&text, TG_CHUNK);
    assert_eq!(head.chars().count(), TG_CHUNK);
    assert_eq!(tail.chars().count(), 5);
}

#[test]
fn draft_base_is_stable_and_positive() {
    let a = derive_draft_base("turn-1");
    assert_eq!(a, derive_draft_base("turn-1"));
    assert!(a > 0 && a < (1 << 30));
    assert_ne!(a, derive_draft_base("turn-2"));
}

#[test]
fn outbound_spec_parses_and_redacts_token() {
    let spec = OutboundSpec::Telegram {
        turn_id: "t1".into(),
        bot_token: "123:SECRET".into(),
        chat_id: 42,
        draft_id: None,
        texts: RelayTexts::default(),
    };
    assert_eq!(spec.turn_id(), "t1");
    let dbg = spec.describe();
    assert!(!dbg.contains("SECRET"));
    assert!(dbg.contains("redacted"));
}

/// A Telegram that records its calls, and the clock that it lives by.
struct Sim {
    turn: TelegramTurn,
    now: u64,
    calls: Vec<(String, String)>,
    next_id: i64,
    fail_messages: bool,
    reject_html: bool,
    edit_gone: bool,
    limited: Vec<u64>,
    inbox: Vec<RelayInput>,
    waiting_until: Option<u64>,
    report: Option<TurnReport>,
}

impl Sim {
    fn new() -> Sim {
        Sim {
            turn: TelegramTurn::new(1, 100, RelayTexts::default()),
            now: 0,
            calls: vec![],
            next_id: 0,
            fail_messages: false,
            reject_html: false,
            edit_gone: false,
            limited: vec![],
            inbox: vec![],
            waiting_until: None,
            report: None,
        }
    }

    fn answer(&mut self, method: &str, body: &Json) -> Result<Option<i64>, TgError> {
        let text = body.str_at("text").unwrap_or_default().to_string();
        self.calls.push((method.to_string(), text));
        if !self.limited.is_empty() {
            return Err(TgError::RetryAfter(self.limited.remove(0)));
        }
        if self.fail_messages && method == "sendMessage" {
            return Err(TgError::Other("Forbidden".into()));
        }
        if self.edit_gone && method == "editMessageText" {
            return Err(TgError::Other("Bad Request: message to edit not found".into()));
        }
        if self.reject_html && body.get("parse_mode").is_some() {
            return Err(TgError::Other("Bad Request: can't parse entities".into()));
        }
        if method == "sendMessage" {
            self.next_id += 1;
            return Ok(Some(self.next_id));
        }
        Ok(None)
    }

    /// Performs actions until the turn waits for something or is over.
    fn perform(&mut self, first: RelayAction) {
        let mut action = first;
        loop {
            action = match action {
                RelayAction::Call { method, body } => {
                    let reply = self.answer(&method, &body);
                    self.turn.on_input(RelayInput::Reply(reply), self.now)
                }
                RelayAction::Sleep(seconds) => {
                    self.now += seconds * 1000;
                    self.turn.on_input(RelayInput::Woken, self.now)
                }
                RelayAction::Wait { until } => {
                    self.waiting_until = Some(until);
                    return;
                }
                RelayAction::Done(report) => {
                    self.report = Some(report);
                    self.waiting_until = None;
                    return;
                }
                RelayAction::Nothing => panic!("nothing to do"),
            };
        }
    }

    fn begin(&mut self) {
        let action = self.turn.start(self.now);
        self.perform(action);
    }

    fn deliver(&mut self, input: RelayInput) {
        if self.report.is_none() {
            let action = self.turn.on_input(input, self.now);
            self.perform(action);
        }
    }

    /// Lets time pass; the timer fires whenever it is due.
    fn pass(&mut self, ms: u64) {
        let end = self.now + ms;
        while let Some(input) = self.inbox.pop() {
            self.deliver(input);
        }
        while self.report.is_none() {
            match self.waiting_until {
                Some(until) if until <= end => {
                    self.now = self.now.max(until);
                    self.deliver(RelayInput::Timer);
                }
                _ => break,
            }
        }
        self.now = self.now.max(end);
    }

    fn calls_of(&self, method: &str) -> Vec<String> {
        self.calls.iter().filter(|(m, _)| m == method).map(|(_, t)| t.clone()).collect()
    }

    fn messages(&self) -> Vec<String> {
        self.calls_of("sendMessage")
    }

    fn edits(&self) -> Vec<String> {
        self.calls_of("editMessageText")
    }

    fn drafts(&self) -> Vec<String> {
        self.calls_of("sendMessageDraft")
    }

    fn run(&mut self, inputs: Vec<RelayInput>) -> TurnReport {
        self.begin();
        for input in inputs {
            self.deliver(input);
        }
        self.deliver(RelayInput::Closed);
        self.report.take().unwrap()
    }
}

fn delta(t: &str) -> RelayInput {
    RelayInput::Event(AcpEvent::ContentDelta { text: t.into(), parent_tool_use_id: None })
}

fn complete(reason: &str) -> RelayInput {
    RelayInput::Event(AcpEvent::TurnComplete {
        session_id: "s".into(),
        stop_reason: reason.into(),
        agent_type: "claude_code".into(),
        duration_ms: None,
    })
}

fn tool_call(id: &str, title: &str, description: Option<&str>) -> RelayInput {
    RelayInput::Event(AcpEvent::ToolCall {
        tool_call_id: id.into(),
        title: title.into(),
        kind: "execute".into(),
        status: "in_progress".into(),
        tool_name: Some("Bash".into()),
        description: description.map(str::to_string),
        content: None,
        raw_input: None,
        raw_output: None,
        locations: None,
        meta: None,
        images: None,
    })
}

fn tool_done(id: &str) -> RelayInput {
    RelayInput::Event(AcpEvent::ToolCallUpdate {
        tool_call_id: id.into(),
        title: None,
        tool_name: None,
        description: None,
        status: Some("completed".into()),
        content: None,
        raw_input: None,
        raw_output: None,
        raw_output_append: None,
        locations: None,
        meta: None,
        images: None,
    })
}

#[test]
fn a_turn_lands_in_one_message_even_with_tool_calls() {
    let mut sim = Sim::new();
    let r = sim.run(vec![
        delta("我先看看"),
        tool_call("t", "Bash", None),
        delta("结论是 "),
        delta("42"),
        complete("end_turn"),
    ]);
    assert_eq!(r.outcome, Outcome::Completed);
    assert!(!r.delivery_failed);
    assert_eq!(sim.messages(), vec!["我先看看结论是 42"]);
    assert_eq!(r.message_ids, vec![1]);
    assert_eq!(sim.drafts().first().unwrap(), &RelayTexts::default().thinking);
}

#[test]
fn growing_text_edits_the_same_message() {
    let mut sim = Sim::new();
    sim.begin();
    sim.deliver(delta("第一段"));
    sim.pass(1500);
    assert_eq!(sim.messages(), vec!["第一段"]);

    sim.deliver(delta("、第二段"));
    sim.pass(1500);
    assert_eq!(sim.edits(), vec!["第一段、第二段"]);
    assert_eq!(sim.messages().len(), 1);

    sim.deliver(complete("end_turn"));
    let r = sim.report.take().unwrap();
    assert_eq!(r.message_ids, vec![1]);
    assert_eq!(sim.edits().len(), 1);
}

#[test]
fn tool_status_rides_at_the_end_of_the_message() {
    let mut sim = Sim::new();
    sim.begin();
    sim.deliver(delta("正文"));
    sim.pass(1500);
    sim.deliver(tool_call("t1", "df -h", Some("查看磁盘使用情况")));
    sim.pass(1500);
    assert_eq!(sim.edits().last().unwrap(), "正文\n\n🔧 查看磁盘使用情况");

    sim.deliver(tool_done("t1"));
    sim.pass(1500);
    assert_eq!(sim.edits().last().unwrap(), "正文");
    sim.deliver(complete("end_turn"));
    assert!(sim.report.is_some());
}

#[test]
fn status_shows_in_a_draft_until_the_first_text() {
    let mut sim = Sim::new();
    sim.begin();
    sim.deliver(tool_call("t1", "df -h", Some("查看磁盘使用情况")));
    sim.pass(1500);
    assert_eq!(sim.drafts().last().unwrap(), "🔧 查看磁盘使用情况");
    assert!(sim.messages().is_empty());

    sim.deliver(tool_done("t1"));
    sim.pass(1500);
    assert_eq!(sim.drafts().last().unwrap(), &RelayTexts::default().thinking);
    sim.deliver(complete("end_turn"));
    assert!(sim.report.is_some());
}

#[test]
fn empty_and_cancelled_and_failed_turns_leave_a_note() {
    let mut sim = Sim::new();
    sim.run(vec![complete("end_turn")]);
    assert_eq!(sim.messages(), vec![RelayTexts::default().empty]);

    let mut sim = Sim::new();
    sim.run(vec![delta("写了一半"), complete("cancelled")]);
    assert_eq!(sim.messages(), vec!["写了一半".to_string(), RelayTexts::default().cancelled]);

    let mut sim = Sim::new();
    let r = sim.run(vec![complete("max_tokens")]);
    assert_eq!(r.outcome, Outcome::Failed);
    assert_eq!(sim.messages(), vec![RelayTexts::default().failed]);
}

#[test]
fn lagged_and_aborted_send_nothing_final() {
    let mut sim = Sim::new();
    let r = sim.run(vec![delta("半截"), RelayInput::Lagged]);
    assert_eq!(r.outcome, Outcome::Lagged);
    assert!(sim.messages().is_empty());

    let mut sim = Sim::new();
    let r = sim.run(vec![delta("半截")]);
    assert_eq!(r.outcome, Outcome::Aborted);
    assert!(sim.messages().is_empty());
}

#[test]
fn markdown_is_sent_as_html_and_falls_back_to_plain() {
    let mut sim = Sim::new();
    sim.run(vec![delta("**总结**:磁盘 `/` 充裕"), complete("end_turn")]);
    assert_eq!(sim.messages(), vec!["<b>总结</b>:磁盘 <code>/</code> 充裕"]);

    let mut sim = Sim::new();
    sim.reject_html = true;
    let r = sim.run(vec![delta("**总结**"), complete("end_turn")]);
    assert!(!r.delivery_failed);
    assert_eq!(sim.messages(), vec!["<b>总结</b>", "**总结**"]);
}

#[test]
fn a_deleted_message_is_replaced_by_a_new_one() {
    let mut sim = Sim::new();
    sim.edit_gone = true;
    sim.begin();
    sim.deliver(delta("第一段"));
    sim.pass(1500);
    sim.deliver(delta("、第二段"));
    sim.pass(1500);
    sim.deliver(complete("end_turn"));
    let r = sim.report.take().unwrap();
    assert!(!r.delivery_failed);
    assert_eq!(sim.messages().last().unwrap(), "第一段、第二段");
    assert_eq!(r.message_ids, vec![1, 2]);
}

#[test]
fn failed_delivery_is_reported() {
    let mut sim = Sim::new();
    sim.fail_messages = true;
    let r = sim.run(vec![delta("hi"), complete("end_turn")]);
    assert!(r.delivery_failed);
    assert!(r.message_ids.is_empty());
}

#[test]
fn updates_are_throttled_and_the_draft_heartbeats() {
    let mut sim = Sim::new();
    sim.begin();
    sim.pass(6000);
    assert_eq!(sim.drafts().len(), 2);

    sim.deliver(delta("a"));
    sim.pass(0);
    for t in ["b", "c", "d"] {
        sim.deliver(delta(t));
    }
    sim.pass(1500);
    assert_eq!(sim.messages().len(), 1);
    assert!("abcd".starts_with(sim.messages()[0].as_str()), "{:?}", sim.messages());
    assert_eq!(sim.edits().last().unwrap(), "abcd");

    let before = sim.calls.len();
    sim.pass(20_000);
    assert_eq!(sim.calls.len(), before);

    sim.deliver(complete("end_turn"));
    let r = sim.report.take().unwrap();
    assert_eq!(r.outcome, Outcome::Completed);
    assert_eq!(sim.messages().len(), 1);
    assert_eq!(sim.edits().last().unwrap(), "abcd");
}

#[test]
fn a_limited_message_is_sent_again_after_the_pause() {
    let mut sim = Sim::new();
    sim.begin();
    let before = sim.now;
    sim.limited = vec![2];
    sim.deliver(delta("hi"));
    sim.deliver(complete("end_turn"));
    let r = sim.report.take().unwrap();
    assert!(!r.delivery_failed);
    assert_eq!(sim.messages(), vec!["hi", "hi"]);
    assert_eq!(sim.now, before + 2000);
}

#[test]
fn a_turn_that_never_ends_has_failed() {
    let mut sim = Sim::new();
    sim.begin();
    sim.deliver(delta("半截"));
    sim.deliver(RelayInput::Deadline);
    let r = sim.report.take().unwrap();
    assert_eq!(r.outcome, Outcome::Failed);
    assert_eq!(sim.messages(), vec!["半截".to_string(), RelayTexts::default().failed]);
}

#[test]
fn the_answers_of_telegram_are_read() {
    match read_answer(&json(r#"{"ok":true,"result":{"message_id":7}}"#)) {
        Ok(id) => assert_eq!(id, Some(7)),
        Err(_) => panic!("refused"),
    }
    match read_answer(&json(r#"{"ok":true,"result":true}"#)) {
        Ok(id) => assert_eq!(id, None),
        Err(_) => panic!("refused"),
    }
    assert!(matches!(
        read_answer(&json(r#"{"ok":false,"parameters":{"retry_after":5},"description":"x"}"#)),
        Err(TgError::RetryAfter(5))
    ));
    match read_answer(&json(r#"{"ok":false,"description":"Forbidden"}"#)) {
        Err(TgError::Other(why)) => assert_eq!(why, "Forbidden"),
        _ => panic!("delivered"),
    }
    assert_eq!(method_url("1:T", "sendMessage"), "https://api.telegram.org/bot1:T/sendMessage");
}

#[test]
fn stop_reasons_are_told_apart() {
    assert_eq!(read_outcome("end_turn"), Outcome::Completed);
    assert_eq!(read_outcome("cancelled"), Outcome::Cancelled);
    assert_eq!(read_outcome("refusal"), Outcome::Failed);
}

#[test]
fn a_status_is_one_short_line() {
    assert_eq!(tool_status(Some("查看"), "df -h").as_deref(), Some("🔧 查看"));
    assert_eq!(tool_status(None, "df -h").as_deref(), Some("🔧 df -h"));
    assert_eq!(tool_status(None, "  "), None);
}

#[test]
fn a_claim_outlives_its_turn_and_is_taken_once() {
    let mut relay = Relay::new();
    assert!(!relay.is_relayed("c1"));
    relay.register("c1", "t1", 1000);
    assert!(relay.is_relayed("c1"));
    relay.finished("c1", "t1");
    assert!(!relay.is_relayed("c1"));
    assert_eq!(relay_turn_id_for(&mut relay, "c1", false, 2000).as_deref(), Some("t1"));
    assert_eq!(relay_turn_id_for(&mut relay, "c1", true, 2000).as_deref(), Some("t1"));
    assert_eq!(relay_turn_id_for(&mut relay, "c1", true, 2000), None);
}

#[test]
fn an_old_claim_is_worth_nothing() {
    let mut relay = Relay::new();
    relay.register("c1", "t1", 0);
    relay.finished("c1", "t1");
    assert_eq!(relay_turn_id_for(&mut relay, "c1", false, CLAIM_TTL_MS + 1), None);
}

#[test]
fn an_aborted_turn_has_no_claim() {
    let mut relay = Relay::new();
    relay.register("c1", "t1", 0);
    abort(&mut relay, "c1", "t1");
    assert!(!relay.is_relayed("c1"));
    assert_eq!(relay_turn_id_for(&mut relay, "c1", false, 1), None);
}

#[test]
fn handing_back_ends_every_worker() {
    let mut relay = Relay::new();
    relay.register("c1", "t1", 0);
    relay.register("c2", "t2", 0);
    let mut ids = relay.hand_back();
    ids.sort();
    assert_eq!(ids, vec!["c1", "c2"]);
    assert!(!relay.is_relayed("c1") && !relay.is_relayed("c2"));
}

#[test]
fn a_running_turn_is_not_taken_over() {
    assert!(may_register(Some(false)));
    assert!(!may_register(Some(true)));
}

#[test]
fn the_draft_number_of_the_platform_is_used() {
    let spec = |draft: Option<i64>| OutboundSpec::Telegram {
        turn_id: "t1".into(),
        bot_token: "123:SECRET".into(),
        chat_id: 42,
        draft_id: draft,
        texts: RelayTexts::default(),
    };
    let (mut turn, token) = turn_for(spec(Some(7)));
    assert_eq!(token, "123:SECRET");
    match turn.start(0) {
        RelayAction::Call { method, body } => {
            assert_eq!(method, "sendMessageDraft");
            assert_eq!(body.at("chat_id").as_i64(), Some(42));
            assert_eq!(body.at("draft_id").as_i64(), Some(7));
        }
        _ => panic!("no draft"),
    }
    let (mut turn, _) = turn_for(spec(None));
    match turn.start(0) {
        RelayAction::Call { body, .. } => {
            assert_eq!(body.at("draft_id").as_i64(), Some(derive_draft_base("t1")))
        }
        _ => panic!("no draft"),
    }
}

#[test]
fn a_failed_delivery_names_what_was_delivered() {
    let v = failure_payload("e", "c1", Some(3), "t1", &vec![5, 6], "now");
    assert_eq!(v.str_at("relay_turn_id"), Some("t1"));
    assert_eq!(v.str_at("connection_id"), Some("c1"));
    assert_eq!(v.str_at("occurred_at"), Some("now"));
    assert!(v.write().contains("[5,6]"));
    let a = report_failure("c1", None, "t1", &vec![]);
    let b = report_failure("c1", None, "t1", &vec![]);
    assert_ne!(a.write(), b.write());
}

#[test]
fn messages_count_on_over_several_pieces() {
    let mut c = Composer::new();
    let mut messages: Vec<String> = Vec::new();
    let piece = "x".repeat(TG_CHUNK / 2 + 1);
    for _ in 0..5 {
        messages.extend(c.push(&piece));
        assert_eq!(c.index() as usize, messages.len());
        assert!(c.text().chars().count() <= TG_CHUNK);
    }
    assert_eq!(messages.len(), 2);
    assert_eq!(messages.concat() + c.text(), piece.repeat(5));
}
