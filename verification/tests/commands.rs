use codeg::chat::webhook::{enabled_webhook_urls, redact_url, WebhookConfig};
use codeg::commands::instance_stats::{parse_df, parse_mem_max, parse_usage_usec, used_between};
use codeg::commands::myclaw_route::{
    clip_body, container_ipv4, judge_status, parse_port, registration, route_endpoint, Address,
    NextAttempt, Registration, Verdict,
};
use codeg::commands::myclaw_skills::skills_endpoint;
use codeg::commands::myclaw_upload::{
    after_put, check_file, file_name_of, guess_mime, sign_refused, sign_request, signed_target,
    upload_endpoint, ApiEnvelope, DbArtifactUpload, PutReply, PutStep, SignedTarget,
};

fn hook(url: &str, enabled: bool) -> WebhookConfig {
    WebhookConfig { url: url.to_string(), enabled }
}

#[test]
fn usage_usec_is_matched_by_key_not_position() {
    let stat = "nr_periods 0\nusage_usec 57544191\nuser_usec 51783294";
    assert_eq!(parse_usage_usec(stat), Some(57544191));
    assert_eq!(parse_usage_usec("user_usec 1\nsystem_usec 2"), None);
}

#[test]
fn memory_max_of_max_means_unlimited() {
    assert_eq!(parse_mem_max("17179869184"), Some(17179869184));
    assert_eq!(parse_mem_max("max"), None);
    assert_eq!(parse_mem_max("nonsense"), None);
}

#[test]
fn df_columns_are_used_then_total() {
    let text = "Filesystem      1B-blocks       Used   Available Use% Mounted on\n\
                overlay      171798691840 1399529472 170399162368   1% /";
    assert_eq!(parse_df(text), (Some(1399529472), Some(171798691840)));
}

#[test]
fn df_garbage_yields_none() {
    assert_eq!(parse_df(""), (None, None));
    assert_eq!(parse_df("only a header"), (None, None));
    assert_eq!(parse_df("hdr\noverlay 123"), (None, None));
}

#[test]
fn a_counter_that_went_back_counts_nothing() {
    assert_eq!(used_between(5, 12), 7);
    assert_eq!(used_between(12, 5), 0);
}

#[test]
fn derives_the_route_endpoint_from_the_events_webhook() {
    let hooks = vec![hook("https://myclaw.ai/api/codeg/events?vmId=abc-123&s=sekret", true)];
    assert_eq!(
        route_endpoint(&hooks).as_deref(),
        Some("https://myclaw.ai/api/codeg/route?vmId=abc-123&s=sekret")
    );
}

#[test]
fn myclaw_route_ignores_disabled_hooks() {
    let hooks = vec![hook("https://myclaw.ai/api/codeg/events?vmId=a&s=b", false)];
    assert_eq!(route_endpoint(&hooks), None);
}

#[test]
fn picks_the_enabled_one_when_both_are_present() {
    let hooks = vec![
        hook("https://stale.example/api/codeg/events?vmId=a&s=b", false),
        hook("https://myclaw.ai/api/codeg/events?vmId=a&s=b", true),
    ];
    assert_eq!(
        route_endpoint(&hooks).as_deref(),
        Some("https://myclaw.ai/api/codeg/route?vmId=a&s=b")
    );
}

#[test]
fn no_platform_webhook_means_no_endpoint() {
    let hooks = vec![hook("https://example.com/hooks/other", true)];
    assert_eq!(route_endpoint(&hooks), None);
}

#[test]
fn redaction_keeps_the_secret_out_of_logs() {
    let endpoint = "https://myclaw.ai/api/codeg/route?vmId=abc-123&s=sup3rsekret";
    let logged = redact_url(endpoint);
    assert_eq!(logged, "https://myclaw.ai");
    assert!(!logged.contains("sup3rsekret"), "{logged}");
    assert!(!logged.contains("abc-123"), "{logged}");
}

#[test]
fn redaction_keeps_the_origin_alone() {
    assert_eq!(redact_url("https://h:8443?s=x"), "https://h:8443");
    assert_eq!(redact_url("https://h#f"), "https://h");
    assert_eq!(redact_url("h/path"), "h");
    assert_eq!(redact_url("https://h"), "https://h");
}

#[test]
fn myclaw_route_replaces_only_the_first_occurrence() {
    let hooks = vec![hook(
        "https://myclaw.ai/api/codeg/events?vmId=a&s=b&next=/api/codeg/events",
        true,
    )];
    assert_eq!(
        route_endpoint(&hooks).as_deref(),
        Some("https://myclaw.ai/api/codeg/route?vmId=a&s=b&next=/api/codeg/events")
    );
}

#[test]
fn derives_skills_endpoint_keeping_query() {
    let hooks = vec![hook("https://myclaw.ai/api/codeg/events?vmId=abc-123&s=sekret", true)];
    assert_eq!(
        skills_endpoint(&hooks).as_deref(),
        Some("https://myclaw.ai/api/codeg/skills?vmId=abc-123&s=sekret")
    );
}

#[test]
fn myclaw_skills_ignores_disabled_hooks() {
    let hooks = vec![hook("https://myclaw.ai/api/codeg/events?vmId=a&s=b", false)];
    assert!(skills_endpoint(&hooks).is_none());
}

#[test]
fn picks_by_path_not_by_position() {
    let hooks = vec![
        hook("https://hooks.example.com/whatever", true),
        hook("https://myclaw.ai/api/codeg/events?vmId=a&s=b", true),
    ];
    assert_eq!(
        skills_endpoint(&hooks).as_deref(),
        Some("https://myclaw.ai/api/codeg/skills?vmId=a&s=b")
    );
}

#[test]
fn no_matching_hook_means_not_participating() {
    let hooks = vec![hook("https://hooks.example.com/whatever", true)];
    assert!(skills_endpoint(&hooks).is_none());
    assert!(skills_endpoint(&vec![]).is_none());
}

#[test]
fn myclaw_skills_replaces_only_the_first_occurrence() {
    let hooks = vec![hook("https://myclaw.ai/api/codeg/events?redirect=/api/codeg/events", true)];
    assert_eq!(
        skills_endpoint(&hooks).as_deref(),
        Some("https://myclaw.ai/api/codeg/skills?redirect=/api/codeg/events")
    );
}

#[test]
fn endpoint_swaps_the_path_and_keeps_the_query() {
    let hooks = vec![hook("https://myclaw.ai/api/codeg/events?vmId=a&s=b", true)];
    assert_eq!(
        upload_endpoint(&hooks).as_deref(),
        Some("https://myclaw.ai/api/codeg/upload-url?vmId=a&s=b")
    );
}

#[test]
fn disabled_or_missing_webhook_yields_no_endpoint() {
    assert_eq!(
        upload_endpoint(&vec![hook("https://myclaw.ai/api/codeg/events?vmId=a&s=b", false)]),
        None
    );
    assert_eq!(upload_endpoint(&vec![hook("https://example.com/other", true)]), None);
}

#[test]
fn mime_is_guessed_from_the_extension_and_falls_back() {
    assert_eq!(
        guess_mime("/tmp/deck.PPTX"),
        "application/vnd.openxmlformats-officedocument.presentationml.presentation"
    );
    assert_eq!(guess_mime("/tmp/a.png"), "image/png");
    assert_eq!(guess_mime("/tmp/weird.xyz"), "application/octet-stream");
    assert_eq!(guess_mime("/tmp/noext"), "application/octet-stream");
}

#[test]
fn mime_of_odd_names() {
    assert_eq!(guess_mime("/tmp/.png"), "application/octet-stream");
    assert_eq!(guess_mime("/tmp/a.b.JPEG"), "image/jpeg");
    assert_eq!(guess_mime("a."), "application/octet-stream");
    assert_eq!(guess_mime("x.docx"), "application/vnd.openxmlformats-officedocument.wordprocessingml.document");
    assert_eq!(guess_mime("x.xlsx"), "application/vnd.openxmlformats-officedocument.spreadsheetml.sheet");
    for (name, mime) in [
        ("a.pdf", "application/pdf"),
        ("a.jpg", "image/jpeg"),
        ("a.gif", "image/gif"),
        ("a.svg", "image/svg+xml"),
        ("a.webp", "image/webp"),
        ("a.mp4", "video/mp4"),
        ("a.zip", "application/zip"),
        ("a.json", "application/json"),
        ("a.csv", "text/csv"),
        ("a.md", "text/markdown"),
        ("a.txt", "text/plain"),
        ("a.log", "text/plain"),
        ("a.html", "text/html"),
        ("a.htm", "text/html"),
    ] {
        assert_eq!(guess_mime(name), mime, "{name}");
    }
}

#[test]
fn file_name_drops_the_directories() {
    assert_eq!(file_name_of("/a/b/deck.pptx"), "deck.pptx");
    assert_eq!(file_name_of("deck.pptx"), "deck.pptx");
}

#[test]
fn a_path_without_a_name_is_a_file() {
    assert_eq!(file_name_of("/"), "file");
    assert_eq!(file_name_of("/a/.."), "file");
}

#[test]
fn only_whole_files_within_the_limit_are_uploaded() {
    assert_eq!(check_file("/d", false, 10), Err("not a file: /d".to_string()));
    assert_eq!(check_file("/e", true, 0), Err("file is empty: /e".to_string()));
    assert_eq!(check_file("/f", true, 209_715_200), Ok(()));
    assert_eq!(
        check_file("/f", true, 209_715_201),
        Err("file is 209715201 bytes; the limit is 209715200 bytes (200MB)".to_string())
    );
}

#[test]
fn an_upload_is_planned_from_the_webhook() {
    let up = DbArtifactUpload::new(vec![hook("https://m/api/codeg/events?s=b", true)]);
    let plan = up.plan("/x/a.PDF", true, 5).unwrap();
    assert_eq!(plan.endpoint, "https://m/api/codeg/upload-url?s=b");
    assert_eq!(plan.file_name, "a.PDF");
    assert_eq!(plan.mime, "application/pdf");
    assert_eq!(plan.size, 5);
    assert_eq!(
        DbArtifactUpload::new(vec![]).plan("/x/a.pdf", true, 5),
        Err("this instance is not platform-managed (no webhook configured)".to_string())
    );
    assert!(up.plan("/x", false, 5).is_err());
}

#[test]
fn signing_asks_and_reads() {
    assert_eq!(
        sign_request("a.pdf", "application/pdf", 7).write(),
        r#"{"filename":"a.pdf","mimeType":"application/pdf","size":7}"#
    );
    assert_eq!(
        sign_refused("413 Payload Too Large", &"x".repeat(300)),
        format!("the platform refused the upload (HTTP 413 Payload Too Large): {}", "x".repeat(200))
    );
    let target = || SignedTarget { upload_url: "u".into(), public_url: "p".into() };
    assert_eq!(
        signed_target(ApiEnvelope { code: 0, data: Some(target()), msg: None }),
        Ok(target())
    );
    assert_eq!(
        signed_target(ApiEnvelope { code: 0, data: None, msg: None }),
        Err("the platform returned no upload target".to_string())
    );
    assert_eq!(
        signed_target(ApiEnvelope { code: 4, data: Some(target()), msg: Some("no".into()) }),
        Err("no".to_string())
    );
    assert_eq!(
        signed_target(ApiEnvelope { code: 4, data: None, msg: None }),
        Err("the platform rejected the upload".to_string())
    );
}

#[test]
fn an_upload_is_tried_three_times() {
    let reply = |status: u16, line: &str| PutReply::Answered {
        status,
        line: line.to_string(),
        body: "why".to_string(),
    };
    assert_eq!(after_put(1, reply(204, "204 No Content")), PutStep::Over(Ok(())));
    assert_eq!(
        after_put(1, reply(403, "403 Forbidden")),
        PutStep::Over(Err("object storage refused the upload (HTTP 403 Forbidden): why".into()))
    );
    assert_eq!(after_put(1, reply(503, "503 x")), PutStep::Pause(2));
    assert_eq!(after_put(2, PutReply::Failed("timeout".into())), PutStep::Pause(2));
    assert_eq!(
        after_put(3, reply(503, "503 x")),
        PutStep::Over(Err("upload failed after 3 attempts: HTTP 503 x".into()))
    );
    assert_eq!(
        after_put(3, PutReply::Failed("timeout".into())),
        PutStep::Over(Err("upload failed after 3 attempts: timeout".into()))
    );
}

#[test]
fn the_first_reachable_address_is_registered() {
    let all = vec![
        Address::V4(127, 0, 0, 1),
        Address::V6,
        Address::V4(169, 254, 3, 4),
        Address::V4(0, 0, 0, 0),
        Address::V4(172, 17, 0, 19),
        Address::V4(10, 0, 0, 1),
    ];
    assert_eq!(container_ipv4(&all).as_deref(), Some("172.17.0.19"));
    assert_eq!(container_ipv4(&vec![Address::V6]), None);
    assert_eq!(registration("172.17.0.19", 3080).write(), r#"{"ip":"172.17.0.19","port":3080}"#);
}

#[test]
fn the_port_is_read_or_the_usual_one() {
    assert_eq!(parse_port(Some(" 8080\n")), 8080);
    assert_eq!(parse_port(Some("70000")), 3080);
    assert_eq!(parse_port(Some("x")), 3080);
    assert_eq!(parse_port(None), 3080);
}

#[test]
fn registration_backs_off_and_never_gives_up() {
    assert_eq!(judge_status(200), Verdict::Registered);
    assert_eq!(judge_status(401), Verdict::Refused);
    assert_eq!(judge_status(502), Verdict::Retry);
    assert_eq!(judge_status(302), Verdict::Retry);
    let mut r = Registration::new();
    let pauses: Vec<NextAttempt> = (0..9).map(|_| r.after(Verdict::Retry)).collect();
    let expected: Vec<NextAttempt> = [2, 4, 8, 16, 32, 64, 300, 300, 300]
        .iter()
        .map(|s| NextAttempt::Pause(*s))
        .collect();
    assert_eq!(pauses, expected);
    assert_eq!(r.after(Verdict::Refused), NextAttempt::Over(false));
    assert_eq!(r.after(Verdict::Registered), NextAttempt::Over(true));
}

#[test]
fn long_answers_are_clipped_by_characters() {
    assert_eq!(clip_body(&"字".repeat(201)), "字".repeat(200));
    assert_eq!(clip_body("short"), "short");
}

#[test]
fn enabled_hooks_are_listed_in_order() {
    let hooks = vec![hook("a", true), hook("b", false), hook("c", true)];
    assert_eq!(enabled_webhook_urls(&hooks), vec!["a".to_string(), "c".to_string()]);
}
