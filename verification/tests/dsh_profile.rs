use codeg::cli::dsh_profile::{
    background_wait_secs, env_get, launch_profile, must_write, patch_error, plugin_place, render_patch,
    runner_is_stock, tool_search_mode, DshLaunchProfile, BACKGROUND_WAIT_ENV, RUNNER_ENV,
    TOOL_SEARCH_ENV,
};
use codeg::cli::prompt::CompanionLaunchSpec;

fn profile(companion: bool, mode: &str) -> DshLaunchProfile {
    DshLaunchProfile {
        dsh_home: "/h".into(),
        plugin_path: "/h/plugins/codeg-tool-search.mjs".into(),
        companion: companion.then(|| CompanionLaunchSpec {
            command: "/opt/codeg/codeg-mcp".into(),
            args: vec!["--token".into(), "t".into()],
            token: "t".into(),
            feedback_available: true,
            delegation_enabled: false,
        }),
        tool_search_mode: mode.to_string(),
        runner_path: None,
        background_wait_secs: 1200,
    }
}

fn env(pairs: &[(&str, &str)]) -> Vec<(String, String)> {
    pairs.iter().map(|(k, v)| (k.to_string(), v.to_string())).collect()
}

#[test]
fn patch_lists_model_companion_and_plugin() {
    let yaml = render_patch(&profile(true, "auto"), Some("myclaw"), Some("kimi-k3"));
    let parsed: Vec<serde_yaml::Value> =
        serde_yaml::from_str(yaml.split_once('\n').unwrap().1).unwrap();
    assert_eq!(parsed.len(), 2);
    assert_eq!(parsed[0]["id"], "agent-default-model");
    assert_eq!(parsed[0]["config"]["model"], "kimi-k3");
    let inserts = parsed[1]["insert"].as_sequence().unwrap();
    assert_eq!(inserts[0]["id"], "myclaw");
    assert_eq!(inserts[0]["config"]["serverName"], "myclaw");
    assert_eq!(inserts[0]["config"]["transport"], "stdio");
    assert_eq!(inserts[0]["config"]["args"][1], "t");
    assert_eq!(inserts[1]["name"], "/h/plugins/codeg-tool-search.mjs");
    assert_eq!(inserts[1]["config"]["mode"], "auto");
    assert_eq!(inserts[1]["config"]["exemptServers"][0], inserts[0]["config"]["serverName"]);
}

#[test]
fn off_mode_omits_the_plugin_and_no_model_omits_the_model_entry() {
    let yaml = render_patch(&profile(false, "off"), None, Some("m"));
    assert!(!yaml.contains("codeg-tool-search"));
    assert!(!yaml.contains("agent-default-model"));
    assert!(!yaml.contains("codeg-mcp"));
}

#[test]
fn the_runner_swap_disables_the_stock_row_and_wires_headless_startup() {
    let mut p = profile(true, "auto");
    p.runner_path = Some("/h/plugins/codeg-headless-runner.mjs".into());
    p.background_wait_secs = 900;
    let yaml = render_patch(&p, Some("myclaw"), Some("kimi-k3"));
    let body = yaml.split_once('\n').unwrap().1;
    let parsed: Vec<serde_yaml::Value> = serde_yaml::from_str(&body.replace("!!js ", "")).unwrap();
    let disabled =
        parsed.iter().find(|e| e["id"] == "headless-runner").expect("stock runner row");
    assert_eq!(disabled["disabled"], true);
    let runner = parsed
        .iter()
        .filter_map(|e| e["insert"].as_sequence())
        .flatten()
        .find(|e| e["id"] == "codeg-headless-runner")
        .expect("codeg runner row");
    assert_eq!(runner["name"], "/h/plugins/codeg-headless-runner.mjs");
    assert_eq!(runner["inject"][0], "headlessStartup");
    assert_eq!(runner["config"]["task"], "ctx.headlessStartup.task");
    assert_eq!(runner["config"]["sessionId"], "ctx.headlessStartup.sessionId");
    assert_eq!(runner["config"]["json"], "ctx.headlessStartup.json");
    assert_eq!(runner["config"]["backgroundWaitSecs"], 900);
    assert!(body.contains("task: !!js ctx.headlessStartup.task"));
}

#[test]
fn stock_runner_and_wait_budget_read_the_env() {
    let empty = env(&[]);
    assert!(!runner_is_stock(&empty));
    assert_eq!(background_wait_secs(&empty), 1200);
    let set = env(&[(RUNNER_ENV, " Stock "), (BACKGROUND_WAIT_ENV, "60")]);
    assert!(runner_is_stock(&set));
    assert_eq!(background_wait_secs(&set), 60);
    let yaml = render_patch(&profile(false, "off"), None, None);
    assert!(!yaml.contains("headless-runner"), "no runner path, no swap");
}

#[test]
fn tool_search_mode_reads_the_env() {
    assert_eq!(tool_search_mode(&env(&[])), "auto");
    assert_eq!(tool_search_mode(&env(&[(TOOL_SEARCH_ENV, "OFF")])), "off");
    assert_eq!(tool_search_mode(&env(&[(TOOL_SEARCH_ENV, "on")])), "on");
}

#[test]
fn a_wait_budget_that_is_no_number_is_the_default() {
    assert_eq!(background_wait_secs(&env(&[(BACKGROUND_WAIT_ENV, "soon")])), 1200);
    assert_eq!(background_wait_secs(&env(&[(BACKGROUND_WAIT_ENV, "-1")])), 1200);
    assert_eq!(background_wait_secs(&env(&[(BACKGROUND_WAIT_ENV, "18446744073709551616")])), 1200);
}

#[test]
fn plugins_are_written_only_where_they_differ() {
    let (dir, path) = plugin_place("/h", "codeg-tool-search.mjs");
    assert_eq!(dir, "/h/plugins");
    assert_eq!(path, "/h/plugins/codeg-tool-search.mjs");
    assert!(must_write(None, "source"));
    assert!(must_write(Some("older"), "source"));
    assert!(!must_write(Some("source"), "source"));
}

#[test]
fn a_patch_belongs_to_its_connection() {
    assert!(profile(false, "off").patch_path("c1").starts_with("/h/"));
    assert!(profile(false, "off").patch_path("c1").contains("c1"));
    assert_ne!(profile(false, "off").patch_path("c1"), profile(false, "off").patch_path("c2"));
    assert!(patch_error("/h/p.yml", "disk full").contains("disk full"));
}

#[test]
fn variables_are_found_by_name() {
    let vars = env(&[("A", "1"), ("B", "2")]);
    assert_eq!(env_get(&vars, "B"), Some("2"));
    assert_eq!(env_get(&vars, "C"), None);
}

#[test]
fn the_launch_uses_the_replacement_unless_the_stock_runner_is_asked_for() {
    let runner = Some("/h/plugins/codeg-headless-runner.mjs".to_string());
    let p = launch_profile(
        "/h".into(),
        "/h/plugins/codeg-tool-search.mjs".into(),
        runner.clone(),
        None,
        &env(&[(BACKGROUND_WAIT_ENV, "30"), (TOOL_SEARCH_ENV, "on")]),
    );
    assert_eq!(p.runner_path, runner);
    assert_eq!(p.background_wait_secs, 30);
    assert_eq!(p.tool_search_mode, "on");
    assert_eq!(p.dsh_home, "/h");
    assert_eq!(p.plugin_path, "/h/plugins/codeg-tool-search.mjs");
    let p = launch_profile("/h".into(), "/p".into(), runner, None, &env(&[(RUNNER_ENV, " Stock ")]));
    assert_eq!(p.runner_path, None);
    assert_eq!(p.background_wait_secs, 1200);
}

#[test]
fn connections_have_patches_of_their_own() {
    let p = profile(false, "off");
    assert_eq!(p.patch_path("a"), "/h/codeg-a.patch.yml");
    assert_ne!(p.patch_path("a"), p.patch_path("b"));
}
