use dsh_desktop::config::{
    auto_check_enabled, current_workspace, home_dir, home_variable, load, AppSettings,
};
use dsh_desktop::json::{parse_json, Json};
use dsh_desktop::update::{
    apply_args, apply_event, auto_check_step, begin_apply, begin_check, can_push_tail, channels_of,
    check_args, compute_prompt, describe_overlay, finish_check, latest_summary, needs_env_proxy,
    overlay_summary, parse_apply_line, parse_channel, parse_last_json, pick_last, push_tail,
    run_check, run_check_bytes, set_failed, spawn_error, start_error, str_field, update_open_download, update_skip,
    ApplyEvent, ApplyRun, AutoCheck, ChannelInfo, CheckStart, SkipOutcome, UpdatePhase,
    UpdateStatus,
};

fn text(s: &str) -> Json {
    Json::Str(s.to_string())
}

fn object(fields: Vec<(&str, Json)>) -> Json {
    Json::Object(fields.into_iter().map(|(k, v)| (k.to_string(), v)).collect())
}

fn channel(latest: &str, available: bool) -> ChannelInfo {
    ChannelInfo {
        current: "0.1.0".into(),
        latest: Some(latest.into()),
        update_available: available,
        prompt: false,
        url: Some("https://example.com/download".into()),
        engines_node: None,
        node_sufficient: None,
        reason: None,
    }
}

#[test]
fn parse_last_json_finds_last_object_line() {
    let text = "log line\n{\"a\":1}\n{\"a\":2,\"b\":\"x\"}\n";
    let value = parse_last_json(text).ok().unwrap();
    assert_eq!(value.get_number("a"), Some(2));
    assert!(parse_last_json("no json here").is_err());
}

#[test]
fn last_json_skips_what_is_no_object() {
    let value = parse_last_json("{\"a\":1}\r\n  {broken\n[2]\n").ok().unwrap();
    assert_eq!(value.get_number("a"), Some(1));
    assert_eq!(parse_last_json("").err().unwrap(), "更新器未输出有效 JSON 结果");
    let last = pick_last(vec![Some(Json::Bool(true)), Some(Json::Null), None]);
    assert!(matches!(last, Some(Json::Null)));
    assert!(pick_last(vec![None, None]).is_none());
}

#[test]
fn parse_channel_maps_fields() {
    let value = object(vec![
        ("current", text("0.1.1-rc.2")),
        ("latest", text("0.1.2")),
        ("updateAvailable", Json::Bool(true)),
        ("enginesNode", text(">=22")),
        ("nodeSufficient", Json::Bool(true)),
    ]);
    let info = parse_channel(&value, "fallback");
    assert_eq!(info.current, "0.1.1-rc.2");
    assert_eq!(info.latest.as_deref(), Some("0.1.2"));
    assert!(info.update_available);
    assert!(!info.prompt);
    assert_eq!(info.engines_node.as_deref(), Some(">=22"));
    assert_eq!(info.node_sufficient, Some(true));
}

#[test]
fn channel_fields_may_be_missing() {
    let info = parse_channel(&object(vec![("latest", Json::Null)]), "fallback");
    assert_eq!(info.current, "fallback");
    assert_eq!(info.latest, None);
    assert!(!info.update_available);
    assert_eq!(info.url, None);
    assert_eq!(info.node_sufficient, None);
    assert_eq!(info.reason, None);
    assert_eq!(str_field(&object(vec![("a", text("x"))]), "a"), Some("x".to_string()));
    assert_eq!(str_field(&Json::Array(vec![]), "a"), None);
}

#[test]
fn compute_prompt_respects_skipped_versions() {
    let mut info = Some(ChannelInfo {
        current: "0.1.0".into(),
        latest: Some("0.2.0".into()),
        update_available: true,
        prompt: false,
        url: None,
        engines_node: None,
        node_sufficient: None,
        reason: None,
    });
    compute_prompt(&mut info, None);
    assert!(info.as_ref().unwrap().prompt);
    compute_prompt(&mut info, Some("0.2.0"));
    assert!(!info.as_ref().unwrap().prompt);
    compute_prompt(&mut info, Some("0.1.9"));
    assert!(info.as_ref().unwrap().prompt);
}

#[test]
fn prompt_needs_an_update() {
    let mut info = Some(channel("0.2.0", false));
    compute_prompt(&mut info, None);
    assert!(!info.unwrap().prompt);
    let mut nothing = None;
    compute_prompt(&mut nothing, None);
    assert!(nothing.is_none());
    let mut unknown = Some(ChannelInfo { latest: None, ..channel("x", true) });
    compute_prompt(&mut unknown, None);
    assert!(!unknown.unwrap().prompt);
}

#[test]
fn json_is_parsed_whole() {
    let value = parse_json("{\"n\":18446744073709551615,\"f\":1.5,\"d\":1,\"d\":2,\"o\":{\"k\":[null]}}");
    let value = value.unwrap();
    assert_eq!(value.get_number("n"), Some(u64::MAX));
    assert_eq!(value.get_number("f"), None);
    assert_eq!(value.get_number("d"), Some(2));
    assert!(matches!(value.get("o").unwrap().get("k"), Some(Json::Array(_))));
    assert_eq!(value.get_bool("n"), None);
    assert_eq!(parse_json("true").unwrap().get_text("a"), None);
    assert!(parse_json("{'a':1}").is_none());
    assert!(parse_json("\"\\u4e2d\\n\"").is_some());
}

#[test]
fn check_reports_both_channels() {
    let stdout = "noise\n{\"kernel\":{\"latest\":\"2.0.0\",\"updateAvailable\":true},\"app\":{}}\n";
    let (kernel, app) = run_check(stdout, "", Some(0), "1.0.0", "0.5.0").unwrap();
    let kernel = kernel.unwrap();
    assert_eq!(kernel.current, "1.0.0");
    assert_eq!(kernel.latest.as_deref(), Some("2.0.0"));
    assert_eq!(app.unwrap().current, "0.5.0");
    let value = object(vec![("app", object(vec![("url", text("u"))]))]);
    let (kernel, app) = channels_of(&value, "a", "b");
    assert!(kernel.is_none());
    assert_eq!(app.unwrap().url.as_deref(), Some("u"));
}

#[test]
fn failed_check_quotes_the_error_output() {
    let stderr = format!("{}{}", "x".repeat(10), "错".repeat(300));
    let error = run_check("", &stderr, Some(1), "a", "b").err().unwrap();
    assert_eq!(
        error,
        format!(
            "更新器未输出有效 JSON 结果（exit=Some(1)，stderr 尾部：{}）",
            "错".repeat(300)
        )
    );
    let error = run_check("", "e", None, "a", "b").err().unwrap();
    assert_eq!(error, "更新器未输出有效 JSON 结果（exit=None，stderr 尾部：e）");
    let error = run_check("", "", Some(-7), "a", "b").err().unwrap();
    assert_eq!(error, "更新器未输出有效 JSON 结果（exit=Some(-7)，stderr 尾部：）");
}

#[test]
fn updater_arguments_are_complete() {
    assert_eq!(
        check_args("u.mjs".to_string(), "1.0.0", "0.5.0"),
        vec!["u.mjs", "check", "--kernel-current", "1.0.0", "--app-current", "0.5.0"]
    );
    assert_eq!(
        apply_args("u".into(), "2.0.0", "d".into(), "n".into(), "c".into()),
        vec!["u", "apply", "--version", "2.0.0", "--dest", "d", "--npm", "n", "--cache", "c"]
    );
    assert_eq!(start_error("node", "gone"), "无法启动更新器（node）：gone");
    assert_eq!(spawn_error("gone"), "无法启动更新器子进程：gone");
    assert!(needs_env_proxy(true, false) && needs_env_proxy(false, true));
    assert!(!needs_env_proxy(false, false));
}

#[test]
fn updater_runs_once_at_a_time() {
    let mut status = UpdateStatus::default();
    assert_eq!(begin_check(&mut status, true), CheckStart::Run);
    assert_eq!(status.phase, UpdatePhase::Checking);
    assert_eq!(begin_check(&mut status, true), CheckStart::ShowPanel);
    assert_eq!(begin_check(&mut status, false), CheckStart::Nothing);
    assert!(status.manual);
    status.kernel = Some(channel("2.0.0", true));
    assert_eq!(begin_apply(&mut status), None);
    status.phase = UpdatePhase::Idle;
    assert_eq!(begin_apply(&mut status), Some("2.0.0".to_string()));
    assert_eq!(
        status.phase,
        UpdatePhase::Applying {
            phase: "prepare".to_string(),
            pct: 0,
            message: "准备更新…".to_string()
        }
    );
    assert_eq!(begin_apply(&mut status), None);
    assert_eq!(begin_check(&mut status, false), CheckStart::Nothing);
    let mut unknown = UpdateStatus::default();
    assert_eq!(begin_apply(&mut unknown), None);
    assert_eq!(unknown.phase, UpdatePhase::Idle);
}

#[test]
fn panel_opens_when_there_is_something_to_ask() {
    let mut status = UpdateStatus::default();
    let mut settings = AppSettings::default();
    begin_check(&mut status, false);
    let outcome = Ok((Some(channel("2.0.0", true)), None));
    assert!(finish_check(&mut status, &settings, outcome));
    assert_eq!(status.phase, UpdatePhase::Idle);
    settings.skipped_kernel_version = Some("2.0.0".to_string());
    let outcome = Ok((Some(channel("2.0.0", true)), Some(channel("1.0.0", false))));
    assert!(!finish_check(&mut status, &settings, outcome));
    begin_check(&mut status, true);
    assert!(finish_check(&mut status, &settings, Ok((None, None))));
    assert!(finish_check(&mut status, &settings, Err("no net".to_string())));
    assert_eq!(status.phase, UpdatePhase::Failed { error: "no net".to_string() });
    begin_check(&mut status, false);
    assert!(!finish_check(&mut status, &settings, Err("no net".to_string())));
}

#[test]
fn automatic_check_waits_for_the_kernel() {
    assert_eq!(auto_check_step(true, 0), AutoCheck::Check);
    assert_eq!(auto_check_step(false, 149_999_999_999), AutoCheck::Wait { millis: 500 });
    assert_eq!(auto_check_step(false, 150_000_000_000), AutoCheck::Skip);
    assert_eq!(auto_check_step(true, 150_000_000_000), AutoCheck::Check);
}

#[test]
fn updater_lines_are_understood() {
    let mut status = UpdateStatus::default();
    let mut run = ApplyRun::new();
    run.take_line(
        &mut status,
        " {\"event\":\"progress\",\"phase\":\"npm\",\"pct\":40,\"message\":\"安装\"} ",
    );
    assert_eq!(
        status.phase,
        UpdatePhase::Applying { phase: "npm".to_string(), pct: 40, message: "安装".to_string() }
    );
    run.take_line(&mut status, "plain text");
    run.take_line(&mut status, "{\"event\":\"done\",\"dshVersion\":\"2.0.1\"}");
    assert_eq!(run.done.as_deref(), Some("2.0.1"));
    run.finish(&mut status, true, Some(0), "2.0.0", "");
    assert_eq!(status.phase, UpdatePhase::PendingRestart { dsh_version: "2.0.1".to_string() });
}

#[test]
fn updater_events_have_defaults() {
    assert!(matches!(parse_apply_line("{\"event\":\"error\"}"), Some(ApplyEvent::Error(m)) if m == "更新失败"));
    assert!(matches!(parse_apply_line("{\"event\":\"done\"}"), Some(ApplyEvent::Done(v)) if v.is_empty()));
    assert!(parse_apply_line("{\"event\":\"other\"}").is_none());
    assert!(parse_apply_line("{\"event\":1}").is_none());
    let progress = object(vec![
        ("event", text("progress")),
        ("pct", Json::Number(Some(4_294_967_298))),
    ]);
    match apply_event(&progress) {
        Some(ApplyEvent::Progress { phase, pct, message }) => {
            assert_eq!(pct, 2);
            assert!(phase.is_empty() && message.is_empty());
        }
        _ => panic!("progress should be understood"),
    }
}

#[test]
fn failed_update_is_explained() {
    let mut status = UpdateStatus::default();
    let mut run = ApplyRun::new();
    run.take_line(&mut status, "{\"event\":\"error\",\"message\":\"disk full\"}");
    run.finish(&mut status, true, Some(0), "2.0.0", "noise");
    assert_eq!(status.phase, UpdatePhase::Failed { error: "disk full".to_string() });
    ApplyRun::new().finish(&mut status, false, Some(2), "2.0.0", "");
    assert_eq!(
        status.phase,
        UpdatePhase::Failed { error: "更新器异常退出（code=Some(2)）".to_string() }
    );
    let tail = format!("cut{}", "尾".repeat(400));
    ApplyRun::new().finish(&mut status, false, None, "2.0.0", &tail);
    assert_eq!(
        status.phase,
        UpdatePhase::Failed {
            error: format!("更新器异常退出（code=None）：{}", "尾".repeat(400))
        }
    );
    ApplyRun::new().finish(&mut status, true, Some(0), "2.0.0", "");
    assert_eq!(status.phase, UpdatePhase::PendingRestart { dsh_version: "2.0.0".to_string() });
    set_failed(&mut status, "x".to_string());
    assert_eq!(status.phase, UpdatePhase::Failed { error: "x".to_string() });
}

#[test]
fn error_output_is_kept_to_its_end() {
    assert_eq!(push_tail("a\n", "b"), "a\nb\n");
    let long = "x".repeat(1999);
    assert_eq!(push_tail("", &long), format!("{}\n", long));
    let kept = push_tail("start\n", &long);
    assert_eq!(kept.len(), 2000);
    assert_eq!(kept, format!("{}\n", long));
    assert!(can_push_tail("start\n", &long));
    let wide = "错".repeat(700);
    assert!(!can_push_tail("", &wide));
    assert!(can_push_tail("", &"错".repeat(600)));
}

#[test]
fn skipping_silences_a_version() {
    let mut settings = AppSettings::default();
    settings.workspace_root = Some("/work".to_string());
    let mut status = UpdateStatus::default();
    assert_eq!(update_skip(&mut settings, &mut status, "kernel"), SkipOutcome::Nothing);
    status.kernel = Some(channel("2.0.0", true));
    status.app = Some(channel("0.9.0", true));
    assert_eq!(update_skip(&mut settings, &mut status, "kernel"), SkipOutcome::Save);
    assert_eq!(settings.skipped_kernel_version.as_deref(), Some("2.0.0"));
    assert_eq!(settings.skipped_app_version, None);
    assert!(!status.kernel.as_ref().unwrap().prompt);
    assert!(status.app.as_ref().unwrap().prompt);
    assert_eq!(update_skip(&mut settings, &mut status, "app"), SkipOutcome::SaveAndClose);
    assert_eq!(settings.skipped_app_version.as_deref(), Some("0.9.0"));
    assert_eq!(settings.workspace_root.as_deref(), Some("/work"));
}

#[test]
fn summaries_fit_on_a_line() {
    let mut status = UpdateStatus::default();
    assert_eq!(latest_summary(&status), "内核最新 - / 客户端最新 -");
    status.kernel = Some(channel("2.0.0", true));
    assert_eq!(latest_summary(&status), "内核最新 2.0.0 / 客户端最新 -");
    assert_eq!(update_open_download(&status), None);
    status.app = Some(channel("0.9.0", true));
    assert_eq!(
        update_open_download(&status),
        Some("https://example.com/download".to_string())
    );
    assert_eq!(overlay_summary(Err(())), "覆盖层不可用");
    assert_eq!(overlay_summary(Ok(None)), "无覆盖层（使用内置运行时）");
    assert_eq!(overlay_summary(Ok(Some("x"))), "无覆盖层（使用内置运行时）");
    assert_eq!(
        overlay_summary(Ok(Some("{\"dshVersion\":\"2.0.0\",\"status\":\"ready\"}"))),
        "覆盖层 dsh 2.0.0（ready）"
    );
    assert_eq!(describe_overlay(Some(&object(vec![]))), "覆盖层 dsh ?（?）");
}

#[test]
fn settings_have_defaults() {
    let settings = load(None);
    assert!(auto_check_enabled(&settings));
    assert_eq!(current_workspace(&settings, None), ".");
    assert_eq!(current_workspace(&settings, Some("/home/a".to_string())), "/home/a");
    assert_eq!(home_dir(None), ".");
    assert_eq!(home_variable(true), "USERPROFILE");
    assert_eq!(home_variable(false), "HOME");
    let mut settings = load(Some(AppSettings {
        auto_check: Some(false),
        skipped_app_version: Some("1".to_string()),
        ..AppSettings::default()
    }));
    assert!(!auto_check_enabled(&settings));
    settings.set_workspace("/work".to_string());
    assert_eq!(current_workspace(&settings, Some("/home/a".to_string())), "/work");
    assert_eq!(settings.skipped_app_version.as_deref(), Some("1"));
    assert_eq!(settings.auto_check, Some(false));
}

#[test]
fn check_takes_the_output_as_it_was_written() {
    let stdout = b"\xff noise\n{\"kernel\":{\"latest\":\"2.0.0\"}}\n";
    let (kernel, app) = run_check_bytes(stdout, b"", Some(0), "1.0.0", "0.5.0").unwrap();
    assert_eq!(kernel.unwrap().latest.as_deref(), Some("2.0.0"));
    assert!(app.is_none());
    let error = run_check_bytes(b"", b"bad \xff", None, "a", "b").err().unwrap();
    assert_eq!(error, "更新器未输出有效 JSON 结果（exit=None，stderr 尾部：bad \u{fffd}）");
}
