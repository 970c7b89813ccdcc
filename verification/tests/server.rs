use dsh_desktop::json::Json;
use dsh_desktop::server::{
    backoff_delay, backoff_secs, dev_probe, dev_program, dsh_version, entry_segments, http_is_ok, http_probe_request,
    judge_overlay, kernel_args, kernel_url_of, manifest_version, navigation_allowed, node_version,
    package_segments, parse_ready_line, pick_overlay, read_pkg_version, resolve_runtime,
    response_ok, sidecar_name, window_port, Fence, KernelRun, KernelStatus, OverlayPaths, OverlayPick,
    OverlayProbe, OverlayVerdict, ResourceProbe, RuntimeProbe, Shared, URL_MARK,
};
use dsh_desktop::version::compare_versions;
use std::cmp::Ordering;
use std::path::PathBuf;
use std::time::Duration;

#[test]
fn parse_ready_line_extracts_port() {
    assert_eq!(parse_ready_line("dsh web: http://127.0.0.1:3080"), Some(3080));
    assert_eq!(
        parse_ready_line("dsh web: http://127.0.0.1:33456 (LAN: http://192.168.1.4:33456)"),
        Some(33456)
    );
    assert_eq!(parse_ready_line("random log"), None);
    assert_eq!(parse_ready_line("dsh web: http://127.0.0.1:"), None);
}

#[test]
fn ready_line_is_trimmed_and_bounded() {
    assert_eq!(parse_ready_line("  dsh web: http://127.0.0.1:80/\r\n"), Some(80));
    assert_eq!(parse_ready_line("dsh web: http://127.0.0.1:65535"), Some(65535));
    assert_eq!(parse_ready_line("dsh web: http://127.0.0.1:65536"), None);
    assert_eq!(parse_ready_line("dsh web: http://127.0.0.1:007x"), Some(7));
    assert_eq!(parse_ready_line("x dsh web: http://127.0.0.1:80"), None);
}

#[test]
fn every_port_is_announced() {
    for port in [0u16, 1, 9, 10, 99, 3080, 33456, 65535] {
        assert_eq!(parse_ready_line(&format!("{}{} (LAN)", URL_MARK, port)), Some(port));
        assert_eq!(kernel_url_of(port), format!("http://127.0.0.1:{}/", port));
    }
}

#[test]
fn backoff_delay_grows_and_caps() {
    assert_eq!(backoff_delay(1), Duration::from_secs(1));
    assert_eq!(backoff_delay(2), Duration::from_secs(2));
    assert_eq!(backoff_delay(3), Duration::from_secs(4));
    assert_eq!(backoff_delay(99), Duration::from_secs(4));
}

#[test]
fn backoff_starts_at_one_second() {
    assert_eq!(backoff_secs(0), 1);
    assert_eq!(backoff_secs(u32::MAX), 4);
}

#[test]
fn http_is_ok_rejects_dead_port() {
    assert!(!http_is_ok(None));
}

#[test]
fn http_answers_are_told_apart() {
    assert!(http_is_ok(Some(b"HTTP/1.1 200 OK\r\n\r\n<html>")));
    assert!(!http_is_ok(Some(b"HTTP/1.1 500 Oops\r\n\r\n")));
    assert!(!http_is_ok(Some(b"HTTP/2 200 OK")));
    assert!(!http_is_ok(Some(b"")));
    assert!(http_is_ok(Some(b"HTTP/1.0 200 \xff\xfe")));
    assert!(!http_is_ok(Some(b"HTTP/1.1 500 Internal Server Error\r\n\r\nretry in 200 ms")));
    assert!(http_is_ok(Some(b"HTTP/1.1 200\r\n\r\n")));
    assert!(!response_ok("HTTP/1.1 2000 OK"));
    assert!(response_ok("HTTP/1.0 200 OK"));
    assert!(!response_ok("xHTTP/1.0 200 OK"));
    assert_eq!(
        http_probe_request(),
        "GET / HTTP/1.0\r\nHost: 127.0.0.1\r\nConnection: close\r\n\r\n"
    );
}

#[test]
fn compare_versions_orders_prereleases() {
    assert_eq!(compare_versions("0.1.1-rc.2", "0.1.1"), Ordering::Less);
    assert_eq!(compare_versions("0.1.1", "0.1.1-rc.2"), Ordering::Greater);
    assert_eq!(compare_versions("0.1.1-rc.2", "0.1.1-rc.10"), Ordering::Less);
    assert_eq!(compare_versions("0.2.0", "0.1.9"), Ordering::Greater);
    assert_eq!(compare_versions("v1.2.3", "1.2.3"), Ordering::Equal);
    assert_eq!(compare_versions("1.0.0-alpha", "1.0.0-alpha.1"), Ordering::Less);
    assert_eq!(compare_versions("1.0.0-alpha.1", "1.0.0-beta"), Ordering::Less);
    assert_eq!(compare_versions("abc", "1.0.0"), Ordering::Equal);
}

#[test]
fn versions_that_cannot_be_read_are_equal() {
    assert_eq!(compare_versions("1.2", "9.9.9"), Ordering::Equal);
    assert_eq!(compare_versions("1.2.3.4", "9.9.9"), Ordering::Equal);
    assert_eq!(compare_versions("18446744073709551616.0.0", "1.0.0"), Ordering::Equal);
    assert_eq!(compare_versions(" v2.0.0 ", "1.9.9"), Ordering::Greater);
    assert_eq!(compare_versions("1.0.0-1", "1.0.0-a"), Ordering::Less);
    assert_eq!(compare_versions("1.0.0-b", "1.0.0-a"), Ordering::Greater);
    assert_eq!(compare_versions("1.0.0-a-b", "1.0.0-a"), Ordering::Greater);
}

fn overlay(version: &str, status: &str) -> OverlayProbe {
    OverlayProbe {
        bin_js_exists: true,
        meta: Some(format!("{{ \"status\": \"{}\", \"dshVersion\": \"{}\" }}", status, version)),
        node_exists: false,
    }
}

fn paths() -> OverlayPaths<PathBuf> {
    OverlayPaths {
        node: PathBuf::from("/data/runtime/node/dsh-node"),
        bin_js: PathBuf::from("/data/runtime/dsh/node_modules/@deepseek-ai/dsh/lib/bin.js"),
        bundle: PathBuf::from("/data/runtime/dsh"),
    }
}

#[test]
fn pick_overlay_prefers_newer_ready_overlay() {
    let bundled = PathBuf::from("/data/runtime/bundled-node");
    match pick_overlay(&overlay("9.9.9", "ready"), paths(), Some("0.1.1"), bundled.clone()) {
        OverlayPick::Use { program, bin_js, bundle } => {
            assert_eq!(program, bundled);
            assert!(bin_js.ends_with("bin.js"));
            assert!(bundle.ends_with("dsh"));
        }
        _ => panic!("the overlay should be used"),
    }
}

#[test]
fn pick_overlay_flags_version_regression() {
    match pick_overlay(&overlay("0.0.1", "ready"), paths(), Some("0.1.1"), PathBuf::from("node")) {
        OverlayPick::IgnoreAndClean => {}
        _ => panic!("an older overlay should be removed"),
    }
}

#[test]
fn pick_overlay_ignores_failed_or_missing() {
    let node = || PathBuf::from("n");
    let none = OverlayProbe { bin_js_exists: false, meta: None, node_exists: false };
    assert!(matches!(pick_overlay(&none, paths(), None, node()), OverlayPick::Ignore));
    let failed = overlay("9.9.9", "failed");
    assert!(matches!(pick_overlay(&failed, paths(), None, node()), OverlayPick::Ignore));
    let unnamed = OverlayProbe {
        bin_js_exists: true,
        meta: Some("{ \"status\": \"ready\" }".to_string()),
        node_exists: false,
    };
    assert!(matches!(pick_overlay(&unnamed, paths(), None, node()), OverlayPick::Ignore));
}

#[test]
fn overlay_brings_its_own_node() {
    let probe = OverlayProbe { node_exists: true, ..overlay("9.9.9", "ready") };
    match pick_overlay(&probe, paths(), None, PathBuf::from("bundled")) {
        OverlayPick::Use { program, .. } => assert!(program.ends_with("dsh-node")),
        _ => panic!("the overlay should be used"),
    }
    let broken = OverlayProbe {
        bin_js_exists: true,
        meta: Some("not json".to_string()),
        node_exists: true,
    };
    assert!(matches!(
        pick_overlay(&broken, paths(), None, PathBuf::from("bundled")),
        OverlayPick::Ignore
    ));
    let unread = OverlayProbe { bin_js_exists: true, meta: None, node_exists: true };
    assert!(matches!(
        pick_overlay(&unread, paths(), None, PathBuf::from("bundled")),
        OverlayPick::Ignore
    ));
}

#[test]
fn overlay_is_judged_by_its_metadata() {
    let meta = |status: &str, version: &str| {
        Json::Object(vec![
            ("status".to_string(), Json::Str(status.to_string())),
            ("dshVersion".to_string(), Json::Str(version.to_string())),
        ])
    };
    assert!(matches!(judge_overlay(&meta("ready", "1.0.1"), Some("1.0.0")), OverlayVerdict::Use));
    assert!(matches!(
        judge_overlay(&meta("ready", "1.0.0"), Some("1.0.0")),
        OverlayVerdict::IgnoreAndClean
    ));
    assert!(matches!(judge_overlay(&meta("busy", "2.0.0"), None), OverlayVerdict::Ignore));
}

fn resources(bin_js_exists: bool) -> ResourceProbe<&'static str> {
    ResourceProbe {
        bin_js: "res/bin.js",
        bin_js_shown: "res/bin.js".to_string(),
        bin_js_exists,
        bundle: "res/dsh",
        manifest: Some("{\"version\":\"1.0.0\"}".to_string()),
        overlay: None,
    }
}

fn installed(
    program_exists: bool,
    found: Result<ResourceProbe<&'static str>, String>,
) -> RuntimeProbe<&'static str> {
    RuntimeProbe::Installed {
        program: "bin/dsh-node",
        program_shown: "bin/dsh-node".to_string(),
        program_exists,
        resources: found,
    }
}

#[test]
fn runtime_is_resolved_in_order() {
    let dev = resolve_runtime(RuntimeProbe::Dev {
        program: "node",
        bin_js: "app/lib/bin.js",
        bundle: "app",
    })
    .ok()
    .unwrap();
    assert_eq!(dev.runtime.source, "dev");
    assert_eq!(dev.runtime.bin_js, "app/lib/bin.js");
    assert!(!dev.clean_overlay);

    let bundled = resolve_runtime(installed(true, Ok(resources(true)))).ok().unwrap();
    assert_eq!(bundled.runtime.source, "bundled");
    assert_eq!(bundled.runtime.program, "bin/dsh-node");
    assert_eq!(bundled.runtime.bundle, "res/dsh");

    let with = |version: &str| ResourceProbe {
        overlay: Some((
            overlay(version, "ready"),
            OverlayPaths { node: "ov/node", bin_js: "ov/bin.js", bundle: "ov/dsh" },
        )),
        ..resources(true)
    };
    let newer = resolve_runtime(installed(true, Ok(with("1.0.1")))).ok().unwrap();
    assert_eq!(newer.runtime.source, "overlay");
    assert_eq!(newer.runtime.bin_js, "ov/bin.js");
    assert_eq!(newer.runtime.program, "bin/dsh-node");
    let older = resolve_runtime(installed(true, Ok(with("0.9.0")))).ok().unwrap();
    assert_eq!(older.runtime.source, "bundled");
    assert!(older.clean_overlay);
}

#[test]
fn missing_runtime_is_explained() {
    let error = |probe: RuntimeProbe<&'static str>| resolve_runtime(probe).err().unwrap();
    assert_eq!(
        error(RuntimeProbe::NoExecutable { error: "denied".to_string() }),
        "denied"
    );
    assert_eq!(error(RuntimeProbe::NoDirectory), "无法定位可执行文件目录");
    assert_eq!(
        error(installed(false, Ok(resources(true)))),
        "未找到内核运行时（bin/dsh-node）。请先运行打包脚本 stage-runtime.mjs。"
    );
    assert_eq!(error(installed(true, Err("no resources".to_string()))), "no resources");
    assert_eq!(
        error(installed(true, Ok(resources(false)))),
        "未找到内核入口（res/bin.js）。"
    );
}

#[test]
fn versions_are_read_from_manifests() {
    assert_eq!(read_pkg_version(Some("{\"version\":\"1.2.3\"}")), Some("1.2.3".to_string()));
    assert_eq!(read_pkg_version(Some("{\"version\":1}")), None);
    assert_eq!(read_pkg_version(Some("[]")), None);
    assert_eq!(read_pkg_version(Some("{")), None);
    assert_eq!(read_pkg_version(None), None);
    assert_eq!(dsh_version(None, Some("{\"version\":\"2.0.0\"}")), "2.0.0");
    assert_eq!(
        dsh_version(Some("{\"version\":\"1.0.0\"}"), Some("{\"version\":\"2.0.0\"}")),
        "1.0.0"
    );
    assert_eq!(dsh_version(Some("{}"), None), "未知");
    let manifest = Json::Object(vec![("version".to_string(), Json::Str("3.0.0".to_string()))]);
    assert_eq!(manifest_version(&manifest), Some("3.0.0".to_string()));
}

#[test]
fn node_version_is_kept() {
    let mut shared = Shared::new("program", "bundle", "workspace");
    assert_eq!(node_version(&mut shared, Some(b" v24.20.0\n".to_vec())), "v24.20.0");
    assert_eq!(node_version(&mut shared, None), "v24.20.0");
    let mut failed = Shared::new("program", "bundle", "workspace");
    assert_eq!(node_version(&mut failed, None), "未知");
    assert_eq!(failed.node_version, Some("未知".to_string()));
}

#[test]
fn shared_facts_start_fresh() {
    let shared = Shared::new("program", "bundle", "workspace");
    assert_eq!(shared.status, KernelStatus::Starting { attempt: 0 });
    assert_eq!(shared.port, None);
    assert_eq!(shared.workspace, "workspace");
    assert_eq!(shared.program, "program");
    assert_eq!(shared.bundle, "bundle");
    assert_eq!(shared.source, "unknown");
    assert_eq!(shared.node_version, None);
}

#[test]
fn kernel_is_started_on_a_free_port() {
    let run = KernelRun { program: "node", args: kernel_args("lib/bin.js".to_string()) };
    assert_eq!(run.program, "node");
    assert_eq!(run.args, vec!["lib/bin.js", "--profile", "web", "--port", "0", "--no-open"]);
    assert_eq!(sidecar_name(true), "dsh-node.exe");
    assert_eq!(sidecar_name(false), "dsh-node");
    assert_eq!(package_segments(), vec!["node_modules", "@deepseek-ai", "dsh"]);
    assert_eq!(entry_segments(), vec!["lib", "bin.js"]);
}

#[test]
fn window_stays_at_the_kernel() {
    assert!(navigation_allowed("http", Some("127.0.0.1"), Some(3080), 3080));
    assert!(!navigation_allowed("https", Some("127.0.0.1"), Some(3080), 3080));
    assert!(!navigation_allowed("http", Some("example.com"), Some(3080), 3080));
    assert!(!navigation_allowed("http", None, Some(3080), 3080));
    assert!(!navigation_allowed("http", Some("127.0.0.1"), Some(3081), 3080));
    assert!(!navigation_allowed("http", Some("127.0.0.1"), None, 3080));
    assert_eq!(window_port(Some(1)), Ok(1));
    assert_eq!(window_port(None), Err("内核 URL 缺少端口".to_string()));
}

#[test]
fn version_order_is_an_order() {
    let sorted = ["0.9.0", "1.0.0-1", "1.0.0-alpha", "1.0.0-alpha.1", "1.0.0", "v1.0.1", "2.0.0"];
    for (i, a) in sorted.iter().enumerate() {
        for (j, b) in sorted.iter().enumerate() {
            assert_eq!(compare_versions(a, b), i.cmp(&j), "{} {}", a, b);
            assert_eq!(compare_versions(b, a), compare_versions(a, b).reverse());
        }
    }
}

#[test]
fn development_override_runs_on_node() {
    assert_eq!(dev_program(None), "node");
    assert_eq!(dev_program(Some("/opt/node".to_string())), "/opt/node");
    let found = resolve_runtime(dev_probe("/x", None)).ok().unwrap().runtime;
    assert_eq!(found.program, vec!["node"]);
    assert_eq!(found.bin_js, vec!["/x", "lib", "bin.js"]);
    assert_eq!(found.bundle, vec!["/x"]);
    assert_eq!(found.source, "dev");
    let found = resolve_runtime(dev_probe("/x", Some("n".to_string()))).ok().unwrap().runtime;
    assert_eq!(found.program, vec!["n"]);
}

#[test]
fn fence_follows_the_window() {
    let mut fence = Fence::new(3080);
    assert!(fence.allows("http", Some("127.0.0.1"), Some(3080)));
    fence.reopen(4000);
    assert!(fence.allows("http", Some("127.0.0.1"), Some(4000)));
    assert!(!fence.allows("http", Some("127.0.0.1"), Some(3080)));
    assert!(!fence.allows("https", Some("127.0.0.1"), Some(4000)));
}
