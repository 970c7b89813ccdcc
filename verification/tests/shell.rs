use dsh_desktop::bridge::{
    bridge_body, bridge_port, bridge_request, needs_copy, patch_with_bridge, BridgePoll,
};
use dsh_desktop::menu::{
    build_menu, diagnostics, fullscreen_accel, handle_menu_event, open_in_browser, status_summary,
    Diagnostics, MenuAction,
};
use dsh_desktop::server::KernelStatus;
use dsh_desktop::viewer::{open_viewer, percent_encode};

#[test]
fn bridge_port_expires() {
    assert_eq!(bridge_port(Some(600), " 40123\n"), Some(40123));
    assert_eq!(bridge_port(Some(601), "40123"), None);
    assert_eq!(bridge_port(None, "+7"), Some(7));
    assert_eq!(bridge_port(None, "65536"), None);
    assert_eq!(bridge_port(None, "-1"), None);
    assert_eq!(bridge_port(None, ""), None);
}

#[test]
fn bridge_answers_are_read() {
    assert_eq!(
        bridge_body("HTTP/1.1 200 OK\r\nX: y\r\n\r\n {\"currentCwd\":null}\r\n\r\n"),
        Some("{\"currentCwd\":null}".to_string())
    );
    assert_eq!(bridge_body("HTTP/1.1 404 Not Found\r\n\r\n{}"), None);
    assert_eq!(bridge_body("HTTP/1.1 200 OK\r\n"), None);
    assert_eq!(bridge_body("HTTP/1.1\r\n\r\n200"), None);
    assert_eq!(bridge_body("\r\n\r\n"), None);
    assert_eq!(
        bridge_request(),
        "GET /state HTTP/1.0\r\nHost: 127.0.0.1\r\nConnection: close\r\n\r\n"
    );
}

#[test]
fn bridge_tells_changes_once() {
    let path = |p: &str| Some(p.split('/').map(|c| c.as_bytes().to_vec()).collect::<Vec<Vec<u8>>>());
    let mut poll = BridgePoll::new();
    assert!(!poll.take(None));
    assert!(poll.take(path("/a")));
    assert!(!poll.take(path("/a")));
    assert!(!poll.take(None));
    assert!(poll.take(path("/a/b")));
    assert!(poll.take(path("/a")));
    assert_eq!(poll.last, path("/a"));
}

#[test]
fn bridge_is_installed_once() {
    assert!(!needs_copy(Some("x"), Some("x")));
    assert!(needs_copy(Some("x"), Some("y")));
    assert!(needs_copy(None, Some("x")));
    assert!(needs_copy(Some("x"), None));
    assert!(!needs_copy(Some(""), None));
    let text = patch_with_bridge("- remove: x\n\n").unwrap();
    assert_eq!(
        text,
        "- remove: x\n# dsh-desktop 侧边栏数据桥（桌面壳轮询会话/工作区；升级 dsh 不受影响）\n- insert:\n    - id: dsh-sidebar-bridge\n      name: dsh-sidebar-bridge\n"
    );
    assert_eq!(patch_with_bridge(&text), None);
}

#[test]
fn queries_are_percent_encoded() {
    assert_eq!(percent_encode("aZ09-_.~/"), "aZ09-_.~/");
    assert_eq!(percent_encode("a b&c='"), "a%20b%26c%3D%27");
    assert_eq!(percent_encode("中"), "%E4%B8%AD");
    assert_eq!(percent_encode("\u{0}\u{7f}"), "%00%7F");
    assert_eq!(percent_encode(""), "");
}

#[test]
fn viewer_is_asked_for_what_is_there() {
    assert_eq!(
        open_viewer("src/a b.rs", 12, "file", None),
        "location.replace('viewer.html?mode=file&path=src/a%20b.rs&line=12')"
    );
    assert_eq!(
        open_viewer("", 0, "commit", Some("abc")),
        "location.replace('viewer.html?mode=commit&hash=abc')"
    );
    assert_eq!(open_viewer("", 0, "x'y", Some("")), "location.replace('viewer.html?mode=x%27y')");
}

#[test]
fn every_menu_item_acts() {
    let menu = build_menu(true);
    assert_eq!(menu.len(), 3);
    let titles: Vec<&str> = menu.iter().map(|m| m.title).collect();
    assert_eq!(titles, vec!["应用", "内核", "帮助"]);
    let mut actions = vec![];
    for submenu in &menu {
        assert!(!submenu.items[0].separated);
        for item in &submenu.items {
            let action = handle_menu_event(item.id).unwrap();
            assert!(!actions.contains(&action));
            actions.push(action);
        }
    }
    assert_eq!(actions.len(), 11);
    assert_eq!(handle_menu_event("quit"), Some(MenuAction::Quit));
    assert_eq!(handle_menu_event("unknown"), None);
    assert_eq!(fullscreen_accel(true), "Ctrl+Cmd+F");
    assert_eq!(build_menu(false)[0].items[3].accelerator, Some("F11"));
    assert_eq!(menu[1].items[0].accelerator, Some("CmdOrCtrl+Shift+O"));
    assert!(menu[0].items[2].separated && menu[0].items[5].separated);
}

#[test]
fn status_fits_on_a_line() {
    assert_eq!(status_summary(&KernelStatus::Starting { attempt: 0 }), "启动中（第 0 次）");
    assert_eq!(status_summary(&KernelStatus::Restarting { attempt: 12 }), "重启中（第 12 次）");
    let ready = KernelStatus::Ready { url: "http://127.0.0.1:1/".to_string() };
    assert_eq!(status_summary(&ready), "就绪 http://127.0.0.1:1/");
    assert_eq!(open_in_browser(&ready), Some("http://127.0.0.1:1/".to_string()));
    let failed = KernelStatus::Failed { error: "x".to_string() };
    assert_eq!(status_summary(&failed), "失败：x");
    assert_eq!(open_in_browser(&failed), None);
}

#[test]
fn diagnostics_are_complete() {
    let facts = Diagnostics {
        app_version: "0.1.0".to_string(),
        status: KernelStatus::Starting { attempt: 0 },
        port: None,
        workspace: "/w".to_string(),
        dsh_version: "1.0.0".to_string(),
        node_version: "v24".to_string(),
        source: "bundled".to_string(),
        overlay: "o".to_string(),
        latest: "l".to_string(),
        dsh_home: "/h/.dsh".to_string(),
        log_dir: None,
    };
    assert_eq!(
        diagnostics(&facts),
        "DeepSeek Harness 桌面版诊断信息\n应用版本：0.1.0\n内核状态：启动中（第 0 次）\n监听端口：-\n工作目录：/w\nDSH 版本：1.0.0\nNode 版本：v24\n运行时来源：bundled\n更新：o\n最近检查：l\nDSH_HOME：/h/.dsh\n日志目录：未知"
    );
    let served = Diagnostics { port: Some(3080), log_dir: Some("/l".to_string()), ..facts };
    let text = diagnostics(&served);
    assert!(text.contains("监听端口：3080\n"));
    assert!(text.ends_with("日志目录：/l"));
}
