//! The application's menu, and the diagnostics that it copies.
use crate::number::{decimal, decimal_of};
use crate::server::{KernelStatus, KernelStatusView};
use crate::text::{join, joined, str_eq};
use vstd::prelude::*;

verus! {

/// What a menu item does.
#[derive(Clone, Copy, Debug, PartialEq, Eq)]
pub enum MenuAction {
    CheckUpdates,
    RestoreBundledKernel,
    MinimizeWindow,
    ToggleFullscreen,
    ToggleSidebar,
    Quit,
    ChangeWorkspace,
    OpenInBrowser,
    RestartKernel,
    CopyDiagnostics,
    OpenLogs,
}

/// An item of a menu.
#[derive(Clone, Copy, Debug)]
pub struct MenuItem {
    pub id: &'static str,
    pub label: &'static str,
    pub accelerator: Option<&'static str>,
    /// Whether a line parts it from the item in front of it.
    pub separated: bool,
}

/// The mathematical value of a [`MenuItem`].
pub struct MenuItemView {
    pub id: Seq<char>,
    pub label: Seq<char>,
    pub accelerator: Option<Seq<char>>,
    pub separated: bool,
}

impl DeepView for MenuItem {
    type V = MenuItemView;

    open spec fn deep_view(&self) -> MenuItemView {
        MenuItemView {
            id: self.id@,
            label: self.label@,
            accelerator: self.accelerator.deep_view(),
            separated: self.separated,
        }
    }
}

/// A menu.
pub struct Submenu {
    pub title: &'static str,
    pub items: Vec<MenuItem>,
}

/// The mathematical value of a [`Submenu`].
pub struct SubmenuView {
    pub title: Seq<char>,
    pub items: Seq<MenuItemView>,
}

impl DeepView for Submenu {
    type V = SubmenuView;

    open spec fn deep_view(&self) -> SubmenuView {
        SubmenuView { title: self.title@, items: self.items.deep_view() }
    }
}

/// The key that toggles the full screen, as each system has it.
pub open spec fn fullscreen_key(is_macos: bool) -> Seq<char> {
    if is_macos {
        "Ctrl+Cmd+F"@
    } else {
        "F11"@
    }
}

/// The key that toggles the full screen, as each system has it.
pub fn fullscreen_accel(is_macos: bool) -> (key: &'static str)
    ensures
        key@ == fullscreen_key(is_macos),
{
    if is_macos {
        "Ctrl+Cmd+F"
    } else {
        "F11"
    }
}

/// An item without a line in front of it.
pub open spec fn item_of(
    id: Seq<char>,
    label: Seq<char>,
    accelerator: Option<Seq<char>>,
) -> MenuItemView {
    MenuItemView { id, label, accelerator, separated: false }
}

/// An item with a line in front of it.
pub open spec fn parted(item: MenuItemView) -> MenuItemView {
    MenuItemView { separated: true, ..item }
}

/// The items of the application's own menu.
pub open spec fn app_items(is_macos: bool) -> Seq<MenuItemView> {
    seq![
        item_of("check-updates"@, "检查更新…"@, Some("CmdOrCtrl+U"@)),
        item_of("restore-bundled-kernel"@, "恢复内置内核"@, None),
        parted(item_of("minimize-window"@, "最小化"@, Some("CmdOrCtrl+M"@))),
        item_of("toggle-fullscreen"@, "切换全屏"@, Some(fullscreen_key(is_macos))),
        item_of("toggle-sidebar"@, "切换侧边栏"@, Some("CmdOrCtrl+B"@)),
        parted(item_of("quit"@, "退出 DeepSeek Harness"@, Some("CmdOrCtrl+Q"@))),
    ]
}

/// The items of the kernel's menu.
pub open spec fn kernel_items() -> Seq<MenuItemView> {
    seq![
        item_of("change-workspace"@, "更改工作目录…"@, Some("CmdOrCtrl+Shift+O"@)),
        item_of("open-in-browser"@, "在浏览器中打开"@, None),
        parted(item_of("restart-kernel"@, "重启内核"@, Some("CmdOrCtrl+R"@))),
    ]
}

/// The items of the help menu.
pub open spec fn help_items() -> Seq<MenuItemView> {
    seq![
        item_of("copy-diagnostics"@, "复制诊断信息"@, None),
        item_of("open-logs"@, "打开日志目录"@, None),
    ]
}

/// The menus of the application.
pub open spec fn menus(is_macos: bool) -> Seq<SubmenuView> {
    seq![
        SubmenuView { title: "应用"@, items: app_items(is_macos) },
        SubmenuView { title: "内核"@, items: kernel_items() },
        SubmenuView { title: "帮助"@, items: help_items() },
    ]
}

fn item(
    id: &'static str,
    label: &'static str,
    accelerator: Option<&'static str>,
    separated: bool,
) -> (made: MenuItem)
    ensures
        made.deep_view() == (MenuItemView {
            id: id@,
            label: label@,
            accelerator: accelerator.deep_view(),
            separated,
        }),
{
    MenuItem { id, label, accelerator, separated }
}

/// The menus of the application.
pub fn build_menu(is_macos: bool) -> (menu: Vec<Submenu>)
    ensures
        menu.deep_view() == menus(is_macos),
{
    let app = Submenu {
        title: "应用",
        items: vec![
            item("check-updates", "检查更新…", Some("CmdOrCtrl+U"), false),
            item("restore-bundled-kernel", "恢复内置内核", None, false),
            item("minimize-window", "最小化", Some("CmdOrCtrl+M"), true),
            item("toggle-fullscreen", "切换全屏", Some(fullscreen_accel(is_macos)), false),
            item("toggle-sidebar", "切换侧边栏", Some("CmdOrCtrl+B"), false),
            item("quit", "退出 DeepSeek Harness", Some("CmdOrCtrl+Q"), true),
        ],
    };
    assert(app.items.deep_view() == app_items(is_macos));
    let kernel = Submenu {
        title: "内核",
        items: vec![
            item("change-workspace", "更改工作目录…", Some("CmdOrCtrl+Shift+O"), false),
            item("open-in-browser", "在浏览器中打开", None, false),
            item("restart-kernel", "重启内核", Some("CmdOrCtrl+R"), true),
        ],
    };
    assert(kernel.items.deep_view() == kernel_items());
    let help = Submenu {
        title: "帮助",
        items: vec![
            item("copy-diagnostics", "复制诊断信息", None, false),
            item("open-logs", "打开日志目录", None, false),
        ],
    };
    assert(help.items.deep_view() == help_items());
    let menu = vec![app, kernel, help];
    assert(menu.deep_view() == menus(is_macos));
    menu
}

/// What the item of this name does.
pub open spec fn action_of(id: Seq<char>) -> Option<MenuAction> {
    if id == "change-workspace"@ {
        Some(MenuAction::ChangeWorkspace)
    } else if id == "open-in-browser"@ {
        Some(MenuAction::OpenInBrowser)
    } else if id == "restart-kernel"@ {
        Some(MenuAction::RestartKernel)
    } else if id == "check-updates"@ {
        Some(MenuAction::CheckUpdates)
    } else if id == "restore-bundled-kernel"@ {
        Some(MenuAction::RestoreBundledKernel)
    } else if id == "minimize-window"@ {
        Some(MenuAction::MinimizeWindow)
    } else if id == "toggle-fullscreen"@ {
        Some(MenuAction::ToggleFullscreen)
    } else if id == "toggle-sidebar"@ {
        Some(MenuAction::ToggleSidebar)
    } else if id == "copy-diagnostics"@ {
        Some(MenuAction::CopyDiagnostics)
    } else if id == "open-logs"@ {
        Some(MenuAction::OpenLogs)
    } else if id == "quit"@ {
        Some(MenuAction::Quit)
    } else {
        None
    }
}

/// What the item of this name does.
pub fn handle_menu_event(id: &str) -> (action: Option<MenuAction>)
    ensures
        action == action_of(id@),
{
    if str_eq(id, "change-workspace") {
        Some(MenuAction::ChangeWorkspace)
    } else if str_eq(id, "open-in-browser") {
        Some(MenuAction::OpenInBrowser)
    } else if str_eq(id, "restart-kernel") {
        Some(MenuAction::RestartKernel)
    } else if str_eq(id, "check-updates") {
        Some(MenuAction::CheckUpdates)
    } else if str_eq(id, "restore-bundled-kernel") {
        Some(MenuAction::RestoreBundledKernel)
    } else if str_eq(id, "minimize-window") {
        Some(MenuAction::MinimizeWindow)
    } else if str_eq(id, "toggle-fullscreen") {
        Some(MenuAction::ToggleFullscreen)
    } else if str_eq(id, "toggle-sidebar") {
        Some(MenuAction::ToggleSidebar)
    } else if str_eq(id, "copy-diagnostics") {
        Some(MenuAction::CopyDiagnostics)
    } else if str_eq(id, "open-logs") {
        Some(MenuAction::OpenLogs)
    } else if str_eq(id, "quit") {
        Some(MenuAction::Quit)
    } else {
        None
    }
}

/// Every item of every menu does something.
pub proof fn every_item_has_its_action(is_macos: bool, i: int, j: int)
    requires
        0 <= i < menus(is_macos).len(),
        0 <= j < menus(is_macos)[i].items.len(),
    ensures
        action_of(menus(is_macos)[i].items[j].id) is Some,
{
}

// ---------------------------------------------------------------------------
// Diagnostics
// ---------------------------------------------------------------------------

/// The address of the kernel's pages, where it serves.
pub fn open_in_browser(status: &KernelStatus) -> (url: Option<String>)
    ensures
        url.deep_view() == (match status@ {
            KernelStatusView::Ready { url: found } => Some(found),
            _ => None,
        }),
{
    match status {
        KernelStatus::Ready { url } => Some(url.clone()),
        _ => None,
    }
}

/// The status of the kernel in one line.
pub open spec fn status_text(status: KernelStatusView) -> Seq<char> {
    match status {
        KernelStatusView::Starting { attempt } => "启动中（第 "@ + decimal(attempt as nat)
            + " 次）"@,
        KernelStatusView::Restarting { attempt } => "重启中（第 "@ + decimal(attempt as nat)
            + " 次）"@,
        KernelStatusView::Ready { url } => "就绪 "@ + url,
        KernelStatusView::Failed { error } => "失败："@ + error,
    }
}

fn labelled(label: &str, text: &str, end: &str) -> (line: String)
    ensures
        line@ == label@ + text@ + end@,
{
    let mut line = label.to_string();
    line.append(text);
    line.append(end);
    line
}

/// The status of the kernel in one line.
pub fn status_summary(status: &KernelStatus) -> (text: String)
    ensures
        text@ == status_text(status@),
{
    match status {
        KernelStatus::Starting { attempt } => labelled(
            "启动中（第 ",
            decimal_of(*attempt as u64).as_str(),
            " 次）",
        ),
        KernelStatus::Restarting { attempt } => labelled(
            "重启中（第 ",
            decimal_of(*attempt as u64).as_str(),
            " 次）",
        ),
        KernelStatus::Ready { url } => {
            let mut text = "就绪 ".to_string();
            text.append(url.as_str());
            text
        },
        KernelStatus::Failed { error } => {
            let mut text = "失败：".to_string();
            text.append(error.as_str());
            text
        },
    }
}

/// The facts that the diagnostics tell.
pub struct Diagnostics {
    pub app_version: String,
    pub status: KernelStatus,
    pub port: Option<u16>,
    pub workspace: String,
    pub dsh_version: String,
    pub node_version: String,
    pub source: String,
    pub overlay: String,
    pub latest: String,
    pub dsh_home: String,
    /// The directory of the logs, where it could be had.
    pub log_dir: Option<String>,
}

/// The lines of the diagnostics.
pub open spec fn diagnostics_lines(facts: Diagnostics) -> Seq<Seq<char>> {
    seq![
        "DeepSeek Harness 桌面版诊断信息"@,
        "应用版本："@ + facts.app_version@,
        "内核状态："@ + status_text(facts.status@),
        "监听端口："@ + (match facts.port {
            Some(port) => decimal(port as nat),
            None => "-"@,
        }),
        "工作目录："@ + facts.workspace@,
        "DSH 版本："@ + facts.dsh_version@,
        "Node 版本："@ + facts.node_version@,
        "运行时来源："@ + facts.source@,
        "更新："@ + facts.overlay@,
        "最近检查："@ + facts.latest@,
        "DSH_HOME："@ + facts.dsh_home@,
        "日志目录："@ + (match facts.log_dir {
            Some(dir) => dir@,
            None => "未知"@,
        }),
    ]
}

fn line_of(label: &str, text: &str) -> (line: String)
    ensures
        line@ == label@ + text@,
{
    let mut line = label.to_string();
    line.append(text);
    line
}

/// The diagnostics, one fact to a line.
pub fn diagnostics(facts: &Diagnostics) -> (text: String)
    ensures
        text@ == joined(diagnostics_lines(*facts), "\n"@),
{
    let port = match facts.port {
        Some(port) => decimal_of(port as u64),
        None => "-".to_string(),
    };
    let log_dir = match &facts.log_dir {
        Some(dir) => dir.clone(),
        None => "未知".to_string(),
    };
    let list = vec![
        "DeepSeek Harness 桌面版诊断信息".to_string(),
        line_of("应用版本：", facts.app_version.as_str()),
        line_of("内核状态：", status_summary(&facts.status).as_str()),
        line_of("监听端口：", port.as_str()),
        line_of("工作目录：", facts.workspace.as_str()),
        line_of("DSH 版本：", facts.dsh_version.as_str()),
        line_of("Node 版本：", facts.node_version.as_str()),
        line_of("运行时来源：", facts.source.as_str()),
        line_of("更新：", facts.overlay.as_str()),
        line_of("最近检查：", facts.latest.as_str()),
        line_of("DSH_HOME：", facts.dsh_home.as_str()),
        line_of("日志目录：", log_dir.as_str()),
    ];
    assert(list.deep_view() == diagnostics_lines(*facts));
    join(&list, "\n")
}

// ---------------------------------------------------------------------------
// Laws
// ---------------------------------------------------------------------------

/// Each item does what its name says, and no other name does anything.
pub proof fn items_do_what_their_names_say(id: Seq<char>)
    ensures
        action_of("check-updates"@) == Some(MenuAction::CheckUpdates),
        action_of("restore-bundled-kernel"@) == Some(MenuAction::RestoreBundledKernel),
        action_of("minimize-window"@) == Some(MenuAction::MinimizeWindow),
        action_of("toggle-fullscreen"@) == Some(MenuAction::ToggleFullscreen),
        action_of("toggle-sidebar"@) == Some(MenuAction::ToggleSidebar),
        action_of("quit"@) == Some(MenuAction::Quit),
        action_of("change-workspace"@) == Some(MenuAction::ChangeWorkspace),
        action_of("open-in-browser"@) == Some(MenuAction::OpenInBrowser),
        action_of("restart-kernel"@) == Some(MenuAction::RestartKernel),
        action_of("copy-diagnostics"@) == Some(MenuAction::CopyDiagnostics),
        action_of("open-logs"@) == Some(MenuAction::OpenLogs),
        id != "check-updates"@ && id != "restore-bundled-kernel"@ && id != "minimize-window"@ && id
            != "toggle-fullscreen"@ && id != "toggle-sidebar"@ && id != "quit"@ && id
            != "change-workspace"@ && id != "open-in-browser"@ && id != "restart-kernel"@ && id
            != "copy-diagnostics"@ && id != "open-logs"@ ==> action_of(id) is None,
{
    reveal_strlit("check-updates");
    reveal_strlit("restore-bundled-kernel");
    reveal_strlit("minimize-window");
    reveal_strlit("toggle-fullscreen");
    reveal_strlit("toggle-sidebar");
    reveal_strlit("quit");
    reveal_strlit("change-workspace");
    reveal_strlit("open-in-browser");
    reveal_strlit("restart-kernel");
    reveal_strlit("copy-diagnostics");
    reveal_strlit("open-logs");
    assert("check-updates"@.len() == 13);
    assert("restore-bundled-kernel"@.len() == 22);
    assert("minimize-window"@.len() == 15);
    assert("toggle-fullscreen"@.len() == 17);
    assert("toggle-sidebar"@.len() == 14);
    assert("quit"@.len() == 4);
    assert("change-workspace"@.len() == 16);
    assert("open-in-browser"@.len() == 15);
    assert("restart-kernel"@.len() == 14);
    assert("copy-diagnostics"@.len() == 16);
    assert("open-logs"@.len() == 9);
    assert("minimize-window"@[0] == 'm' && "open-in-browser"@[0] == 'o');
    assert("toggle-sidebar"@[0] == 't' && "restart-kernel"@[0] == 'r');
    assert("change-workspace"@[1] == 'h' && "copy-diagnostics"@[1] == 'o');
}

/// The three menus hold these items, in this order, on every system; only the key for the full screen
/// differs.
pub proof fn menus_hold_their_items(is_macos: bool)
    ensures
        menus(is_macos).len() == 3,
        menus(is_macos)[0].title == "应用"@,
        menus(is_macos)[1].title == "内核"@,
        menus(is_macos)[2].title == "帮助"@,
        menus(is_macos)[0].items.len() == 6,
        menus(is_macos)[0].items[0].id == "check-updates"@,
        menus(is_macos)[0].items[1].id == "restore-bundled-kernel"@,
        menus(is_macos)[0].items[2].id == "minimize-window"@,
        menus(is_macos)[0].items[3].id == "toggle-fullscreen"@,
        menus(is_macos)[0].items[4].id == "toggle-sidebar"@,
        menus(is_macos)[0].items[5].id == "quit"@,
        menus(is_macos)[1].items.len() == 3,
        menus(is_macos)[1].items[0].id == "change-workspace"@,
        menus(is_macos)[1].items[1].id == "open-in-browser"@,
        menus(is_macos)[1].items[2].id == "restart-kernel"@,
        menus(is_macos)[2].items.len() == 2,
        menus(is_macos)[2].items[0].id == "copy-diagnostics"@,
        menus(is_macos)[2].items[1].id == "open-logs"@,
        menus(true)[0].items[3].accelerator == Some("Ctrl+Cmd+F"@),
        menus(false)[0].items[3].accelerator == Some("F11"@),
        forall|i: int, j: int|
            0 <= i < 3 && 0 <= j < menus(true)[i].items.len() && !(i == 0 && j == 3)
                ==> #[trigger] menus(true)[i].items[j] == menus(false)[i].items[j],
{
}

/// The status line tells the state, and with it the attempt, the address or the error.
pub proof fn status_line_tells_the_state(attempt: u32, text: Seq<char>)
    ensures
        status_text(KernelStatusView::Starting { attempt }) == "启动中（第 "@ + decimal(
            attempt as nat,
        ) + " 次）"@,
        status_text(KernelStatusView::Restarting { attempt }) == "重启中（第 "@ + decimal(
            attempt as nat,
        ) + " 次）"@,
        status_text(KernelStatusView::Ready { url: text }) == "就绪 "@ + text,
        status_text(KernelStatusView::Failed { error: text }) == "失败："@ + text,
{
}

/// The diagnostics tell each fact on a line of its own, behind its name, and what is not known by a
/// word or a sign.
pub proof fn diagnostics_tell_each_fact(facts: Diagnostics)
    ensures
        ({
            let list = diagnostics_lines(facts);
            &&& list.len() == 12
            &&& list[0] == "DeepSeek Harness 桌面版诊断信息"@
            &&& list[1] == "应用版本："@ + facts.app_version@
            &&& list[2] == "内核状态："@ + status_text(facts.status@)
            &&& facts.port is None ==> list[3] == "监听端口："@ + "-"@
            &&& facts.port matches Some(port) ==> list[3] == "监听端口："@ + decimal(port as nat)
            &&& list[4] == "工作目录："@ + facts.workspace@
            &&& list[5] == "DSH 版本："@ + facts.dsh_version@
            &&& list[6] == "Node 版本："@ + facts.node_version@
            &&& list[7] == "运行时来源："@ + facts.source@
            &&& list[8] == "更新："@ + facts.overlay@
            &&& list[9] == "最近检查："@ + facts.latest@
            &&& list[10] == "DSH_HOME："@ + facts.dsh_home@
            &&& facts.log_dir is None ==> list[11] == "日志目录："@ + "未知"@
            &&& facts.log_dir matches Some(dir) ==> list[11] == "日志目录："@ + dir@
        }),
{
}

/// Only the pages of a kernel that serves can be opened.
pub proof fn only_a_ready_kernel_is_opened(status: &KernelStatus, url: Option<String>)
    requires
        call_ensures(open_in_browser, (status,), url),
    ensures
        status@ matches KernelStatusView::Ready { url: address } ==> url is Some && (url->0)@
            == address,
        !(status@ is Ready) ==> url is None,
{
}

/// What the items are called, by which keys they are reached, and where lines part them.
pub proof fn items_are_labelled(is_macos: bool)
    ensures
        menus(is_macos)[0].items[0].label == "检查更新…"@,
        menus(is_macos)[0].items[1].label == "恢复内置内核"@,
        menus(is_macos)[0].items[2].label == "最小化"@,
        menus(is_macos)[0].items[3].label == "切换全屏"@,
        menus(is_macos)[0].items[4].label == "切换侧边栏"@,
        menus(is_macos)[0].items[5].label == "退出 DeepSeek Harness"@,
        menus(is_macos)[1].items[0].label == "更改工作目录…"@,
        menus(is_macos)[1].items[1].label == "在浏览器中打开"@,
        menus(is_macos)[1].items[2].label == "重启内核"@,
        menus(is_macos)[2].items[0].label == "复制诊断信息"@,
        menus(is_macos)[2].items[1].label == "打开日志目录"@,
        menus(is_macos)[0].items[0].accelerator == Some("CmdOrCtrl+U"@),
        menus(is_macos)[0].items[1].accelerator is None,
        menus(is_macos)[0].items[2].accelerator == Some("CmdOrCtrl+M"@),
        menus(is_macos)[0].items[4].accelerator == Some("CmdOrCtrl+B"@),
        menus(is_macos)[0].items[5].accelerator == Some("CmdOrCtrl+Q"@),
        menus(is_macos)[1].items[0].accelerator == Some("CmdOrCtrl+Shift+O"@),
        menus(is_macos)[1].items[1].accelerator is None,
        menus(is_macos)[1].items[2].accelerator == Some("CmdOrCtrl+R"@),
        menus(is_macos)[2].items[0].accelerator is None,
        menus(is_macos)[2].items[1].accelerator is None,
        forall|i: int, j: int|
            0 <= i < 3 && 0 <= j < menus(is_macos)[i].items.len() ==> (#[trigger] menus(
                is_macos,
            )[i].items[j]).separated == ((i == 0 && (j == 2 || j == 5)) || (i == 1 && j == 2)),
{
}

} // verus!
