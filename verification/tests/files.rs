use dsh_desktop::content::{
    base64_encode, fs_read, image_mime, lower_image_mime, plan_read, FileContent, ReadPlan,
};
use dsh_desktop::files::{
    ensure_inside, ensure_parent_inside, fs_copy_path, fs_list, is_ignored_dir, is_within, kind_of,
    parent_of, read_dir_sorted, requested_dir, require_absent, require_dir, shown_items,
    sidebar_hidden, sort_items, toggle_sidebar, workspace_info, workspace_root, DirItem, Place,
    Sidebar,
};

fn parts(path: &str) -> Vec<Vec<u8>> {
    path.split('/').map(|p| p.as_bytes().to_vec()).collect()
}

fn place(path: &'static str) -> Place<&'static str> {
    Place { path, components: parts(path) }
}

#[test]
fn sidebar_toggles() {
    let mut sidebar = Sidebar::new();
    assert!(!sidebar_hidden(&sidebar));
    assert!(toggle_sidebar(&mut sidebar));
    assert!(sidebar_hidden(&sidebar));
    assert!(!toggle_sidebar(&mut sidebar));
    assert!(!sidebar_hidden(&sidebar));
}

#[test]
fn workspace_follows_the_session() {
    assert_eq!(workspace_root(Some("s"), true, "w", true, "w"), Ok("s"));
    assert_eq!(workspace_root(Some("s"), false, "w", true, "w"), Ok("w"));
    assert_eq!(workspace_root(None, true, "w", true, "w"), Ok("w"));
    assert_eq!(
        workspace_root(None, false, "w", false, "/w"),
        Err("工作区目录不存在：/w".to_string())
    );
    let info = workspace_info("/a/b", Some("b".to_string()), true, false);
    assert_eq!((info.path.as_str(), info.name.as_str()), ("/a/b", "b"));
    assert!(info.is_git_repo && info.git_missing);
    let info = workspace_info("/", None, false, false);
    assert_eq!(info.name, "/");
    assert!(!info.is_git_repo && !info.git_missing);
}

#[test]
fn paths_stay_inside() {
    let root = || Ok(parts("/work"));
    assert_eq!(ensure_inside(root(), Ok(place("/work/a")), "a"), Ok("/work/a"));
    assert_eq!(ensure_inside(root(), Ok(place("/work")), "."), Ok("/work"));
    assert_eq!(
        ensure_inside(root(), Ok(place("/workshop")), "../workshop"),
        Err("路径超出工作区范围：../workshop".to_string())
    );
    assert_eq!(
        ensure_inside(root(), Ok(place("/")), "/"),
        Err("路径超出工作区范围：/".to_string())
    );
    assert_eq!(
        ensure_inside(root(), Err::<Place<&str>, String>("no such file".to_string()), "x"),
        Err("路径无效（x）：no such file".to_string())
    );
    assert_eq!(
        ensure_inside(Err("no root".to_string()), Ok(place("/work")), "x"),
        Err("no root".to_string())
    );
    assert!(is_within(&parts("/a"), &parts("/a/b/c")));
    assert!(!is_within(&parts("/a/b/c"), &parts("/a")));
}

#[test]
fn new_paths_have_a_parent_inside() {
    let root = || Ok(parts("/work"));
    let inside = Some((Ok(place("/work/a")), "/work/a".to_string()));
    assert_eq!(ensure_parent_inside(root(), inside), Ok(()));
    let outside = Some((Ok(place("/etc")), "/work/../etc".to_string()));
    assert_eq!(
        ensure_parent_inside(root(), outside),
        Err("路径超出工作区范围：/work/../etc".to_string())
    );
    assert_eq!(
        ensure_parent_inside::<&str>(root(), None),
        Err("路径缺少父目录".to_string())
    );
    let lost = Some((Err::<Place<&str>, String>("gone".to_string()), "p".to_string()));
    assert_eq!(ensure_parent_inside(root(), lost), Err("路径无效（p）：gone".to_string()));
    assert_eq!(parent_of(Some(1)), Ok(1));
    assert_eq!(parent_of::<u8>(None), Err("路径缺少父目录".to_string()));
}

#[test]
fn directories_are_required() {
    assert_eq!(requested_dir(Ok(place("/w")), Err("unread".to_string()), ""), Ok("/w"));
    assert_eq!(requested_dir(Ok(place("/w")), Ok(place("/w/a")), "a"), Ok("/w/a"));
    assert_eq!(
        requested_dir(Ok(place("/w")), Ok(place("/x")), "../x"),
        Err("路径超出工作区范围：../x".to_string())
    );
    assert_eq!(require_dir(Ok("/w/a"), true, "/w/a"), Ok("/w/a"));
    assert_eq!(require_dir(Ok("/w/a"), false, "/w/a"), Err("不是目录：/w/a".to_string()));
    assert_eq!(require_dir(Err::<&str, String>("e".to_string()), true, ""), Err("e".to_string()));
    assert_eq!(require_absent(false, "n"), Ok(()));
    assert_eq!(require_absent(true, "n"), Err("已存在：n".to_string()));
    assert_eq!(fs_copy_path(Ok(())), Ok(()));
    assert_eq!(fs_copy_path(Err("x".to_string())), Err("复制失败：x".to_string()));
}

fn item(name: &str, is_dir: bool) -> DirItem {
    DirItem { name: name.to_string(), path: format!("/w/{}", name), is_dir }
}

fn names(items: &Vec<DirItem>) -> Vec<&str> {
    items.iter().map(|i| i.name.as_str()).collect()
}

#[test]
fn directories_are_listed_first() {
    let items = vec![
        item("b.txt", false),
        item("Zoo", true),
        item("A.txt", false),
        item("node_modules", true),
        item("apple", true),
        item("a.TXT", false),
        item("target", false),
    ];
    assert_eq!(
        names(&read_dir_sorted(&items)),
        vec!["apple", "node_modules", "Zoo", "A.txt", "a.TXT", "b.txt", "target"]
    );
    assert_eq!(
        names(&fs_list(&items)),
        vec!["apple", "Zoo", "A.txt", "a.TXT", "b.txt", "target"]
    );
    assert_eq!(fs_list(&items)[0].path, "/w/apple");
    assert_eq!(kind_of(true), "dir");
    assert_eq!(kind_of(false), "file");
}

#[test]
fn sorting_keeps_equal_names_in_order() {
    let items = vec![item("x", false), item("y", false), item("z", true)];
    let folded = vec!["same".to_string(), "same".to_string(), "zz".to_string()];
    assert_eq!(names(&sort_items(&items, &folded)), vec!["z", "x", "y"]);
    assert_eq!(names(&shown_items(vec![item("logs", true), item("logs", false)])), vec!["logs"]);
}

#[test]
fn ignored_directories_are_known() {
    for name in [
        ".git", "node_modules", "target", "dist", "build", "out", "coverage", "vendor", ".venv",
        "venv", "__pycache__", ".next", ".cache", "log", "logs", ".gradle", ".idea",
    ] {
        assert!(is_ignored_dir(name), "{}", name);
    }
    assert!(!is_ignored_dir("src") && !is_ignored_dir("Target") && !is_ignored_dir(""));
}

#[test]
fn images_are_known_by_extension() {
    assert_eq!(image_mime(Some("PNG")), Some("image/png"));
    assert_eq!(image_mime(Some("JpEg")), Some("image/jpeg"));
    assert_eq!(image_mime(Some("rs")), None);
    assert_eq!(image_mime(None), None);
    for (extension, mime) in [
        ("png", "image/png"),
        ("jpg", "image/jpeg"),
        ("jpeg", "image/jpeg"),
        ("gif", "image/gif"),
        ("webp", "image/webp"),
        ("svg", "image/svg+xml"),
        ("ico", "image/x-icon"),
    ] {
        assert_eq!(lower_image_mime(extension), Some(mime));
    }
    assert_eq!(lower_image_mime("PNG"), None);
}

#[test]
fn reading_is_planned_by_size() {
    let png = Some("image/png");
    assert_eq!(plan_read(true, 0, None, "/d").err().unwrap(), "是目录而非文件：/d");
    assert!(matches!(plan_read(false, 8_000_000, png, ""), Ok(ReadPlan::Image { mime: "image/png" })));
    assert!(matches!(plan_read(false, 8_000_001, png, ""), Ok(ReadPlan::TooLarge)));
    assert!(matches!(plan_read(false, 1_500_000, None, ""), Ok(ReadPlan::Text)));
    assert!(matches!(plan_read(false, 1_500_001, None, ""), Ok(ReadPlan::TooLarge)));
}

#[test]
fn contents_are_shown_by_kind() {
    assert!(matches!(fs_read(ReadPlan::TooLarge, 9, b""), FileContent::TooLarge { size: 9 }));
    assert!(matches!(fs_read(ReadPlan::Text, 3, b"a\0b"), FileContent::Binary { size: 3 }));
    match fs_read(ReadPlan::Text, 4, b"a\xffb") {
        FileContent::Text { content, size } => {
            assert_eq!(content, "a\u{fffd}b");
            assert_eq!(size, 4);
        }
        _ => panic!("text expected"),
    }
    match fs_read(ReadPlan::Image { mime: "image/gif" }, 3, b"GIF") {
        FileContent::Image { mime, data } => {
            assert_eq!(mime, "image/gif");
            assert_eq!(data, "R0lG");
        }
        _ => panic!("image expected"),
    }
}

#[test]
fn base64_matches_known_values() {
    assert_eq!(base64_encode(b""), "");
    assert_eq!(base64_encode(b"f"), "Zg==");
    assert_eq!(base64_encode(b"fo"), "Zm8=");
    assert_eq!(base64_encode(b"foo"), "Zm9v");
    assert_eq!(base64_encode(b"foob"), "Zm9vYg==");
    assert_eq!(base64_encode(b"fooba"), "Zm9vYmE=");
    assert_eq!(base64_encode(b"foobar"), "Zm9vYmFy");
    assert_eq!(base64_encode(&[0xfb, 0xff, 0xbf]), "+/+/");
    assert_eq!(base64_encode(&[0, 0, 0, 255]), "AAAA/w==");
}

#[test]
fn being_within_is_handed_down() {
    let root = parts("/w");
    let dir = parts("/w/a");
    let mut file = parts("/w/a/b");
    assert!(is_within(&root, &dir) && is_within(&dir, &file) && is_within(&root, &file));
    file.push(b"c".to_vec());
    assert!(is_within(&root, &file));
}
