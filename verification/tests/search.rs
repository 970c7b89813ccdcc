use dsh_desktop::search::{
    collect_paths, find_hit, has_word_boundary_match, is_word_char, looks_binary, match_of,
    path_hits, path_matches, scan_text, search_in_dir, word_flags, ContentScan, Query,
    Search, SearchOutcome,
};
use dsh_desktop::walk::{EntryKind, Walk, WalkEntry};

fn chars(s: &str) -> Vec<char> {
    s.chars().collect()
}

/// Files and directories in the order of a walk; directories have no contents.
struct Tree {
    entries: Vec<(String, bool)>,
    contents: Vec<Option<Vec<u8>>>,
}

impl Tree {
    fn new() -> Tree {
        Tree { entries: vec![], contents: vec![] }
    }

    fn dir(mut self, path: &str) -> Tree {
        self.entries.push((path.to_string(), true));
        self.contents.push(None);
        self
    }

    fn file(mut self, path: &str, content: &str) -> Tree {
        self.entries.push((path.to_string(), false));
        self.contents.push(Some(content.as_bytes().to_vec()));
        self
    }

    fn search(&self, text: &str, case_sensitive: bool, whole_word: bool) -> SearchOutcome {
        search_in_dir(self.entries.clone(), &self.contents, text, case_sensitive, whole_word)
    }
}

#[test]
fn search_finds_and_previews_original_case() {
    let dir = Tree::new()
        .file("a.txt", "Hello Bridge\nsecond line\n")
        .dir("sub")
        .file("sub/b.md", "nothing here\nBRIDGE inside\n");

    let out = dir.search("bridge", false, false);
    assert_eq!(out.matches.len(), 2, "{:?}", out.matches);
    assert!(out.matches[0].preview.starts_with("Hello Bridge"));
    assert_eq!(out.matches[0].line, 1);
    assert!(out.matches[1].preview.starts_with("BRIDGE inside"));
    assert_eq!(out.matches[1].file, "sub/b.md");
    assert!(out.paths.is_empty(), "{:?}", out.paths);

    let cs = dir.search("BRIDGE", true, false);
    assert_eq!(cs.matches.len(), 1);
    assert_eq!(cs.matches[0].line, 2);

    let byname = dir.search("a.txt", false, false);
    assert_eq!(byname.paths.len(), 1);
    assert_eq!(byname.paths[0].path, "a.txt");
    assert_eq!(byname.paths[0].kind, "file");
    let bydir = dir.search("sub", false, false);
    assert!(bydir.paths.iter().any(|h| h.path == "sub" && h.kind == "dir"), "{:?}", bydir.paths);

    let empty = dir.search("", false, false);
    assert!(empty.matches.is_empty() && empty.paths.is_empty());
}

#[test]
fn search_whole_word_filters_substrings() {
    let dir = Tree::new()
        .file("a.rs", "let bridge_x = 1;\nlet bridge = 2;\nlet Bridge = 3;\n")
        .file("data.txt", "x\n");

    let sub = dir.search("bridge", false, false);
    assert_eq!(sub.matches.len(), 3, "{:?}", sub.matches);

    let ww = dir.search("bridge", false, true);
    assert_eq!(ww.matches.len(), 2, "{:?}", ww.matches);
    assert_eq!(ww.matches[0].line, 2);
    assert_eq!(ww.matches[1].line, 3);

    let path_sub = dir.search("a", false, false);
    assert!(path_sub.paths.iter().any(|p| p.path == "a.rs"));
    assert!(path_sub.paths.iter().any(|p| p.path == "data.txt"));
    let path_ww = dir.search("a", false, true);
    assert!(path_ww.paths.iter().any(|p| p.path == "a.rs"), "{:?}", path_ww.paths);
    assert!(!path_ww.paths.iter().any(|p| p.path == "data.txt"), "{:?}", path_ww.paths);
}

#[test]
fn search_real_project_finds_bridge() {
    let root = Tree::new()
        .dir("plugins")
        .dir("src-tauri")
        .dir("plugins/dsh-sidebar-bridge")
        .dir("src-tauri/src")
        .file("plugins/dsh-sidebar-bridge/index.js", "// dsh-sidebar-bridge\n")
        .file("src-tauri/src/sidebar.rs", "let p = \".dsh/sidebar-bridge.port\";\n");
    let out = root.search("sidebar-bridge", false, false);
    assert!(!out.matches.is_empty());
    assert!(out
        .matches
        .iter()
        .any(|h| h.file.contains("dsh-sidebar-bridge") || h.file.contains("sidebar.rs")));
    assert!(out.paths.iter().any(|p| p.kind == "dir" && p.path.contains("sidebar-bridge")));
}

#[test]
fn walk_is_breadth_first_and_skips_ignored() {
    let entry = |id: usize, name: &str, kind: EntryKind| WalkEntry {
        id,
        name: name.to_string(),
        kind,
        size: Some(1),
    };
    let names = ["", "deep", "node_modules", "root.txt", "deeper", "mid.txt", "low.txt", "pkg.js"];
    let read = |dir: usize| match dir {
        0 => vec![
            entry(1, "deep", EntryKind::Dir),
            entry(2, "node_modules", EntryKind::Dir),
            entry(3, "root.txt", EntryKind::File),
        ],
        1 => vec![entry(4, "deeper", EntryKind::Dir), entry(5, "mid.txt", EntryKind::File)],
        2 => vec![entry(7, "pkg.js", EntryKind::File)],
        4 => vec![entry(6, "low.txt", EntryKind::File)],
        _ => vec![],
    };
    let mut walk = Walk::new(0);
    while let Some(dir) = walk.next_dir(false) {
        walk.take_entries(&read(dir));
    }
    let found: Vec<&str> = walk.walk_files().into_iter().map(|id| names[id]).collect();
    assert_eq!(found, vec!["root.txt", "mid.txt", "low.txt"]);
    assert_eq!(walk.out, vec![(1, true), (3, false), (4, true), (5, false), (6, false)]);
}

#[test]
fn walk_skips_hidden_and_large() {
    let mut walk = Walk::new(0);
    assert_eq!(walk.next_dir(false), Some(0));
    walk.take_entries(&vec![
        WalkEntry { id: 1, name: ".hidden".to_string(), kind: EntryKind::Dir, size: None },
        WalkEntry { id: 2, name: ".env".to_string(), kind: EntryKind::File, size: Some(1_000_000) },
        WalkEntry { id: 3, name: "big".to_string(), kind: EntryKind::File, size: Some(1_000_001) },
        WalkEntry { id: 4, name: "lost".to_string(), kind: EntryKind::File, size: None },
        WalkEntry { id: 5, name: "pipe".to_string(), kind: EntryKind::Other, size: Some(0) },
    ]);
    assert_eq!(walk.out, vec![(2, false)]);
    assert_eq!(walk.next_dir(false), None);
}

#[test]
fn walk_is_bounded() {
    let mut walk = Walk::new(0);
    walk.next_dir(false);
    let mut entries: Vec<WalkEntry> = (1..=9_999)
        .map(|id| WalkEntry { id, name: format!("f{}", id), kind: EntryKind::File, size: Some(0) })
        .collect();
    entries.push(WalkEntry { id: 10_000, name: "d".to_string(), kind: EntryKind::Dir, size: None });
    entries.push(WalkEntry { id: 10_001, name: "e".to_string(), kind: EntryKind::Dir, size: None });
    walk.take_entries(&entries);
    assert_eq!(walk.out.len(), 10_000);
    assert!(!walk.done);
    assert_eq!(walk.next_dir(false), None);
    let mut stopped = Walk::new(0);
    assert_eq!(stopped.next_dir(true), None);
}

#[test]
fn words_have_boundaries() {
    assert!(is_word_char('a') && is_word_char('_') && is_word_char('9') && is_word_char('词'));
    assert!(!is_word_char('-') && !is_word_char(' ') && !is_word_char('。'));
    let hay = chars("foo-bar foobar");
    let words = word_flags(&hay);
    assert_eq!(words[3], false);
    assert!(has_word_boundary_match(&hay, &chars("foo"), &words));
    assert!(has_word_boundary_match(&hay, &chars("bar"), &words));
    assert!(!has_word_boundary_match(&hay, &chars("oo"), &words));
    assert!(path_matches(&hay, &chars("oo"), &words, false));
    assert!(!path_matches(&hay, &chars("zz"), &words, false));
    let flags = vec![true, true, false, true];
    assert_eq!(find_hit(&chars("aaaa"), &chars("a"), &flags, true, 0), Some(3));
    assert_eq!(find_hit(&chars("aaaa"), &chars("a"), &flags, false, 1), Some(1));
    assert_eq!(find_hit(&chars("aaaa"), &chars("b"), &flags, false, 0), None);
}

#[test]
fn matches_tell_line_and_column() {
    let text = "első\nmásodik ñandú ñandú\n";
    let hay = chars(text);
    let at = text.chars().position(|c| c == 'ñ').unwrap();
    let found = match_of("f", text, &hay, at);
    assert_eq!(found.line, 2);
    assert_eq!(found.col, "második ".len());
    assert_eq!(found.preview, "második ñandú ñandú");
    let needle = chars("ñandú");
    let all = scan_text("f", text, &hay, &needle, &vec![], false, 50);
    assert_eq!(all.len(), 2);
    assert_eq!(all[1].col, "második ñandú ".len());
    let one = scan_text("f", text, &hay, &needle, &vec![], false, 1);
    assert_eq!(one.len(), 1);
}

#[test]
fn previews_are_cut_after_two_hundred_characters() {
    let line = format!("needle{}", "字".repeat(300));
    let out = Tree::new().file("f", &line).search("needle", true, false);
    assert_eq!(out.matches[0].preview.chars().count(), 200);
    assert_eq!(out.matches[0].col, 0);
}

#[test]
fn hits_do_not_overlap() {
    let out = Tree::new().file("f", "aaaaa").search("aa", true, false);
    let cols: Vec<usize> = out.matches.iter().map(|m| m.col).collect();
    assert_eq!(cols, vec![0, 2]);
}

#[test]
fn folding_may_move_bytes() {
    // 'İ' has two bytes, its lower case three.
    let text = "İé needle";
    let folded = chars(&text.to_lowercase());
    let at = folded.iter().position(|c| *c == 'n').unwrap();
    assert_eq!(match_of("f", text, &folded, at).preview, text);
    let tree = Tree::new().file("f", text);
    assert_eq!(tree.search("needle", false, false).matches[0].preview, text);
    assert_eq!(tree.search("needle", true, false).matches[0].preview, text);
}

#[test]
fn folded_search_previews_the_line_itself() {
    // The Kelvin sign has three bytes, its lower case one.
    let out = Tree::new().file("k.txt", "\u{212A} bridge\n").search("bridge", false, false);
    assert_eq!(out.matches.len(), 1);
    assert_eq!(out.matches[0].line, 1);
    assert_eq!(out.matches[0].preview, "\u{212A} bridge");
    let text = "\u{212A}\u{212A}\r\nİ BRIDGE\r\nend";
    let out = Tree::new().file("k.txt", text).search("bridge", false, true);
    assert_eq!(out.matches[0].line, 2);
    assert_eq!(out.matches[0].preview, "İ BRIDGE\r");
    let few = match_of("f", "only", &chars("a\nb\nneedle"), 4);
    assert_eq!((few.line, few.col, few.preview.as_str()), (3, 0, ""));
}

#[test]
fn search_asks_for_one_file_after_the_other() {
    let entries = vec![
        ("a".to_string(), false),
        ("dir".to_string(), true),
        ("b".to_string(), false),
    ];
    let mut search = Search::new(entries, "x", true, false).unwrap();
    assert_eq!(search.next_file(), Some(0));
    search.take_file(0, None);
    assert_eq!(search.next_file(), Some(2));
    search.take_file(2, Some(b"x"));
    assert_eq!(search.next_file(), None);
    let out = search.finish();
    assert_eq!(out.matches.len(), 1);
    assert_eq!(out.matches[0].file, "b");
    assert!(Search::new(vec![], "", true, false).is_none());
}

#[test]
fn binary_and_unreadable_files_are_passed_over() {
    assert!(looks_binary(b"a\0b"));
    assert!(!looks_binary(b"ab"));
    let mut late = vec![b'x'; 8192];
    late.push(0);
    assert!(!looks_binary(&late));
    late[8191] = 0;
    assert!(looks_binary(&late));
    let entries = vec![("f".to_string(), false), ("g".to_string(), false), ("h".to_string(), false)];
    let contents = vec![Some(b"hit\0".to_vec()), None, Some(b"\xffhit".to_vec())];
    let out = search_in_dir(entries, &contents, "hit", false, false);
    assert_eq!(out.matches.len(), 1);
    assert_eq!(out.matches[0].file, "h");
    assert_eq!(out.matches[0].preview, "\u{fffd}hit");
}

#[test]
fn one_file_brings_fifty_matches() {
    let out = Tree::new().file("f", &"x\n".repeat(49)).search("x", true, false);
    assert_eq!(out.matches.len(), 49);
    assert!(!out.truncated);
    let out = Tree::new().file("f", &"x\n".repeat(50)).search("x", true, false);
    assert_eq!(out.matches.len(), 50);
    assert!(out.truncated);
}

#[test]
fn a_search_brings_a_thousand_matches() {
    let mut tree = Tree::new();
    for i in 0..30 {
        tree = tree.file(&format!("f{}", i), &"x\n".repeat(49));
    }
    let out = tree.search("x", true, false);
    assert_eq!(out.matches.len(), 1000);
    assert!(out.truncated);
}

#[test]
fn two_thousand_files_are_searched() {
    let query = Query::new("zz", true, false).unwrap();
    let mut scan = ContentScan::new();
    for _ in 0..2000 {
        assert!(scan.wants_file());
        scan.take_file(&query, "f", b"nothing");
    }
    assert!(scan.wants_file() && !scan.truncated);
    scan.take_file(&query, "f", b"zz\0");
    assert!(!scan.done);
    scan.take_file(&query, "f", b"zz");
    assert!(scan.done && scan.truncated && scan.matches.is_empty());
    assert!(!scan.wants_file());
}

#[test]
fn three_hundred_paths_are_listed() {
    let entries: Vec<(String, bool)> = (0..400).map(|i| (format!("hit{}", i), i % 2 == 1)).collect();
    let query = Query::new("HIT", false, false).unwrap();
    let scan = path_hits(&query, &entries);
    assert_eq!(scan.paths.len(), 300);
    assert!(scan.truncated);
    assert_eq!(scan.files.len(), 150);
    let hit = vec![false, true];
    let few = vec![("a".to_string(), false), ("b".to_string(), true)];
    let scan = collect_paths(&few, &hit);
    assert_eq!(scan.files, vec![0]);
    assert_eq!(scan.paths[0].path, "b");
    assert!(!scan.truncated);
}

#[test]
fn queries_are_folded() {
    let query = Query::new("ÄB", false, true).unwrap();
    assert_eq!(query.needle, chars("äb"));
    assert!(query.whole_word);
    assert_eq!(Query::new("ÄB", true, false).unwrap().needle, chars("ÄB"));
    assert!(Query::new("", false, false).is_none());
}
