use dsh_desktop::bytes::{byte_len, is_on_boundary, slice_bytes};
use dsh_desktop::number::{
    debug_code_of, decimal_of, parse_digits, parse_signed, parse_unsigned, signed_decimal_of,
};
use dsh_desktop::sort::{sort_order, SortKey};
use dsh_desktop::files::ItemKey;
use dsh_desktop::text::{
    contains, cut_before, ends_with, find_from, is_white, join, lines_of, split_on, starts_with,
    strip_leading, strip_prefix, strip_prefixes, strip_trailing, tail_of, trim_str,
};

fn chars(s: &str) -> Vec<char> {
    s.chars().collect()
}

#[test]
fn white_space_is_that_of_unicode() {
    for code in 0..=0x10ffffu32 {
        if let Some(c) = char::from_u32(code) {
            assert_eq!(is_white(c), c.is_whitespace(), "{:x}", code);
        }
    }
}

#[test]
fn texts_are_trimmed_and_split() {
    for s in ["", " ", " a ", "\u{3000}a b\u{a0}\n", "a", "\r\n"] {
        assert_eq!(trim_str(s), s.trim());
    }
    for s in ["", "a", "a\n", "a\r\nb\r", "\n\n", "a\rb\n\r\n", "x\r\r\n"] {
        let expected: Vec<Vec<char>> = s.lines().map(chars).collect();
        assert_eq!(lines_of(&chars(s)), expected, "{:?}", s);
    }
    for s in ["", ".", "a.b", "..a", "a."] {
        let expected: Vec<Vec<char>> = s.split('.').map(chars).collect();
        assert_eq!(split_on(&chars(s), '.'), expected, "{:?}", s);
    }
}

#[test]
fn texts_are_searched() {
    let hay = chars("abcabc");
    assert_eq!(find_from(&hay, &chars("ca"), 0), Some(2));
    assert_eq!(find_from(&hay, &chars("abc"), 1), Some(3));
    assert_eq!(find_from(&hay, &chars("x"), 0), None);
    assert_eq!(find_from(&hay, &chars(""), 6), Some(6));
    assert!(contains(&hay, &chars("bca")) && !contains(&hay, &chars("cb")));
    assert!(starts_with(&hay, "abc") && !starts_with(&hay, "b"));
    assert!(ends_with(&hay, "bc") && !ends_with(&hay, "ab") && !ends_with(&hay, "xabcabc"));
    assert_eq!(strip_prefix(&hay, "ab"), Some(chars("cabc")));
    assert_eq!(strip_prefix(&hay, "b"), None);
    assert_eq!(strip_prefixes(&chars("ababc"), "ab"), chars("c"));
    assert_eq!(strip_prefixes(&chars("abc"), ""), chars("abc"));
    assert_eq!(strip_leading(&chars("\"\"a\""), '"'), chars("a\""));
    assert_eq!(strip_trailing(&chars("\"a\"\""), '"'), chars("\"a"));
    assert_eq!(cut_before(&chars("main...origin/main"), "..."), chars("main"));
    assert_eq!(cut_before(&chars("main"), "..."), chars("main"));
    assert_eq!(join(&vec!["a".to_string(), "b".to_string()], ", "), "a, b");
    assert_eq!(join(&vec![], ", "), "");
    assert_eq!(tail_of("错误尾部", 2), "尾部");
    assert_eq!(tail_of("ab", 5), "ab");
}

#[test]
fn numbers_are_read_and_written() {
    for n in [0u64, 9, 10, 305, u64::MAX] {
        assert_eq!(decimal_of(n), n.to_string());
        assert_eq!(parse_digits(&chars(&decimal_of(n)), u64::MAX), Some(n));
    }
    for n in [0i32, -1, 7, i32::MIN, i32::MAX] {
        assert_eq!(signed_decimal_of(n), n.to_string());
        assert_eq!(debug_code_of(Some(n)), format!("{:?}", Some(n)));
    }
    assert_eq!(debug_code_of(None), "None");
    for s in ["", "+", "-", "+1", "-1", "--1", "007", "1 ", "9223372036854775807",
        "9223372036854775808", "-9223372036854775808", "-9223372036854775809", "１"] {
        assert_eq!(parse_signed(&chars(s)), s.parse::<i64>().ok(), "{:?}", s);
        assert_eq!(parse_unsigned(&chars(s), u64::MAX), s.parse::<u64>().ok(), "{:?}", s);
        assert_eq!(
            parse_unsigned(&chars(s), u16::MAX as u64),
            s.parse::<u16>().ok().map(|n| n as u64),
            "{:?}",
            s
        );
    }
}

#[test]
fn texts_are_cut_by_bytes() {
    let s = "a中b";
    assert_eq!(byte_len(s), 5);
    assert!(is_on_boundary(s, 1) && is_on_boundary(s, 4) && is_on_boundary(s, 5));
    assert!(!is_on_boundary(s, 2) && !is_on_boundary(s, 6));
    assert_eq!(slice_bytes(s, 1, 4), "中");
    assert_eq!(slice_bytes(s, 0, 5), s);
    assert_eq!(slice_bytes(s, 1, 1), "");
}

#[test]
fn sorting_is_stable() {
    let key = |is_dir: bool, name: &str| ItemKey { is_dir, folded: chars(name) };
    let keys = vec![key(false, "b"), key(true, "z"), key(false, "a"), key(false, "b"), key(true, "")];
    assert_eq!(sort_order(&keys), vec![4, 1, 2, 0, 3]);
    assert!(keys[1].is_before(&keys[0]) && !keys[0].is_before(&keys[3]));
    let none: Vec<ItemKey> = vec![];
    assert!(sort_order(&none).is_empty());
}
