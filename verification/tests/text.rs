//! Texts and paths, held against what the standard library does.

use wgd::paths::{is_absolute, is_rooted, is_within, join_path};
use wgd::text::{
    contains, decimal_text, eq_ignoring_case, join, lines, pad, parse_u32, replace, starts_with,
    trim,
};

const TEXTS: [&str; 12] = [
    "",
    "a",
    "aa",
    "aaa",
    "abab",
    "\n",
    "a\r\nb\n\nc",
    "a\r",
    " \t x \u{a0}",
    "ÄÖ\u{2003}",
    "[Interface]",
    "\r\n",
];

#[test]
fn texts_are_searched_and_replaced() {
    for text in TEXTS {
        for part in TEXTS {
            assert_eq!(contains(text, part), text.contains(part));
            assert_eq!(starts_with(text, part), text.starts_with(part));
            if !part.is_empty() {
                assert_eq!(replace(text, part, "-a-"), text.replace(part, "-a-"));
            }
        }
    }
}

#[test]
fn texts_are_cut() {
    for text in TEXTS {
        assert_eq!(lines(text), text.lines().collect::<Vec<&str>>());
        assert_eq!(trim(text), text.trim());
    }
}

#[test]
fn case_is_ignored_for_ascii_alone() {
    assert!(eq_ignoring_case("mTu", "MTU"));
    assert!(!eq_ignoring_case("mtu ", "mtu"));
    assert!(!eq_ignoring_case("ä", "Ä"));
    assert!(!eq_ignoring_case("[", "{"));
}

#[test]
fn numbers_are_written_and_read() {
    for number in [0, 9, 10, 499, 65535, u64::MAX] {
        assert_eq!(decimal_text(number), number.to_string());
    }
    for text in [
        "0",
        "007",
        "+5",
        "-5",
        "",
        "+",
        "4294967295",
        "4294967296",
        "99999999999999999999999999",
        "1 ",
        "0x1",
        "١",
    ] {
        assert_eq!(parse_u32(text), text.parse::<u32>().ok());
    }
}

#[test]
fn texts_are_laid_out() {
    assert_eq!(pad("ab", 4), format!("{:<4}", "ab"));
    assert_eq!(pad("äb", 4), format!("{:<4}", "äb"));
    assert_eq!(pad("abcde", 4), "abcde");
    let items = vec!["a".to_string(), String::new(), "b".to_string()];
    assert_eq!(join(&items, ", "), items.join(", "));
    assert_eq!(join(&Vec::new(), ", "), "");
}

#[test]
fn paths_are_taken_apart() {
    let paths = [
        "", "/", "a", "/a", "/a/", "//a", "/a/b", "/a/./b", "/a/../b", "./a", ".", "..", "/ab",
        "a/b", "/.", "/a//b/.",
    ];
    for path in paths {
        let std_path = std::path::Path::new(path);
        assert_eq!(is_absolute(path), std_path.is_absolute());
        assert_eq!(is_rooted(path.as_bytes()), std_path.is_absolute());
        for other in paths {
            assert_eq!(
                is_within(path.as_bytes(), other.as_bytes()),
                std_path.starts_with(other),
                "{path:?} within {other:?}"
            );
            assert_eq!(
                join_path(path, other),
                std_path.join(other).to_str().unwrap(),
                "{path:?} joined with {other:?}"
            );
        }
    }
}
