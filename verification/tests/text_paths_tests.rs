use ghgrab_gui::paths::{breadcrumbs_for, join_strings, parent_path, split_path};
use ghgrab_gui::text::{concat2, concat3, contains_str, decimal_string, str_eq, trim, white_space};

fn strings(v: &[&str]) -> Vec<String> {
    v.iter().map(|s| s.to_string()).collect()
}

#[test]
fn decimal_notation() {
    assert_eq!(decimal_string(0), "0");
    assert_eq!(decimal_string(7), "7");
    assert_eq!(decimal_string(10), "10");
    assert_eq!(decimal_string(12345), "12345");
    assert_eq!(decimal_string(u64::MAX), u64::MAX.to_string());
}

#[test]
fn string_equality_and_search() {
    assert!(str_eq("abc", "abc"));
    assert!(!str_eq("abc", "abd"));
    assert!(!str_eq("abc", "ab"));
    assert!(str_eq("héllo", "héllo"));
    assert!(!str_eq("é", "e"));
    assert!(str_eq("", ""));
    assert!(contains_str("hello world", "lo w"));
    assert!(contains_str("hello", ""));
    assert!(contains_str("héllo", "él"));
    assert!(!contains_str("hello", "hello!"));
    assert!(!contains_str("", "a"));
}

#[test]
fn concatenation() {
    assert_eq!(concat2("a", "bc"), "abc");
    assert_eq!(concat3("x", "", "z"), "xz");
}

#[test]
fn split_at_slashes() {
    assert_eq!(split_path("a/b/c"), strings(&["a", "b", "c"]));
    assert_eq!(split_path("a//b"), strings(&["a", "", "b"]));
    assert_eq!(split_path("/a"), strings(&["", "a"]));
    assert_eq!(split_path("a/"), strings(&["a", ""]));
    assert_eq!(split_path(""), strings(&[""]));
}

#[test]
fn breadcrumbs_of_root_and_folders() {
    assert!(breadcrumbs_for("").is_empty());
    assert_eq!(breadcrumbs_for("src"), strings(&["src"]));
    assert_eq!(breadcrumbs_for("src/bin/tools"), strings(&["src", "bin", "tools"]));
}

#[test]
fn parents() {
    assert_eq!(parent_path("a/b/c"), "a/b");
    assert_eq!(parent_path("a"), "");
    assert_eq!(parent_path(""), "");
    assert_eq!(parent_path("a/"), "a");
}

#[test]
fn join_parts() {
    assert_eq!(join_strings(&strings(&["a", "b", "c"]), ", "), "a, b, c");
    assert_eq!(join_strings(&strings(&["only"]), "/"), "only");
    assert_eq!(join_strings(&strings(&[]), "/"), "");
}

#[test]
fn join_of_split_gives_the_path_back() {
    for p in ["a/b/c", "x", "a//b", "/lead", "trail/"] {
        assert_eq!(join_strings(&split_path(p), "/"), p);
    }
}

#[test]
fn trimming_unicode_whitespace() {
    assert_eq!(trim("  a b \t\n"), "a b");
    assert_eq!(trim("\u{3000}x\u{00A0}"), "x");
    assert_eq!(trim(" \u{2028} "), "");
    assert_eq!(trim(""), "");
    assert_eq!(trim("x"), "x");
    for c in ['\t', '\n', '\u{0B}', '\u{0C}', '\r', ' ', '\u{85}', '\u{A0}', '\u{1680}', '\u{2000}',
        '\u{200A}', '\u{2028}', '\u{2029}', '\u{202F}', '\u{205F}', '\u{3000}'] {
        assert!(white_space(c), "{:?}", c);
        assert_eq!(white_space(c), c.is_whitespace());
    }
    for c in ['a', '\u{200B}', '\u{180E}', '\u{FEFF}', '_'] {
        assert!(!white_space(c), "{:?}", c);
        assert_eq!(white_space(c), c.is_whitespace());
    }
    for code in 0u32..0x3100 {
        if let Some(c) = char::from_u32(code) {
            assert_eq!(white_space(c), c.is_whitespace(), "{:#x}", code);
        }
    }
}
