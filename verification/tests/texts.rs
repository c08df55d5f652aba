use clone_path::text::{ends_with_str, glue, holds_char, trim_end_str, trim_start_char};

#[test]
fn trim_start_char_removes_the_leading_run() {
    assert_eq!(trim_start_char("/foo/bar", '/'), "foo/bar");
    assert_eq!(trim_start_char("///foo/", '/'), "foo/");
    assert_eq!(trim_start_char("foo", '/'), "foo");
    assert_eq!(trim_start_char("", '/'), "");
    assert_eq!(trim_start_char("////", '/'), "");
    assert_eq!(trim_start_char("aab", 'a'), "b");
}

#[test]
fn trim_start_char_counts_characters_not_bytes() {
    assert_eq!(trim_start_char("\u{e9}\u{e9}a\u{e9}", '\u{e9}'), "a\u{e9}");
    assert_eq!(trim_start_char("/\u{fc}x", '/'), "\u{fc}x");
}

#[test]
fn trim_end_str_removes_every_trailing_copy() {
    assert_eq!(trim_end_str("bar.git", ".git"), "bar");
    assert_eq!(trim_end_str("bar.git.git", ".git"), "bar");
    assert_eq!(trim_end_str(".git", ".git"), "");
    assert_eq!(trim_end_str("bar", ".git"), "bar");
    assert_eq!(trim_end_str("git", ".git"), "git");
    assert_eq!(trim_end_str("", ".git"), "");
    assert_eq!(trim_end_str("bar.git/", ".git"), "bar.git/");
    assert_eq!(trim_end_str("aaa", "aa"), "a");
}

#[test]
fn trim_end_str_with_empty_suffix_trims_nothing() {
    assert_eq!(trim_end_str("bar", ""), "bar");
    assert_eq!(trim_end_str("", ""), "");
}

#[test]
fn trim_end_str_counts_characters_not_bytes() {
    assert_eq!(trim_end_str("\u{fc}\u{e9}.git", ".git"), "\u{fc}\u{e9}");
    assert_eq!(trim_end_str("a\u{e9}\u{e9}", "\u{e9}"), "a");
}

#[test]
fn concat_appends() {
    assert_eq!(glue("foo", "/bar"), "foo/bar");
    assert_eq!(glue("", "x"), "x");
    assert_eq!(glue("x", ""), "x");
    assert_eq!(glue("", ""), "");
}

#[test]
fn ends_with_str_compares_the_tail() {
    assert!(ends_with_str("foo.git", ".git"));
    assert!(ends_with_str(".git", ".git"));
    assert!(ends_with_str("foo", ""));
    assert!(ends_with_str("", ""));
    assert!(!ends_with_str("git", ".git"));
    assert!(!ends_with_str("foo.git/", ".git"));
    assert!(!ends_with_str("foo.gix", ".git"));
    assert!(ends_with_str("a\u{e9}b", "\u{e9}b"));
}

#[test]
fn holds_char_finds_the_character() {
    assert!(holds_char("foo/bar", '/'));
    assert!(holds_char("/", '/'));
    assert!(holds_char("foo/", '/'));
    assert!(!holds_char("foo", '/'));
    assert!(!holds_char("", '/'));
    assert!(holds_char("a\u{e9}b", 'b'));
}
