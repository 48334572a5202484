use rustfasttext::input::{non_empty_lines, text_source, TextSource};
use rustfasttext::text::{
    chars_of, contains_chars, eq_ignore_ascii_case, find_char, join,
    rfind_char, str_eq, strip_prefixes_chars, strip_suffixes_chars, trim, trim_char,
};

fn cs(s: &str) -> Vec<char> {
    s.chars().collect()
}

#[test]
fn trim_removes_unicode_white_space() {
    assert_eq!(trim("  \t hello world \r\n"), "hello world");
    assert_eq!(trim("\u{3000}全角空格\u{a0}"), "全角空格");
    assert_eq!(trim("   "), "");
    assert_eq!(trim(""), "");
    assert_eq!(trim("a b"), "a b");
}

#[test]
fn trim_char_removes_quotes_on_both_ends() {
    assert_eq!(trim_char(&cs("\"\"x\"y\"\""), '"'), cs("x\"y"));
    assert_eq!(trim_char(&cs("\"\""), '"'), cs(""));
}

#[test]
fn strip_prefixes_and_suffixes_repeat() {
    assert_eq!(strip_prefixes_chars(&cs("ababc"), &cs("ab")), cs("c"));
    assert_eq!(strip_prefixes_chars(&cs("abc"), &cs("")), cs("abc"));
    assert_eq!(strip_suffixes_chars(&cs("x``````"), &cs("```")), cs("x"));
    assert_eq!(strip_suffixes_chars(&cs("````"), &cs("```")), cs("`"));
}

#[test]
fn find_and_rfind_positions() {
    let s = cs("a{b}c{d}");
    assert_eq!(find_char(&s, '{'), Some(1));
    assert_eq!(rfind_char(&s, '}'), Some(7));
    assert_eq!(find_char(&s, 'z'), None);
    assert_eq!(rfind_char(&cs(""), '}'), None);
}

#[test]
fn contains_searches_substrings() {
    assert!(contains_chars(&cs("the disk is gone"), &cs("disk")));
    assert!(!contains_chars(&cs("the disk"), &cs("disks")));
    assert!(contains_chars(&cs("abc"), &cs("")));
    assert!(contains_chars(&cs("abc"), &cs("abc")));
}

#[test]
fn ascii_case_is_ignored_only_for_ascii() {
    assert!(eq_ignore_ascii_case(&cs("__Label__Disk"), &cs("__label__disk")));
    assert!(!eq_ignore_ascii_case(&cs("Ä"), &cs("ä")));
    assert!(!eq_ignore_ascii_case(&cs("ab"), &cs("abc")));
}

#[test]
fn join_separates_items() {
    let items = vec!["a".to_string(), "b".to_string(), "c".to_string()];
    assert_eq!(join(&items, ", "), "a, b, c");
    assert_eq!(join(&items[..1], ", "), "a");
    assert_eq!(join(&[], ", "), "");
}

#[test]
fn lines_are_trimmed_and_blank_ones_dropped() {
    assert_eq!(
        non_empty_lines("  first \r\n\n\t\nsecond line\nlast"),
        vec!["first".to_string(), "second line".to_string(), "last".to_string()]
    );
    assert_eq!(non_empty_lines(""), Vec::<String>::new());
    assert_eq!(non_empty_lines("\n\n  \n"), Vec::<String>::new());
    assert_eq!(non_empty_lines("one\n"), vec!["one".to_string()]);
}

#[test]
fn non_empty_lines_is_stable() {
    let once = non_empty_lines(" a \n\n b\r\n");
    let again = non_empty_lines(&once.join("\n"));
    assert_eq!(once, again);
}

#[test]
fn chars_and_equality() {
    assert_eq!(chars_of("中文ab"), vec!['中', '文', 'a', 'b']);
    assert!(str_eq("abc", "abc"));
    assert!(!str_eq("abc", "abd"));
}

#[test]
fn text_source_priority() {
    assert_eq!(text_source(Some("t".to_string()), true), TextSource::Given("t".to_string()));
    assert_eq!(text_source(None, true), TextSource::File);
    assert_eq!(text_source(None, false), TextSource::Stdin);
}
