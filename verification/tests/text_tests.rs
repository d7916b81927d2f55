use ansible_stat::text::{
    chars_of, digits_of, split_chars, split_words, strip_prefix_chars,
    trim_chars, CharClass,
};

fn v(s: &str) -> Vec<char> {
    s.chars().collect()
}

fn strs(p: &[Vec<char>]) -> Vec<String> {
    p.iter().map(|x| x.iter().collect()).collect()
}

#[test]
fn split_keeps_empty_pieces() {
    assert_eq!(strs(&split_chars(&v("a::b:"), CharClass::Exactly(':'))), vec!["a", "", "b", ""]);
    assert_eq!(strs(&split_chars(&v(""), CharClass::Exactly(':'))), vec![""]);
}

#[test]
fn words_drop_whitespace_runs() {
    assert_eq!(strs(&split_words(&v("  a\t b\u{3000}c \n"))), vec!["a", "b", "c"]);
    assert!(split_words(&v(" \u{85} ")).is_empty());
}

#[test]
fn trim_both_ends() {
    let t = trim_chars(&v("\u{a0} x y \r\n"), CharClass::Whitespace);
    assert_eq!(t.iter().collect::<String>(), "x y");
    let t = trim_chars(&v("--a-b--"), CharClass::Exactly('-'));
    assert_eq!(t.iter().collect::<String>(), "a-b");
    assert!(trim_chars(&v("----"), CharClass::Exactly('-')).is_empty());
}

#[test]
fn strip_prefix_of_chars() {
    assert_eq!(strip_prefix_chars(&v("charset=utf-8"), &v("charset=")), Some(v("utf-8")));
    assert_eq!(strip_prefix_chars(&v("chars"), &v("charset=")), None);
    assert_eq!(strip_prefix_chars(&v("xcharset="), &v("charset=")), None);
}

#[test]
fn digits_in_bases() {
    assert_eq!(digits_of(0, 10), vec!['0']);
    assert_eq!(digits_of(33188, 8), v("100644"));
    assert_eq!(digits_of(u64::MAX, 10), v("18446744073709551615"));
}

#[test]
fn chars_and_strings() {
    assert_eq!(chars_of("héllo"), v("héllo"));
}
