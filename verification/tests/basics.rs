use kingfisher::order::{rank, sort_dedup, Rank};
use kingfisher::text::{
    chars_of, contains, copy_texts, i64_to_text, parse_size, to_hex, u64_to_text,
};

fn strings(texts: &[&str]) -> Vec<String> {
    texts.iter().map(|t| t.to_string()).collect()
}

#[test]
fn hexadecimal_digits() {
    assert_eq!(to_hex(&[]), "");
    assert_eq!(to_hex(&[0, 9, 10, 15, 16, 255]), "00090a0f10ff");
}

#[test]
fn decimal_digits() {
    assert_eq!(u64_to_text(0), "0");
    assert_eq!(u64_to_text(u64::MAX), "18446744073709551615");
    assert_eq!(i64_to_text(-40), "-40");
    assert_eq!(i64_to_text(i64::MIN), "-9223372036854775808");
    assert_eq!(i64_to_text(i64::MAX), "9223372036854775807");
}

#[test]
fn sizes_read_back() {
    for n in [0, 1, 9, 10, 12_345, usize::MAX] {
        assert_eq!(parse_size(&n.to_string()), Some(n));
        assert_eq!(parse_size(&format!("+{n}")), Some(n));
    }
    for text in ["", "+", "-", "-1", "++1", "1 ", "0x10", "\u{661}", "18446744073709551616"] {
        assert_eq!(parse_size(text), text.parse::<usize>().ok());
        assert_eq!(parse_size(text), None);
    }
}

#[test]
fn texts_that_occur_in_others() {
    assert!(contains("abcabd", "abd"));
    assert!(contains("abc", ""));
    assert!(contains("", ""));
    assert!(contains("abc", "abc"));
    assert!(!contains("abc", "abcd"));
    assert!(!contains("abc", "ac"));
    assert!(contains("\u{e9}t\u{e9}", "t\u{e9}"));
}

#[test]
fn characters_and_copies() {
    assert_eq!(chars_of("a\u{1f980}"), vec!['a', '\u{1f980}']);
    assert_eq!(copy_texts(&strings(&["x", "", "y"])), strings(&["x", "", "y"]));
}

#[test]
fn strings_rank_by_their_bytes() {
    assert_eq!(rank("", ""), Rank::Same);
    assert_eq!(rank("", "a"), Rank::Before);
    assert_eq!(rank("ab", "a"), Rank::After);
    assert_eq!(rank("Z", "a"), Rank::Before);
    assert_eq!(rank("\u{ffff}", "\u{10000}"), Rank::Before);
}

#[test]
fn sorting_drops_repetitions() {
    let list = strings(&["b", "a", "", "b", "\u{e9}", "ab", "a"]);
    let mut expect = list.clone();
    expect.sort_unstable();
    expect.dedup();
    let sorted = sort_dedup(&list);
    assert_eq!(sorted, expect);
    assert_eq!(sort_dedup(&sorted), sorted);
    assert_eq!(sort_dedup(&Vec::new()), Vec::<String>::new());
}
