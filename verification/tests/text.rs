use assignments::text::{chars_of, contains_text, matches_at, same_text, starts_with, width_of};

#[test]
fn characters_in_order() {
    assert_eq!(chars_of("a\u{e9}\u{4e2d}"), vec!['a', '\u{e9}', '\u{4e2d}']);
    assert_eq!(chars_of(""), Vec::<char>::new());
}

#[test]
fn substring_search() {
    assert!(contains_text("application/xhtml text/html", "text/html"));
    assert!(contains_text("abc", ""));
    assert!(contains_text("", ""));
    assert!(contains_text("abc", "abc"));
    assert!(contains_text("aab", "ab"));
    assert!(!contains_text("abc", "abcd"));
    assert!(!contains_text("", "a"));
    assert!(!contains_text("abab", "bb"));
}

#[test]
fn prefixes_and_equality() {
    assert!(starts_with("https://x", "http"));
    assert!(starts_with("http", ""));
    assert!(!starts_with("htt", "http"));
    assert!(same_text("stop-origin", "stop-origin"));
    assert!(!same_text("stop-origin", "stop-origi"));
    assert!(!same_text("a", "b"));
    assert!(same_text("", ""));
}

#[test]
fn windows() {
    let hay = vec!['a', 'b', 'c'];
    assert!(matches_at(&hay, &vec!['b', 'c'], 1));
    assert!(!matches_at(&hay, &vec!['b', 'c'], 2));
    assert!(matches_at(&hay, &vec![], 3));
    assert!(!matches_at(&hay, &vec![], 4));
}

#[test]
fn widths_in_utf8() {
    assert_eq!(width_of('a'), 1);
    assert_eq!(width_of('\u{7f}'), 1);
    assert_eq!(width_of('\u{80}'), 2);
    assert_eq!(width_of('\u{7ff}'), 2);
    assert_eq!(width_of('\u{800}'), 3);
    assert_eq!(width_of('\u{ffff}'), 3);
    assert_eq!(width_of('\u{10000}'), 4);
    assert_eq!(width_of('\u{10ffff}'), 4);
    for c in ['a', '\u{e9}', '\u{4e2d}', '\u{1f600}'] {
        assert_eq!(width_of(c), c.len_utf8());
    }
}
