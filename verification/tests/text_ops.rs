use frame_relay::text::{chars_of, find, has_char, occurs_here, same_text, spliced, string_of};

fn text(s: &str) -> Vec<char> {
    s.chars().collect()
}

#[test]
fn chars_and_string_convert_both_ways() {
    assert_eq!(chars_of(""), text(""));
    assert_eq!(chars_of("a\u{e9}\u{1f600}z"), vec!['a', '\u{e9}', '\u{1f600}', 'z']);
    assert_eq!(string_of(&['h', 'i', '\u{e9}']), "hi\u{e9}");
    assert_eq!(string_of(&chars_of("round trip")), "round trip");
}

#[test]
fn same_text_compares_length_and_characters() {
    assert!(same_text(&text(""), &text("")));
    assert!(same_text(&text("abc"), &text("abc")));
    assert!(!same_text(&text("abc"), &text("abd")));
    assert!(!same_text(&text("abc"), &text("ab")));
    assert!(!same_text(&text("ab"), &text("abc")));
}

#[test]
fn occurs_here_checks_one_position() {
    let hay = text("hello world");
    assert!(occurs_here(&hay, &text("hello"), 0));
    assert!(occurs_here(&hay, &text("world"), 6));
    assert!(!occurs_here(&hay, &text("world"), 5));
    assert!(!occurs_here(&hay, &text("world"), 7));
    assert!(occurs_here(&hay, &text(""), 11));
    assert!(!occurs_here(&hay, &text(""), 12));
    assert!(!occurs_here(&hay, &text("d"), usize::MAX));
    assert!(!occurs_here(&text("ab"), &text("abc"), 0));
}

#[test]
fn find_returns_the_leftmost_occurrence() {
    assert_eq!(find(&text("abcabc"), &text("bc")), Some(1));
    assert_eq!(find(&text("abcabc"), &text("abcabc")), Some(0));
    assert_eq!(find(&text("aaab"), &text("ab")), Some(2));
    assert_eq!(find(&text("abc"), &text("")), Some(0));
    assert_eq!(find(&text(""), &text("")), Some(0));
    assert_eq!(find(&text("abc"), &text("d")), None);
    assert_eq!(find(&text("abc"), &text("abcd")), None);
    assert_eq!(find(&text(""), &text("a")), None);
    assert_eq!(find(&text("xxabc"), &text("abc")), Some(2));
}

#[test]
fn has_char_finds_a_character() {
    assert!(has_char(&text("a\"b"), '"'));
    assert!(has_char(&text("\n"), '\n'));
    assert!(!has_char(&text("abc"), '"'));
    assert!(!has_char(&text(""), 'a'));
}

#[test]
fn spliced_replaces_a_range() {
    assert_eq!(spliced(&text("hello world"), 6, 5, &text("there")), text("hello there"));
    assert_eq!(spliced(&text("abc"), 0, 0, &text("xy")), text("xyabc"));
    assert_eq!(spliced(&text("abc"), 3, 0, &text("xy")), text("abcxy"));
    assert_eq!(spliced(&text("abc"), 0, 3, &text("")), text(""));
    assert_eq!(spliced(&text("abc"), 1, 1, &text("12345")), text("a12345c"));
}
