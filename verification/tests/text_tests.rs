use labgrid_tui::text::{
    bool_text, chars_of, clear_text, concat2, contains_text, i64_text, join_texts, owned,
    pop_char, push_char, starts_with, string_of, text_eq, text_less, to_lowercase, trim_text,
    u64_text, usize_text, white_space,
};

#[test]
fn decimal_texts_match_std_formatting() {
    for n in [0u64, 7, 10, 99, 100, 20408, 1_000_000, u64::MAX] {
        assert_eq!(u64_text(n), n.to_string());
    }
    for n in [0usize, 1, 42, usize::MAX] {
        assert_eq!(usize_text(n), n.to_string());
    }
    for n in [0i64, 1, -1, 42, -42, 1_000, -1_000, i64::MAX, i64::MIN] {
        assert_eq!(i64_text(n), n.to_string());
    }
}

#[test]
fn extreme_signed_values() {
    assert_eq!(i64_text(i64::MIN), "-9223372036854775808");
    assert_eq!(i64_text(i64::MAX), "9223372036854775807");
    assert_eq!(u64_text(u64::MAX), "18446744073709551615");
}

#[test]
fn bool_texts() {
    assert_eq!(bool_text(true), "true");
    assert_eq!(bool_text(false), "false");
}

#[test]
fn trim_matches_std_trim() {
    for s in [
        "",
        "   ",
        "quit",
        "  quit  ",
        "\tplaces\n",
        "\u{a0}p\u{3000}",
        "a b",
        " \u{2028}x y\u{85} ",
    ] {
        assert_eq!(trim_text(s), s.trim(), "input {:?}", s);
    }
}

#[test]
fn white_space_matches_std() {
    for c in [' ', '\t', '\n', '\r', '\u{b}', '\u{c}', '\u{85}', '\u{a0}', '\u{1680}', '\u{2000}',
        '\u{200a}', '\u{2028}', '\u{2029}', '\u{202f}', '\u{205f}', '\u{3000}', 'a', '0', '\u{200b}',
        '\u{feff}', '_']
    {
        assert_eq!(white_space(c), c.is_whitespace(), "char {:?}", c);
    }
}

#[test]
fn ordering_matches_std_strings() {
    let words = ["", "a", "A", "Alpha", "alpha", "b", "rpi-10", "rpi-2", "é", "z", "zz", "ab"];
    for a in words {
        for b in words {
            assert_eq!(text_less(a, b), a < b, "{:?} < {:?}", a, b);
            assert_eq!(text_eq(a, b), a == b, "{:?} == {:?}", a, b);
        }
    }
}

#[test]
fn prefix_and_substring() {
    assert!(starts_with("ws://coord/ws", "ws://"));
    assert!(!starts_with("http://x", "ws://"));
    assert!(starts_with("abc", ""));
    assert!(!starts_with("ws", "ws://"));
    assert!(contains_text("exp-a/main/serial", "main/ser"));
    assert!(contains_text("abc", ""));
    assert!(!contains_text("abc", "abcd"));
    assert!(!contains_text("abc", "ac"));
}

#[test]
fn lowercase_follows_std() {
    assert_eq!(to_lowercase("RPi-Board"), "rpi-board");
    assert_eq!(to_lowercase("ÄÖÜ"), "äöü");
    assert_eq!(to_lowercase("already"), "already");
}

#[test]
fn join_places_separator_between_items() {
    let v: Vec<String> = vec!["a".into(), "b".into(), "c".into()];
    assert_eq!(join_texts(&v, ", "), "a, b, c");
    assert_eq!(join_texts(&vec!["only".to_string()], ", "), "only");
    assert_eq!(join_texts(&vec![], ", "), "");
}

#[test]
fn string_editing_wrappers() {
    let mut s = String::from("ab");
    push_char(&mut s, 'c');
    assert_eq!(s, "abc");
    assert_eq!(pop_char(&mut s), Some('c'));
    assert_eq!(s, "ab");
    clear_text(&mut s);
    assert_eq!(s, "");
    assert_eq!(pop_char(&mut s), None);
    assert_eq!(s, "");
}

#[test]
fn characters_round_trip() {
    let v = chars_of("a→b");
    assert_eq!(v, vec!['a', '→', 'b']);
    assert_eq!(string_of(&v), "a→b");
    assert_eq!(owned("x"), "x");
    assert_eq!(concat2("http://", "h:1"), "http://h:1");
}
