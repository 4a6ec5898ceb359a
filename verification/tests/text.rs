use typst_upgrade::decimal::push_decimal;
use typst_upgrade::text::{chars_of, same_text, scan, string_of, string_of_range, CharClass};

#[test]
fn chars_of_and_string_of_are_inverse() {
    for text in ["", "a", "héllo wörld", "\"@preview/pack:1.0.0\"", "日本語\n"] {
        let chars = chars_of(text);
        assert_eq!(chars, text.chars().collect::<Vec<char>>());
        assert_eq!(string_of(&chars), text);
    }
}

#[test]
fn string_of_range_cuts_by_characters() {
    let chars = chars_of("héllo");
    assert_eq!(string_of_range(&chars, 0, 5), "héllo");
    assert_eq!(string_of_range(&chars, 1, 3), "él");
    assert_eq!(string_of_range(&chars, 2, 2), "");
    assert_eq!(string_of_range(&chars, 5, 5), "");
}

#[test]
fn same_text_compares_character_by_character() {
    assert!(same_text("", ""));
    assert!(same_text("local", "local"));
    assert!(!same_text("local", "locale"));
    assert!(!same_text("local", "loca"));
    assert!(!same_text("local", "lokal"));
    assert!(!same_text("é", "e"));
}

#[test]
fn scan_finds_the_end_of_a_run() {
    let chars = chars_of("ab-1_Z/12.x");
    assert_eq!(scan(&chars, 0, CharClass::Name), 6);
    assert_eq!(scan(&chars, 3, CharClass::Name), 6);
    assert_eq!(scan(&chars, 6, CharClass::Name), 6);
    assert_eq!(scan(&chars, 7, CharClass::Digit), 9);
    assert_eq!(scan(&chars, 0, CharClass::Digit), 0);
    assert_eq!(scan(&chars, 10, CharClass::Name), 11);
    assert_eq!(scan(&chars, 11, CharClass::Name), 11);
}

#[test]
fn classes_hold_ascii_characters_only() {
    for c in ['0', '5', '9'] {
        assert!(CharClass::Digit.test(c));
        assert!(CharClass::Name.test(c));
    }
    for c in ['a', 'z', 'A', 'Z', '_', '-'] {
        assert!(!CharClass::Digit.test(c));
        assert!(CharClass::Name.test(c));
    }
    for c in ['/', ':', '.', '@', ' ', '"', '\\', 'é', '٣', '\u{0}'] {
        assert!(!CharClass::Digit.test(c));
        assert!(!CharClass::Name.test(c));
    }
}

#[test]
fn push_decimal_appends_the_shortest_writing() {
    for (n, text) in [
        (0, "0"),
        (7, "7"),
        (10, "10"),
        (909, "909"),
        (1000, "1000"),
        (u64::MAX, "18446744073709551615"),
    ] {
        let mut out = chars_of("v");
        push_decimal(&mut out, n);
        assert_eq!(string_of(&out), format!("v{}", text));
    }
}
