use mini::text::{
    chars_between, chars_of, has_class, push_decimal, push_int, scan, scan_back, string_of,
    trim_range, CharClass,
};

fn all_chars() -> Vec<char> {
    (0u32..=0x10FFFF).filter_map(char::from_u32).collect()
}

#[test]
fn space_is_unicode_white_space() {
    for c in all_chars() {
        assert_eq!(has_class(c, CharClass::Space), c.is_whitespace(), "{:?}", c);
    }
}

#[test]
fn blank_is_ascii_whitespace() {
    for c in all_chars() {
        assert_eq!(has_class(c, CharClass::Blank), c.is_ascii_whitespace(), "{:?}", c);
    }
}

#[test]
fn digits_and_name_characters_are_ascii() {
    for c in all_chars() {
        assert_eq!(has_class(c, CharClass::Digit), c.is_ascii_digit(), "{:?}", c);
        assert_eq!(
            has_class(c, CharClass::IdentPart),
            c.is_ascii_alphanumeric() || c == '_',
            "{:?}",
            c
        );
        assert_eq!(has_class(c, CharClass::Not('.')), c != '.', "{:?}", c);
    }
}

#[test]
fn runs_are_scanned_forward_and_backward() {
    let text = chars_of("ab  12  ");
    assert_eq!(scan(&text, 0, text.len(), CharClass::IdentPart), 2);
    assert_eq!(scan(&text, 2, text.len(), CharClass::Blank), 4);
    assert_eq!(scan(&text, 4, text.len(), CharClass::Digit), 6);
    assert_eq!(scan(&text, 4, 5, CharClass::Digit), 5);
    assert_eq!(scan(&text, 4, text.len(), CharClass::Blank), 4);
    assert_eq!(scan(&text, 6, text.len(), CharClass::Space), 8);
    assert_eq!(scan_back(&text, 0, text.len(), CharClass::Space), 6);
    assert_eq!(scan_back(&text, 7, text.len(), CharClass::Space), 7);
    assert_eq!(scan_back(&text, 0, 6, CharClass::Digit), 4);
    assert_eq!(scan_back(&text, 0, 6, CharClass::Blank), 6);
}

#[test]
fn trimming_a_stretch() {
    let text = chars_of("x \u{a0}\tab c\r\n y");
    assert_eq!(trim_range(&text, 1, 11), (4, 8));
    assert_eq!(string_of(&text, 4, 8), "ab c");
    assert_eq!(trim_range(&text, 1, 4), (4, 4));
    assert_eq!(trim_range(&text, 4, 8), (4, 8));
    assert_eq!(trim_range(&text, 0, text.len()), (0, text.len()));
    assert_eq!(trim_range(&text, 3, 3), (3, 3));
    assert_eq!(chars_between(&text, 4, 6), vec!['a', 'b']);
    assert_eq!(chars_of("h\u{e9}\u{1F600}"), vec!['h', '\u{e9}', '\u{1F600}']);
}

#[test]
fn numbers_in_base_ten() {
    let mut s = String::from("n=");
    push_decimal(&mut s, 0);
    push_decimal(&mut s, 7);
    push_decimal(&mut s, 10);
    push_decimal(&mut s, 4096);
    assert_eq!(s, "n=07104096");
    let mut s = String::new();
    push_decimal(&mut s, usize::MAX);
    assert_eq!(s, usize::MAX.to_string());
    let mut s = String::new();
    push_int(&mut s, -1);
    push_int(&mut s, 0);
    push_int(&mut s, i32::MIN);
    push_int(&mut s, i32::MAX);
    assert_eq!(s, "-10-21474836482147483647");
}
