use coding_challenges::text::{chars_of, is_ascii_digit, text_of};

#[test]
fn chars_of_gives_every_character_in_order() {
    assert_eq!(chars_of(""), Vec::<char>::new());
    assert_eq!(chars_of("a\"b 1"), vec!['a', '"', 'b', ' ', '1']);
    assert_eq!(chars_of("h\u{e9}\u{4e16}!"), vec!['h', '\u{e9}', '\u{4e16}', '!']);
}

#[test]
fn text_of_gives_the_characters_between_two_positions() {
    let chars = chars_of("{\"k\u{e9}y\": 101}");
    assert_eq!(text_of(&chars, 1, 6), "\"k\u{e9}y\"");
    assert_eq!(text_of(&chars, 8, 11), "101");
    assert_eq!(text_of(&chars, 0, chars.len()), "{\"k\u{e9}y\": 101}");
    assert_eq!(text_of(&chars, 4, 4), "");
    assert_eq!(text_of(&chars, chars.len(), chars.len()), "");
}

#[test]
fn is_ascii_digit_agrees_with_the_standard_library() {
    for code in 0u32..0x800 {
        let c = char::from_u32(code).unwrap();
        assert_eq!(is_ascii_digit(c), c.is_ascii_digit(), "{:?}", c);
    }
    // Digits of other scripts are none.
    assert!(!is_ascii_digit('\u{0661}'));
    assert!(!is_ascii_digit('\u{ff11}'));
}
