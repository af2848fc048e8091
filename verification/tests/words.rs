use coding_challenges::words::{count_words, is_ascii_whitespace};

#[test]
fn test_count_words_empty_string() {
    let result = count_words("");
    assert_eq!(result, 0);
}

#[test]
fn test_count_words() {
    let result = count_words("lorem ipsum dolor sit amet");
    assert_eq!(result, 5);
}

#[test]
fn count_words_ignores_whitespace_at_both_ends_and_in_runs() {
    assert_eq!(count_words("   "), 0);
    assert_eq!(count_words("a"), 1);
    assert_eq!(count_words(" a"), 1);
    assert_eq!(count_words("a "), 1);
    assert_eq!(count_words("  lorem \t\t ipsum\r\n\r\ndolor\x0c"), 3);
}

#[test]
fn count_words_splits_on_ascii_whitespace_only() {
    // A no-break space and a line separator are no ASCII whitespace.
    assert_eq!(count_words("a\u{a0}b"), 1);
    assert_eq!(count_words("a\u{2028}b c"), 2);
    assert_eq!(count_words("\u{e9}t\u{e9} \u{4e16}\u{754c}"), 2);
    // Neither is a vertical tab.
    assert_eq!(count_words("a\x0bb"), 1);
}

#[test]
fn is_ascii_whitespace_agrees_with_the_standard_library() {
    for code in 0u32..0x300 {
        let c = char::from_u32(code).unwrap();
        assert_eq!(is_ascii_whitespace(c), c.is_ascii_whitespace(), "{:?}", c);
    }
}
