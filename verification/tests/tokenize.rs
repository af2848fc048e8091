use coding_challenges::lexer::tokenize;
use coding_challenges::token::{Token, TokenizeError};
use std::io::{BufRead, Cursor};

fn lines(text: &[u8]) -> Vec<String> {
    Cursor::new(text).lines().map(|line| line.unwrap()).collect()
}

#[test]
fn check_tokenize_empty_string() {
    let result = tokenize(&lines(b"")).unwrap();
    assert_eq!(result, []);
}

#[test]
fn check_tokenize_empty_object() {
    let result = tokenize(&lines(b"{}")).unwrap();
    assert_eq!(result, [
        Token::LeftBrace,
        Token::RightBrace,
    ]);
}

#[test]
fn check_tokenize_object() {
    let result = tokenize(&lines(b"{\"key\": \"value\"}")).unwrap();
    assert_eq!(result, [
        Token::LeftBrace,
        Token::String("\"key\"".to_string()),
        Token::Colon,
        Token::String("\"value\"".to_string()),
        Token::RightBrace,
    ])
}

#[test]
fn check_tokenize_object_multiline() {
    let result = tokenize(&lines(b"{\n  \"key\": \"value\",\n  \"key2\": \"value\"\n}")).unwrap();
    assert_eq!(result, [
        Token::LeftBrace,
        Token::String("\"key\"".to_string()),
        Token::Colon,
        Token::String("\"value\"".to_string()),
        Token::Comma,
        Token::String("\"key2\"".to_string()),
        Token::Colon,
        Token::String("\"value\"".to_string()),
        Token::RightBrace,
    ])
}

#[test]
fn check_tokenize_fails_for_unquoted_key() {
    let result = tokenize(&lines(b"{key: \"value\"}")).unwrap_err();
    assert_eq!(result, TokenizeError)
}

#[test]
fn check_tokenize_true() {
    let result = tokenize(&lines(b"{\"key\": true}")).unwrap();
    assert_eq!(result, [
        Token::LeftBrace,
        Token::String("\"key\"".to_string()),
        Token::Colon,
        Token::True,
        Token::RightBrace,
    ])
}

#[test]
fn check_tokenize_false() {
    let result = tokenize(&lines(b"{\"key\": false}")).unwrap();
    assert_eq!(result, [
        Token::LeftBrace,
        Token::String("\"key\"".to_string()),
        Token::Colon,
        Token::False,
        Token::RightBrace,
    ])
}

#[test]
fn check_tokenize_null() {
    let result = tokenize(&lines(b"{\"key\": null}")).unwrap();
    assert_eq!(result, [
        Token::LeftBrace,
        Token::String("\"key\"".to_string()),
        Token::Colon,
        Token::Null,
        Token::RightBrace,
    ])
}

#[test]
fn check_tokenize_number() {
    let result = tokenize(&lines(b"{\"key\": 101}")).unwrap();
    assert_eq!(result, [
        Token::LeftBrace,
        Token::String("\"key\"".to_string()),
        Token::Colon,
        Token::Number("101".to_string()),
        Token::RightBrace,
    ])
}

#[test]
fn check_tokenize_empty_array() {
    let result = tokenize(&lines(b"{\"key\": []}")).unwrap();
    assert_eq!(result, [
        Token::LeftBrace,
        Token::String("\"key\"".to_string()),
        Token::Colon,
        Token::LeftBracket,
        Token::RightBracket,
        Token::RightBrace,
    ])
}

#[test]
fn check_tokenize_array() {
    let result = tokenize(&lines(b"{\"key\": [\"list value\"]}")).unwrap();
    assert_eq!(result, [
        Token::LeftBrace,
        Token::String("\"key\"".to_string()),
        Token::Colon,
        Token::LeftBracket,
        Token::String("\"list value\"".to_string()),
        Token::RightBracket,
        Token::RightBrace,
    ])
}

#[test]
fn tokenize_no_lines_gives_no_tokens() {
    let none: Vec<String> = Vec::new();
    assert_eq!(tokenize(&none), Ok(vec![]));
    assert_eq!(tokenize(&[String::new()]), Ok(vec![]));
    assert_eq!(tokenize(&["   ".to_string(), " ".to_string()]), Ok(vec![]));
}

#[test]
fn tokenize_every_structural_character() {
    let result = tokenize(&["{}[]:,".to_string()]).unwrap();
    assert_eq!(result, [
        Token::LeftBrace,
        Token::RightBrace,
        Token::LeftBracket,
        Token::RightBracket,
        Token::Colon,
        Token::Comma,
    ]);
}

#[test]
fn tokenize_numbers_take_every_digit_that_follows() {
    let result = tokenize(&["007 12,3".to_string()]).unwrap();
    assert_eq!(result, [
        Token::Number("007".to_string()),
        Token::Number("12".to_string()),
        Token::Comma,
        Token::Number("3".to_string()),
    ]);
    // A digit at the very end of the line is a number of its own.
    assert_eq!(tokenize(&["[9".to_string()]), Ok(vec![Token::LeftBracket, Token::Number("9".to_string())]));
}

#[test]
fn tokenize_number_ends_at_the_end_of_its_line() {
    let result = tokenize(&["12".to_string(), "34".to_string()]).unwrap();
    assert_eq!(result, [Token::Number("12".to_string()), Token::Number("34".to_string())]);
}

#[test]
fn tokenize_rejects_sign_fraction_and_exponent() {
    assert_eq!(tokenize(&["-1".to_string()]), Err(TokenizeError));
    assert_eq!(tokenize(&["1.5".to_string()]), Err(TokenizeError));
    assert_eq!(tokenize(&["1e5".to_string()]), Err(TokenizeError));
}

#[test]
fn tokenize_keywords_need_no_separator() {
    let result = tokenize(&["truefalsenull1true".to_string()]).unwrap();
    assert_eq!(result, [
        Token::True,
        Token::False,
        Token::Null,
        Token::Number("1".to_string()),
        Token::True,
    ]);
}

#[test]
fn tokenize_rejects_misspelt_keywords() {
    for text in ["trux", "tRue", "True", "falsy", "fals ", "nul!", "nulL", "t rue"] {
        assert_eq!(tokenize(&[text.to_string()]), Err(TokenizeError), "{}", text);
    }
}

#[test]
fn tokenize_rejects_keywords_cut_off_by_the_end_of_the_line() {
    for text in ["t", "tr", "tru", "f", "fa", "fal", "fals", "n", "nu", "nul", "[tru"] {
        assert_eq!(tokenize(&[text.to_string()]), Err(TokenizeError), "{}", text);
    }
    // A keyword does not continue on the next line.
    assert_eq!(tokenize(&["tr".to_string(), "ue".to_string()]), Err(TokenizeError));
}

#[test]
fn tokenize_string_keeps_its_quotes_and_what_is_between_them() {
    let result = tokenize(&["\"a b\"\"\" \"{[1,true]}\"".to_string()]).unwrap();
    assert_eq!(result, [
        Token::String("\"a b\"".to_string()),
        Token::String("\"\"".to_string()),
        Token::String("\"{[1,true]}\"".to_string()),
    ]);
}

#[test]
fn tokenize_string_holds_characters_outside_ascii() {
    let result = tokenize(&["[\"h\u{e9}llo \u{4e16}\u{754c}\t\"]".to_string()]).unwrap();
    assert_eq!(result, [
        Token::LeftBracket,
        Token::String("\"h\u{e9}llo \u{4e16}\u{754c}\t\"".to_string()),
        Token::RightBracket,
    ]);
}

#[test]
fn tokenize_string_has_no_escapes() {
    // The backslash does not protect the quote after it: the literal ends
    // there, and the rest of the line is lexed on.
    let result = tokenize(&["\"a\\\"1\"b\"".to_string()]).unwrap();
    assert_eq!(result, [
        Token::String("\"a\\\"".to_string()),
        Token::Number("1".to_string()),
        Token::String("\"b\"".to_string()),
    ]);
}

#[test]
fn tokenize_rejects_unterminated_string() {
    assert_eq!(tokenize(&["\"abc".to_string()]), Err(TokenizeError));
    assert_eq!(tokenize(&["\"".to_string()]), Err(TokenizeError));
    assert_eq!(tokenize(&["{\"key\": \"value}".to_string()]), Err(TokenizeError));
    // A literal does not go on into the next line.
    assert_eq!(tokenize(&["\"abc".to_string(), "def\"".to_string()]), Err(TokenizeError));
}

#[test]
fn tokenize_rejects_whitespace_other_than_space() {
    assert_eq!(tokenize(&["{\t}".to_string()]), Err(TokenizeError));
    assert_eq!(tokenize(&["{}\r".to_string()]), Err(TokenizeError));
    assert_eq!(tokenize(&["{\n}".to_string()]), Err(TokenizeError));
}

#[test]
fn tokenize_rejects_other_characters() {
    for text in ["'a'", "a", "{}x", "\u{e9}", "+", "\\"] {
        assert_eq!(tokenize(&[text.to_string()]), Err(TokenizeError), "{}", text);
    }
}

#[test]
fn tokenize_failure_on_any_line_fails_the_text() {
    let good = "{\"a\": 1}".to_string();
    let bad = "oops".to_string();
    assert!(tokenize(&[good.clone(), good.clone()]).is_ok());
    assert_eq!(tokenize(&[bad.clone(), good.clone()]), Err(TokenizeError));
    assert_eq!(tokenize(&[good.clone(), bad.clone()]), Err(TokenizeError));
    assert_eq!(tokenize(&[good.clone(), bad, good]), Err(TokenizeError));
}

#[test]
fn tokenize_never_yields_the_end_marker() {
    let result = tokenize(&["{\"a\": [1, true, false, null, \"b\"]}".to_string()]).unwrap();
    assert_eq!(result.len(), 15);
    assert!(result.iter().all(|token| *token != Token::EOF));
}

#[test]
fn tokenize_is_repeatable() {
    let text = lines(b"{\"key\": [1, 2, 3]}\n[true");
    assert_eq!(tokenize(&text), tokenize(&text));
    let broken = lines(b"{\"key\": [1, 2, 3]}\n[tru");
    assert_eq!(tokenize(&broken), Err(TokenizeError));
    assert_eq!(tokenize(&broken), tokenize(&broken));
}

#[test]
fn tokenize_reads_back_tokens_written_with_a_space_after_each() {
    let written = "{ \"a b\" : 12 , true false null [ ] } \"\" 0 ";
    let result = tokenize(&[written.to_string()]).unwrap();
    assert_eq!(result, [
        Token::LeftBrace,
        Token::String("\"a b\"".to_string()),
        Token::Colon,
        Token::Number("12".to_string()),
        Token::Comma,
        Token::True,
        Token::False,
        Token::Null,
        Token::LeftBracket,
        Token::RightBracket,
        Token::RightBrace,
        Token::String("\"\"".to_string()),
        Token::Number("0".to_string()),
    ]);
}

#[test]
fn tokenize_never_fails_on_structural_characters_digits_and_spaces() {
    for text in ["}{][,:: 123 ,,", "0", ",", " : ", "9}9{9", "[[[[", "1 2 3 4 5 6 7 8 9 0"] {
        assert!(tokenize(&[text.to_string()]).is_ok(), "{}", text);
    }
}
