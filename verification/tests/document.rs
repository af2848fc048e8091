use coding_challenges::document::{validate_text, Verdict};
use coding_challenges::lexer::tokenize;
use coding_challenges::token::{ParseError, Token, TokenizeError};
use coding_challenges::validator::parse_tokens;

fn verdict(text: &str) -> Verdict {
    let lines: Vec<String> = text.lines().map(|line| line.to_string()).collect();
    validate_text(&lines)
}

#[test]
fn empty_object_is_valid() {
    let tokens = tokenize(&["{}".to_string()]).unwrap();
    assert_eq!(tokens, [Token::LeftBrace, Token::RightBrace]);
    assert_eq!(parse_tokens(&tokens), Ok(()));
    assert_eq!(verdict("{}"), Verdict::Valid);
}

#[test]
fn object_with_one_member_is_valid() {
    let tokens = tokenize(&["{\"key\": \"value\"}".to_string()]).unwrap();
    assert_eq!(tokens, [
        Token::LeftBrace,
        Token::String("\"key\"".to_string()),
        Token::Colon,
        Token::String("\"value\"".to_string()),
        Token::RightBrace,
    ]);
    assert_eq!(parse_tokens(&tokens), Ok(()));
    assert_eq!(verdict("{\"key\": \"value\"}"), Verdict::Valid);
}

#[test]
fn unquoted_key_is_an_illegal_character() {
    assert_eq!(tokenize(&["{key: \"value\"}".to_string()]), Err(TokenizeError));
    assert_eq!(verdict("{key: \"value\"}"), Verdict::IllegalCharacter);
}

#[test]
fn array_as_member_value_is_valid() {
    let tokens = tokenize(&["{\"key\": [1,2,3]}".to_string()]).unwrap();
    assert_eq!(tokens.len(), 11);
    assert_eq!(parse_tokens(&tokens), Ok(()));
    assert_eq!(verdict("{\"key\": [1,2,3]}"), Verdict::Valid);
}

#[test]
fn trailing_comma_in_array_lexes_and_is_invalid() {
    let tokens = tokenize(&["[\"a\",\"b\",]".to_string()]).unwrap();
    assert_eq!(tokens, [
        Token::LeftBracket,
        Token::String("\"a\"".to_string()),
        Token::Comma,
        Token::String("\"b\"".to_string()),
        Token::Comma,
        Token::RightBracket,
    ]);
    assert_eq!(parse_tokens(&tokens), Err(ParseError));
    assert_eq!(verdict("[\"a\",\"b\",]"), Verdict::Invalid);
}

#[test]
fn trailing_comma_is_invalid() {
    assert_eq!(verdict("{\"key\":\"value\",}"), Verdict::Invalid);
    assert_eq!(verdict("[\"value\",\"value2\",]"), Verdict::Invalid);
    assert_eq!(verdict("{\"key\":\"value\"}"), Verdict::Valid);
    assert_eq!(verdict("[\"value\",\"value2\"]"), Verdict::Valid);
}

#[test]
fn bare_string_is_valid() {
    assert_eq!(verdict("\"just a string\""), Verdict::Valid);
    assert_eq!(verdict("42"), Verdict::Valid);
    assert_eq!(verdict(" null "), Verdict::Valid);
}

#[test]
fn two_values_in_a_row_are_invalid() {
    assert_eq!(verdict("{}{}"), Verdict::Invalid);
    assert_eq!(verdict("{} []"), Verdict::Invalid);
    assert_eq!(verdict("1 2"), Verdict::Invalid);
    assert_eq!(verdict("{\"a\": 1}\n{\"b\": 2}"), Verdict::Invalid);
    assert_eq!(verdict("[1]]"), Verdict::Invalid);
}

#[test]
fn text_without_tokens_is_nothing_to_parse() {
    assert_eq!(validate_text(&[]), Verdict::NothingToParse);
    assert_eq!(verdict(""), Verdict::NothingToParse);
    assert_eq!(verdict("   "), Verdict::NothingToParse);
    assert_eq!(verdict("\n\n  \n"), Verdict::NothingToParse);
}

#[test]
fn text_that_does_not_lex_is_never_validated() {
    // The tokens before the bad character would be a value by themselves.
    assert_eq!(verdict("{} x"), Verdict::IllegalCharacter);
    assert_eq!(verdict("{}\n\t"), Verdict::IllegalCharacter);
    assert_eq!(verdict("[1, 2, \"three]"), Verdict::IllegalCharacter);
}

#[test]
fn value_may_spread_over_lines() {
    let text = "{\n  \"key\": \"value\",\n  \"key-n\": 101,\n  \"key-o\": {\n    \"inner key\": \"inner value\"\n  },\n  \"key-l\": [\"list value\"]\n}";
    assert_eq!(verdict(text), Verdict::Valid);
}

#[test]
fn same_text_gives_the_same_verdict() {
    for text in ["{\"a\": [1, 2, {\"b\": null}]}", "[1, 2,]", "{\"a\" 1}", "tru", "", "[[[[]]]]"] {
        let first = verdict(text);
        assert_eq!(verdict(text), first);
        assert_eq!(verdict(text), first);
    }
}

#[test]
fn exit_code_is_zero_for_a_valid_text_only() {
    assert_eq!(Verdict::Valid.exit_code(), 0);
    assert_eq!(Verdict::IllegalCharacter.exit_code(), 1);
    assert_eq!(Verdict::NothingToParse.exit_code(), 1);
    assert_eq!(Verdict::Invalid.exit_code(), 1);
}

#[test]
fn documents_with_every_kind_of_value_are_valid() {
    let text = "{\n  \"key1\": true,\n  \"key2\": false,\n  \"key3\": null,\n  \"key4\": \"value\",\n  \"key5\": 101\n}";
    assert_eq!(verdict(text), Verdict::Valid);
    assert_eq!(verdict(text).exit_code(), 0);
    let text = "{\n  \"key\": \"value\",\n  \"key-n\": 101,\n  \"key-o\": {},\n  \"key-l\": []\n}";
    assert_eq!(verdict(text), Verdict::Valid);
    assert_eq!(verdict(text).exit_code(), 0);
}

#[test]
fn documents_with_a_misspelt_or_misquoted_value_are_illegal() {
    let text = "{\n  \"key1\": true,\n  \"key2\": False,\n  \"key3\": null\n}";
    assert_eq!(verdict(text), Verdict::IllegalCharacter);
    assert_eq!(verdict(text).exit_code(), 1);
    let text = "{\n  \"key\": \"value\",\n  \"key-l\": ['list value']\n}";
    assert_eq!(verdict(text), Verdict::IllegalCharacter);
    assert_eq!(verdict(text).exit_code(), 1);
    let text = "{\n  \"key\": \"value\",\n  key2: \"value\"\n}";
    assert_eq!(verdict(text), Verdict::IllegalCharacter);
    assert_eq!(verdict(text).exit_code(), 1);
}

#[test]
fn exit_code_of_an_empty_file_and_of_a_trailing_comma_is_one() {
    assert_eq!(verdict("").exit_code(), 1);
    assert_eq!(verdict("{\"key\": \"value\",}").exit_code(), 1);
    assert_eq!(verdict("{}").exit_code(), 0);
}
