//! Tokens, their mathematical model, and the two failure values.

use vstd::prelude::*;
use crate::text::is_digit;

verus! {

/// One lexical unit of a JSON text.
///
/// The payload of `String` holds the literal with both quote characters;
/// the payload of `Number` holds the digits as they were written.  `EOF` is
/// what a cursor yields once it has run past the last token.
#[derive(Debug)]
pub enum Token {
    LeftBrace,
    RightBrace,
    Colon,
    Comma,
    String(String),
    True,
    False,
    Null,
    Number(String),
    LeftBracket,
    RightBracket,
    EOF,
}

/// The mathematical model of a [`Token`]: the same variants, with the text
/// payloads as sequences of characters.
pub enum Lexeme {
    LeftBrace,
    RightBrace,
    Colon,
    Comma,
    Str(Seq<char>),
    True,
    False,
    Null,
    Number(Seq<char>),
    LeftBracket,
    RightBracket,
    End,
}

/// `text` is a string literal as it is written: a quote, any characters
/// but quotes, and a quote.
pub open spec fn is_string_text(text: Seq<char>) -> bool {
    &&& text.len() >= 2
    &&& text[0] == '"'
    &&& text[text.len() - 1] == '"'
    &&& forall|i: int| 0 < i < text.len() - 1 ==> text[i] != '"'
}

/// `text` is a number as it is written: one ASCII digit or more, and
/// nothing else.
pub open spec fn is_number_text(text: Seq<char>) -> bool {
    &&& text.len() >= 1
    &&& forall|i: int| 0 <= i < text.len() ==> is_digit(text[i])
}

impl Lexeme {
    /// A lexeme that is a complete JSON value by itself.
    pub open spec fn is_simple(self) -> bool {
        self is Str || self is True || self is False || self is Null || self is Number
    }

    /// A lexeme that a text can hold: any but the end marker, with a string
    /// or a number written as one.
    pub open spec fn is_proper(self) -> bool {
        match self {
            Lexeme::Str(text) => is_string_text(text),
            Lexeme::Number(digits) => is_number_text(digits),
            Lexeme::End => false,
            _ => true,
        }
    }
}

impl View for Token {
    type V = Lexeme;

    open spec fn view(&self) -> Lexeme {
        match self {
            Token::LeftBrace => Lexeme::LeftBrace,
            Token::RightBrace => Lexeme::RightBrace,
            Token::Colon => Lexeme::Colon,
            Token::Comma => Lexeme::Comma,
            Token::String(text) => Lexeme::Str(text@),
            Token::True => Lexeme::True,
            Token::False => Lexeme::False,
            Token::Null => Lexeme::Null,
            Token::Number(digits) => Lexeme::Number(digits@),
            Token::LeftBracket => Lexeme::LeftBracket,
            Token::RightBracket => Lexeme::RightBracket,
            Token::EOF => Lexeme::End,
        }
    }
}

impl Clone for Token {
    /// A copy of the token, with a copy of its text.
    fn clone(&self) -> (copy: Token)
        ensures
            copy == *self,
    {
        match self {
            Token::LeftBrace => Token::LeftBrace,
            Token::RightBrace => Token::RightBrace,
            Token::Colon => Token::Colon,
            Token::Comma => Token::Comma,
            Token::String(text) => Token::String(text.clone()),
            Token::True => Token::True,
            Token::False => Token::False,
            Token::Null => Token::Null,
            Token::Number(digits) => Token::Number(digits.clone()),
            Token::LeftBracket => Token::LeftBracket,
            Token::RightBracket => Token::RightBracket,
            Token::EOF => Token::EOF,
        }
    }
}

impl PartialEq for Token {
    /// Two tokens are equal when they are of the same variant and hold the
    /// same text.
    fn eq(&self, other: &Token) -> (equal: bool) {
        match (self, other) {
            (Token::LeftBrace, Token::LeftBrace) => true,
            (Token::RightBrace, Token::RightBrace) => true,
            (Token::Colon, Token::Colon) => true,
            (Token::Comma, Token::Comma) => true,
            (Token::String(text), Token::String(other_text)) => *text == *other_text,
            (Token::True, Token::True) => true,
            (Token::False, Token::False) => true,
            (Token::Null, Token::Null) => true,
            (Token::Number(digits), Token::Number(other_digits)) => *digits == *other_digits,
            (Token::LeftBracket, Token::LeftBracket) => true,
            (Token::RightBracket, Token::RightBracket) => true,
            (Token::EOF, Token::EOF) => true,
            _ => false,
        }
    }
}

impl vstd::std_specs::cmp::PartialEqSpecImpl for Token {
    open spec fn obeys_eq_spec() -> bool {
        true
    }

    open spec fn eq_spec(&self, other: &Token) -> bool {
        self@ == other@
    }
}

/// The models of a sequence of tokens, in order.
pub open spec fn lexemes(tokens: Seq<Token>) -> Seq<Lexeme> {
    tokens.map_values(|t: Token| t@)
}

/// The lexer met an illegal character, a misspelt keyword or an unterminated
/// string literal.
#[derive(Clone, Copy, Debug, PartialEq, Eq, Structural)]
pub struct TokenizeError;

/// The token sequence is not exactly one JSON value.
#[derive(Clone, Copy, Debug, PartialEq, Eq, Structural)]
pub struct ParseError;

/// Tells whether `token` is a string, a number, `true`, `false` or `null`.
pub fn is_simple_value(token: &Token) -> (simple: bool)
    ensures
        simple == token@.is_simple(),
{
    match token {
        Token::String(_) | Token::True | Token::False | Token::Null | Token::Number(_) => true,
        _ => false,
    }
}

} // verus!
