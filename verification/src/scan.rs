//! What the lexer reads from a line, as mathematical functions.

use vstd::prelude::*;
use crate::text::is_digit;
use crate::token::Lexeme;

verus! {

/// The characters of `s` from position `from` up to, not including, `to`.
pub open spec fn stretch(s: Seq<char>, from: nat, to: nat) -> Seq<char> {
    s.subrange(from as int, to as int)
}

/// How many characters of `s`, from position `from` on, come before the
/// next `"` or the end of `s`.
pub open spec fn unquoted_run(s: Seq<char>, from: nat) -> nat
    decreases s.len() - from,
{
    if from < s.len() && s[from as int] != '"' {
        1 + unquoted_run(s, from + 1)
    } else {
        0
    }
}

/// How many characters of `s`, from position `from` on, are ASCII digits
/// without a break.
pub open spec fn digit_run(s: Seq<char>, from: nat) -> nat
    decreases s.len() - from,
{
    if from < s.len() && is_digit(s[from as int]) {
        1 + digit_run(s, from + 1)
    } else {
        0
    }
}

/// The three characters after position `at` are `a`, `b` and `c`.
pub open spec fn next_three(s: Seq<char>, at: nat, a: char, b: char, c: char) -> bool {
    &&& at + 3 < s.len()
    &&& s[(at + 1) as int] == a
    &&& s[(at + 2) as int] == b
    &&& s[(at + 3) as int] == c
}

/// The four characters after position `at` are `a`, `b`, `c` and `d`.
pub open spec fn next_four(s: Seq<char>, at: nat, a: char, b: char, c: char, d: char) -> bool {
    &&& at + 4 < s.len()
    &&& s[(at + 1) as int] == a
    &&& s[(at + 2) as int] == b
    &&& s[(at + 3) as int] == c
    &&& s[(at + 4) as int] == d
}

/// One unit of a line: a token, or a space that is discarded, with the
/// number of characters it takes up.
pub struct Piece {
    pub lexeme: Option<Lexeme>,
    pub length: nat,
}

/// A piece that is the token `lexeme`, `length` characters long.
pub open spec fn token_piece(lexeme: Lexeme, length: nat) -> Option<Piece> {
    Some(Piece { lexeme: Some(lexeme), length })
}

/// The piece that starts at position `at` of `s`, or `None` where no piece
/// can start: at an illegal character, a misspelt or cut-off keyword, or a
/// string literal that does not close.
pub open spec fn piece_at(s: Seq<char>, at: nat) -> Option<Piece>
    recommends
        at < s.len(),
{
    let c = s[at as int];
    if c == '{' {
        token_piece(Lexeme::LeftBrace, 1)
    } else if c == '}' {
        token_piece(Lexeme::RightBrace, 1)
    } else if c == '[' {
        token_piece(Lexeme::LeftBracket, 1)
    } else if c == ']' {
        token_piece(Lexeme::RightBracket, 1)
    } else if c == ':' {
        token_piece(Lexeme::Colon, 1)
    } else if c == ',' {
        token_piece(Lexeme::Comma, 1)
    } else if c == '"' {
        let body = unquoted_run(s, at + 1);
        if at + 1 + body < s.len() {
            token_piece(Lexeme::Str(stretch(s, at, at + body + 2)), body + 2)
        } else {
            None
        }
    } else if c == 't' {
        if next_three(s, at, 'r', 'u', 'e') {
            token_piece(Lexeme::True, 4)
        } else {
            None
        }
    } else if c == 'f' {
        if next_four(s, at, 'a', 'l', 's', 'e') {
            token_piece(Lexeme::False, 5)
        } else {
            None
        }
    } else if c == 'n' {
        if next_three(s, at, 'u', 'l', 'l') {
            token_piece(Lexeme::Null, 4)
        } else {
            None
        }
    } else if is_digit(c) {
        let more = digit_run(s, at + 1);
        token_piece(Lexeme::Number(stretch(s, at, at + 1 + more)), 1 + more)
    } else if c == ' ' {
        Some(Piece { lexeme: None, length: 1 })
    } else {
        None
    }
}

/// `found` followed by what comes after it, where that exists.
pub open spec fn followed_by(found: Seq<Lexeme>, rest: Option<Seq<Lexeme>>) -> Option<Seq<Lexeme>> {
    match rest {
        Some(rest) => Some(found + rest),
        None => None,
    }
}

/// The lexemes that a piece contributes: none for a space, one for a token.
pub open spec fn yield_of(piece: Piece) -> Seq<Lexeme> {
    match piece.lexeme {
        Some(lexeme) => seq![lexeme],
        None => Seq::empty(),
    }
}

/// How many characters of `s` lie at or after position `at`.
pub open spec fn chars_left(s: Seq<char>, at: nat) -> nat {
    if at < s.len() {
        (s.len() - at) as nat
    } else {
        0
    }
}

/// The lexemes of `s` from position `at` to its end, or `None` where some
/// piece on the way cannot be read.
pub open spec fn lex_from(s: Seq<char>, at: nat) -> Option<Seq<Lexeme>>
    decreases chars_left(s, at),
{
    if at >= s.len() {
        Some(Seq::empty())
    } else {
        match piece_at(s, at) {
            Some(piece) => followed_by(yield_of(piece), lex_from(s, at + piece.length)),
            None => None,
        }
    }
}

/// The lexemes of one line.
pub open spec fn lex_line(s: Seq<char>) -> Option<Seq<Lexeme>> {
    lex_from(s, 0)
}

/// The lexemes of a text given as lines: those of each line, in order, or
/// `None` where any line has none.
pub open spec fn lex_lines(lines: Seq<Seq<char>>) -> Option<Seq<Lexeme>>
    decreases lines.len(),
{
    if lines.len() == 0 {
        Some(Seq::empty())
    } else {
        match lex_lines(lines.drop_last()) {
            Some(found) => followed_by(found, lex_line(lines.last())),
            None => None,
        }
    }
}

/// The character sequences of a sequence of strings.
pub open spec fn texts(lines: Seq<String>) -> Seq<Seq<char>> {
    lines.map_values(|line: String| line@)
}

} // verus!
