//! The lexer: from the lines of a text to its tokens.

use vstd::prelude::*;
use crate::scan::{
    digit_run, followed_by, lex_from, lex_line, lex_lines, next_four, next_three, texts,
    unquoted_run,
};
use crate::spelling::{all_proper, lemma_failure_is_final, lemma_lexed_proper};
use crate::text::{chars_of, is_ascii_digit, text_of};
use crate::token::{lexemes, Lexeme, Token, TokenizeError};

verus! {

/// Pushing a token onto a vector pushes its lexeme onto the vector's
/// lexemes.
proof fn lemma_lexemes_push(tokens: Seq<Token>, token: Token)
    ensures
        lexemes(tokens.push(token)) == lexemes(tokens).push(token@),
{
}

/// Reads the string literal that opens at `at` and returns the position
/// after its closing quote, or `None` where the line ends before it closes.
fn string_end(chars: &[char], at: usize) -> (end: Option<usize>)
    requires
        at < chars@.len(),
    ensures
        match end {
            Some(end) => end == at + unquoted_run(chars@, (at + 1) as nat) + 2 && end <= chars@.len(),
            None => at + 1 + unquoted_run(chars@, (at + 1) as nat) >= chars@.len(),
        },
{
    let len = chars.len();
    let mut close: usize = at + 1;
    while close < len && chars[close] != '"'
        invariant
            len == chars@.len(),
            at + 1 <= close <= len,
            unquoted_run(chars@, (at + 1) as nat) == (close - at - 1) + unquoted_run(
                chars@,
                close as nat,
            ),
        decreases chars@.len() - close,
    {
        close = close + 1;
    }
    if close < len {
        Some(close + 1)
    } else {
        None
    }
}

/// Returns the position after the run of digits that starts at `at`.
fn number_end(chars: &[char], at: usize) -> (end: usize)
    requires
        at < chars@.len(),
    ensures
        end == at + 1 + digit_run(chars@, (at + 1) as nat),
        end <= chars@.len(),
{
    let len = chars.len();
    let mut end: usize = at + 1;
    while end < len && is_ascii_digit(chars[end])
        invariant
            len == chars@.len(),
            at + 1 <= end <= len,
            digit_run(chars@, (at + 1) as nat) == (end - at - 1) + digit_run(chars@, end as nat),
        decreases chars@.len() - end,
    {
        end = end + 1;
    }
    end
}

/// Tells whether the three characters after position `at` are `a`, `b`, `c`.
fn followed_by_three(chars: &[char], at: usize, a: char, b: char, c: char) -> (spelt: bool)
    requires
        at < chars@.len(),
    ensures
        spelt == next_three(chars@, at as nat, a, b, c),
{
    chars.len() - at > 3 && chars[at + 1] == a && chars[at + 2] == b && chars[at + 3] == c
}

/// Tells whether the four characters after position `at` are `a`, `b`, `c`,
/// `d`.
fn followed_by_four(chars: &[char], at: usize, a: char, b: char, c: char, d: char) -> (spelt: bool)
    requires
        at < chars@.len(),
    ensures
        spelt == next_four(chars@, at as nat, a, b, c, d),
{
    chars.len() - at > 4 && chars[at + 1] == a && chars[at + 2] == b && chars[at + 3] == c
        && chars[at + 4] == d
}

/// Appends the tokens of one line to `tokens`.
fn tokenize_line(chars: &[char], tokens: &mut Vec<Token>) -> (result: Result<(), TokenizeError>)
    ensures
        match result {
            Ok(_) => followed_by(lexemes(old(tokens)@), lex_line(chars@)) == Some(
                lexemes(final(tokens)@),
            ),
            Err(_) => lex_line(chars@) is None,
        },
{
    let ghost line = chars@;
    let ghost before = lexemes(tokens@);
    let ghost found: Seq<Lexeme> = Seq::empty();
    let mut at: usize = 0;
    while at < chars.len()
        invariant
            line == chars@,
            at <= line.len(),
            lexemes(tokens@) == before + found,
            lex_line(line) == followed_by(found, lex_from(line, at as nat)),
        decreases line.len() - at,
    {
        let ch = chars[at];
        let (token, next): (Option<Token>, usize) = match ch {
            '{' => (Some(Token::LeftBrace), at + 1),
            '}' => (Some(Token::RightBrace), at + 1),
            '[' => (Some(Token::LeftBracket), at + 1),
            ']' => (Some(Token::RightBracket), at + 1),
            ':' => (Some(Token::Colon), at + 1),
            ',' => (Some(Token::Comma), at + 1),
            '"' => {
                // No escapes: the literal runs to the next quote on the line.
                match string_end(chars, at) {
                    Some(end) => (Some(Token::String(text_of(chars, at, end))), end),
                    None => {
                        return Err(TokenizeError);
                    },
                }
            },
            't' => {
                if followed_by_three(chars, at, 'r', 'u', 'e') {
                    (Some(Token::True), at + 4)
                } else {
                    return Err(TokenizeError);
                }
            },
            'f' => {
                if followed_by_four(chars, at, 'a', 'l', 's', 'e') {
                    (Some(Token::False), at + 5)
                } else {
                    return Err(TokenizeError);
                }
            },
            'n' => {
                if followed_by_three(chars, at, 'u', 'l', 'l') {
                    (Some(Token::Null), at + 4)
                } else {
                    return Err(TokenizeError);
                }
            },
            _ => {
                if is_ascii_digit(ch) {
                    let end = number_end(chars, at);
                    (Some(Token::Number(text_of(chars, at, end))), end)
                } else if ch == ' ' {
                    (None, at + 1)
                } else {
                    return Err(TokenizeError);
                }
            },
        };
        proof {
            // What was read is the piece at `at`: `token` is what it yields,
            // and it ends at `next`.
            if token is Some {
                lemma_lexemes_push(tokens@, token->0);
                found = found.push(token->0@);
            }
        }
        if let Some(t) = token {
            tokens.push(t);
        }
        at = next;
    }
    Ok(())
}

/// Turns the lines of a text into its tokens, in order of appearance.
///
/// Spaces separate tokens and yield none.  The first character that cannot
/// start or continue a token fails the whole text, and so does a string
/// literal that is still open at the end of its line: a failure hands out
/// no tokens at all.  The tokens of a success never hold [`Token::EOF`].
pub fn tokenize(lines: &[String]) -> (result: Result<Vec<Token>, TokenizeError>)
    ensures
        match result {
            Ok(tokens) => {
                &&& lex_lines(texts(lines@)) == Some(lexemes(tokens@))
                &&& all_proper(lexemes(tokens@))
            },
            Err(_) => lex_lines(texts(lines@)) is None,
        },
{
    let ghost all = texts(lines@);
    let mut tokens: Vec<Token> = Vec::new();
    let mut done: usize = 0;
    while done < lines.len()
        invariant
            all == texts(lines@),
            done <= lines@.len(),
            lex_lines(all.take(done as int)) == Some(lexemes(tokens@)),
        decreases lines@.len() - done,
    {
        let chars = chars_of(lines[done].as_str());
        proof {
            assert(all.take(done + 1).drop_last() =~= all.take(done as int));
        }
        match tokenize_line(chars.as_slice(), &mut tokens) {
            Ok(_) => {},
            Err(failure) => {
                proof {
                    lemma_failure_is_final(all, done + 1);
                }
                return Err(failure);
            },
        }
        done = done + 1;
    }
    proof {
        assert(all.take(done as int) =~= all);
        lemma_lexed_proper(all);
    }
    Ok(tokens)
}

} // verus!
