//! From the lines of a text to a verdict on it.

use vstd::prelude::*;
use crate::grammar::is_value;
use crate::lexer::tokenize;
use crate::scan::{lex_lines, texts};
use crate::validator::parse_tokens;

verus! {

/// What validating a text comes to.
#[derive(Clone, Copy, Debug, PartialEq, Eq, Structural)]
pub enum Verdict {
    /// The text is exactly one JSON value.
    Valid,
    /// The text could not be split into tokens.
    IllegalCharacter,
    /// The text holds no token at all.
    NothingToParse,
    /// The tokens of the text are not exactly one JSON value.
    Invalid,
}

/// The verdict on a text given as lines.
pub open spec fn verdict_of(lines: Seq<Seq<char>>) -> Verdict {
    match lex_lines(lines) {
        None => Verdict::IllegalCharacter,
        Some(found) => if found.len() == 0 {
            Verdict::NothingToParse
        } else if is_value(found) {
            Verdict::Valid
        } else {
            Verdict::Invalid
        },
    }
}

impl Verdict {
    /// The exit status that stands for a verdict, 0 for a valid text and 1
    /// for any other.
    pub fn exit_code(self) -> (code: i32)
        ensures
            code == if self is Valid { 0int } else { 1int },
    {
        match self {
            Verdict::Valid => 0,
            _ => 1,
        }
    }
}

/// Lexes `lines` and validates the tokens.
///
/// A text that cannot be lexed is never validated, and a text without
/// tokens is turned away before the validator sees it.
pub fn validate_text(lines: &[String]) -> (verdict: Verdict)
    ensures
        verdict == verdict_of(texts(lines@)),
{
    let tokens = match tokenize(lines) {
        Ok(tokens) => tokens,
        Err(_) => {
            return Verdict::IllegalCharacter;
        },
    };
    if tokens.len() == 0 {
        return Verdict::NothingToParse;
    }
    match parse_tokens(tokens.as_slice()) {
        Ok(_) => Verdict::Valid,
        Err(_) => Verdict::Invalid,
    }
}

} // verus!
