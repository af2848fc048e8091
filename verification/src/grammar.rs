//! The JSON value grammar over sequences of lexemes.

use vstd::prelude::*;
use crate::token::Lexeme;

verus! {

/// The lexemes of `s` from position `from` up to, not including, `to`.
pub open spec fn span(s: Seq<Lexeme>, from: nat, to: nat) -> Seq<Lexeme> {
    s.subrange(from as int, to as int)
}

/// `s` is exactly one JSON value: a simple value, an object or an array.
pub open spec fn is_value(s: Seq<Lexeme>) -> bool
    decreases s.len(), 2nat,
{
    ||| (s.len() == 1 && s[0].is_simple())
    ||| is_object(s)
    ||| is_array(s)
}

/// `s` is an object: `{`, then nothing or a list of members, then `}`.
pub open spec fn is_object(s: Seq<Lexeme>) -> bool
    decreases s.len(), 1nat,
{
    &&& s.len() >= 2
    &&& s[0] is LeftBrace
    &&& s[s.len() - 1] is RightBrace
    &&& (s.len() == 2 || is_members(s.subrange(1, s.len() - 1)))
}

/// `s` is an array: `[`, then nothing or a list of elements, then `]`.
pub open spec fn is_array(s: Seq<Lexeme>) -> bool
    decreases s.len(), 1nat,
{
    &&& s.len() >= 2
    &&& s[0] is LeftBracket
    &&& s[s.len() - 1] is RightBracket
    &&& (s.len() == 2 || is_elements(s.subrange(1, s.len() - 1)))
}

/// `s` is a non-empty list of members `key : value`, separated by commas.
pub open spec fn is_members(s: Seq<Lexeme>) -> bool
    decreases s.len(), 0nat,
{
    &&& s.len() >= 3
    &&& s[0] is Str
    &&& s[1] is Colon
    &&& (is_value(s.subrange(2, s.len() as int)) || exists|k: int|
        2 < k < s.len() - 1 && is_value(#[trigger] s.subrange(2, k)) && s[k] is Comma
            && is_members(s.subrange(k + 1, s.len() as int)))
}

/// `s` is a non-empty list of values, separated by commas.
pub open spec fn is_elements(s: Seq<Lexeme>) -> bool
    decreases s.len(), 3nat,
{
    ||| is_value(s)
    ||| exists|k: int|
        0 < k < s.len() - 1 && is_value(#[trigger] s.subrange(0, k)) && s[k] is Comma
            && is_elements(s.subrange(k + 1, s.len() as int))
}

} // verus!
