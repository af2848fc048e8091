//! What each rule of the validator does at a position of a lexeme
//! sequence, as mathematical functions.
//!
//! The rules are defined in terms of each other.  Each has a rank, a number
//! that depends on how many lexemes are left, and every call that a rule
//! makes goes to a rule of lower rank: that is why the definitions are well
//! founded, and why the functions of the validator return.

use vstd::prelude::*;
use crate::cursor::{lexeme_at, step};
use crate::token::Lexeme;

verus! {

/// What a grammar rule did at some position: whether it matched, and how
/// many tokens it read on the way.
pub struct Outcome {
    pub matched: bool,
    pub consumed: nat,
}

/// How many lexemes of `s` lie at or after position `at`.
pub open spec fn left(s: Seq<Lexeme>, at: nat) -> nat {
    if at < s.len() {
        (s.len() - at) as nat
    } else {
        0
    }
}

/// Bounds the calls that the value rule makes with `left` tokens to go.
/// With none to go it makes no call.
pub open spec fn value_rank(left: nat) -> nat {
    if left == 0 {
        0
    } else {
        3 * left + 3
    }
}

/// Bounds the calls that the element rule makes with `left` tokens to go.
pub open spec fn element_rank(left: nat) -> nat {
    value_rank(left) + 1
}

/// Bounds the calls that the object and array rules make with `left` tokens
/// to go.
pub open spec fn collection_rank(left: nat) -> nat {
    3 * left + 2
}

/// Bounds the calls that the member rule makes with `left` tokens to go.
pub open spec fn member_rank(left: nat) -> nat {
    3 * left + 4
}

/// The value rule at position `at`: a simple value is read; `{` and `[`
/// hand over to the object and array rules; anything else fails with
/// nothing read.
pub open spec fn value_rule(s: Seq<Lexeme>, at: nat) -> Outcome
    decreases value_rank(left(s, at)),
{
    let first = lexeme_at(s, at);
    if first.is_simple() {
        Outcome { matched: true, consumed: 1 }
    } else if first is LeftBrace {
        object_rule(s, at)
    } else if first is LeftBracket {
        array_rule(s, at)
    } else {
        Outcome { matched: false, consumed: 0 }
    }
}

/// The object rule at position `at`.  The opening token is read without
/// being examined.  Then come no members if `}` is next, the member rule
/// if a string is next, and a failure otherwise.  The closing token is read
/// in every case, and the rule matches when the members did and the closing
/// token is `}`.
pub open spec fn object_rule(s: Seq<Lexeme>, at: nat) -> Outcome
    decreases collection_rank(left(s, at)),
{
    let inner = step(s, at);
    let members = if lexeme_at(s, inner) is RightBrace {
        Outcome { matched: true, consumed: 0 }
    } else if lexeme_at(s, inner) is Str {
        member_rule(s, inner)
    } else {
        Outcome { matched: false, consumed: 0 }
    };
    let close = inner + members.consumed;
    Outcome {
        matched: members.matched && lexeme_at(s, close) is RightBrace,
        consumed: (step(s, close) - at) as nat,
    }
}

/// The member rule at position `at`: a key, a colon and a value, each read
/// in turn and each ending the rule where it fails.  After the value a
/// comma is read and must be followed by another member; `}` ends the
/// list and is left unread; anything else fails.
pub open spec fn member_rule(s: Seq<Lexeme>, at: nat) -> Outcome
    decreases member_rank(left(s, at)),
{
    if !(lexeme_at(s, at) is Str) {
        Outcome { matched: false, consumed: (step(s, at) - at) as nat }
    } else if !(lexeme_at(s, at + 1) is Colon) {
        Outcome { matched: false, consumed: (step(s, at + 1) - at) as nat }
    } else {
        let value = value_rule(s, at + 2);
        let after = at + 2 + value.consumed;
        if !value.matched {
            Outcome { matched: false, consumed: 2 + value.consumed }
        } else if lexeme_at(s, after) is Comma {
            let rest = member_rule(s, after + 1);
            Outcome { matched: rest.matched, consumed: 2 + value.consumed + 1 + rest.consumed }
        } else {
            Outcome {
                matched: lexeme_at(s, after) is RightBrace,
                consumed: 2 + value.consumed,
            }
        }
    }
}

/// The array rule at position `at`.  The opening token is read without
/// being examined.  Then come no elements if `]` is next, and the element
/// rule otherwise.  The closing token is read in every case, and the rule
/// matches when the elements did and the closing token is `]`.
pub open spec fn array_rule(s: Seq<Lexeme>, at: nat) -> Outcome
    decreases collection_rank(left(s, at)),
{
    let inner = step(s, at);
    let elements = if lexeme_at(s, inner) is RightBracket {
        Outcome { matched: true, consumed: 0 }
    } else {
        element_rule(s, inner)
    };
    let close = inner + elements.consumed;
    Outcome {
        matched: elements.matched && lexeme_at(s, close) is RightBracket,
        consumed: (step(s, close) - at) as nat,
    }
}

/// The element rule at position `at`: a value, then, if a comma follows,
/// the comma and another element.  Whatever else follows is left unread.
pub open spec fn element_rule(s: Seq<Lexeme>, at: nat) -> Outcome
    decreases element_rank(left(s, at)),
{
    let value = value_rule(s, at);
    let after = at + value.consumed;
    if !value.matched {
        Outcome { matched: false, consumed: value.consumed }
    } else if lexeme_at(s, after) is Comma {
        let rest = element_rule(s, after + 1);
        Outcome { matched: rest.matched, consumed: value.consumed + 1 + rest.consumed }
    } else {
        Outcome { matched: true, consumed: value.consumed }
    }
}

} // verus!
