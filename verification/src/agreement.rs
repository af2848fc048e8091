//! The rules of the validator and the grammar agree: a rule matches a
//! stretch of tokens exactly when the grammar derives it.

use vstd::prelude::*;
use crate::cursor::lexeme_at;
use crate::grammar::{is_array, is_elements, is_members, is_object, is_value, span};
use crate::token::Lexeme;
use crate::rules::{
    array_rule, collection_rank, element_rank, element_rule, left, member_rank, member_rule,
    object_rule, value_rank, value_rule, Outcome,
};

verus! {

/// A lexeme that can open a value: a simple value, `{` or `[`.
pub open spec fn opens_value(first: Lexeme) -> bool {
    first.is_simple() || first is LeftBrace || first is LeftBracket
}

/// Every value opens with a simple value, `{` or `[`.
pub proof fn lemma_value_opening(s: Seq<Lexeme>)
    requires
        is_value(s),
    ensures
        s.len() >= 1,
        opens_value(s[0]),
{
}

/// Every list of elements opens as a value does.
pub proof fn lemma_elements_opening(s: Seq<Lexeme>)
    requires
        is_elements(s),
    ensures
        s.len() >= 1,
        opens_value(s[0]),
{
    if !is_value(s) {
        // The list opens with the value that stands before its first comma.
        let k = choose|k: int|
            0 < k < s.len() - 1 && is_value(#[trigger] s.subrange(0, k)) && s[k] is Comma
                && is_elements(s.subrange(k + 1, s.len() as int));
        lemma_value_opening(s.subrange(0, k));
    }
}

/// Where the value rule matches, it has read exactly one value of the
/// grammar.
pub proof fn lemma_value_sound(s: Seq<Lexeme>, at: nat)
    requires
        value_rule(s, at).matched,
    ensures
        value_rule(s, at).consumed >= 1,
        at + value_rule(s, at).consumed <= s.len(),
        is_value(span(s, at, at + value_rule(s, at).consumed)),
    decreases value_rank(left(s, at)),
{
    let first = lexeme_at(s, at);
    if first.is_simple() {
    } else if first is LeftBrace {
        lemma_object_sound(s, at);
    } else {
        lemma_array_sound(s, at);
    }
}

/// Where the object rule matches at a `{`, it has read exactly one object of
/// the grammar.
pub proof fn lemma_object_sound(s: Seq<Lexeme>, at: nat)
    requires
        lexeme_at(s, at) is LeftBrace,
        object_rule(s, at).matched,
    ensures
        at + object_rule(s, at).consumed <= s.len(),
        is_object(span(s, at, at + object_rule(s, at).consumed)),
    decreases collection_rank(left(s, at)),
{
    let inner = at + 1;
    let whole = span(s, at, at + object_rule(s, at).consumed);
    if lexeme_at(s, inner) is RightBrace {
    } else {
        lemma_member_sound(s, inner);
        let close = inner + member_rule(s, inner).consumed;
        assert(whole.subrange(1, whole.len() - 1) =~= span(s, inner, close));
    }
}

/// Where the member rule matches, it has read exactly one list of members
/// of the grammar, and `}` follows.
pub proof fn lemma_member_sound(s: Seq<Lexeme>, at: nat)
    requires
        member_rule(s, at).matched,
    ensures
        lexeme_at(s, at + member_rule(s, at).consumed) is RightBrace,
        is_members(span(s, at, at + member_rule(s, at).consumed)),
    decreases member_rank(left(s, at)),
{
    let value = value_rule(s, at + 2);
    let after = at + 2 + value.consumed;
    let whole = span(s, at, at + member_rule(s, at).consumed);
    lemma_value_sound(s, at + 2);
    if lexeme_at(s, after) is Comma {
        lemma_member_sound(s, after + 1);
        let k: int = 2 + value.consumed as int;
        assert(whole.subrange(2, k) =~= span(s, at + 2, after));
        assert(whole.subrange(k + 1, whole.len() as int) =~= span(
            s,
            after + 1,
            after + 1 + member_rule(s, after + 1).consumed,
        ));
    } else {
        assert(whole.subrange(2, whole.len() as int) =~= span(s, at + 2, after));
    }
}

/// Where the array rule matches at a `[`, it has read exactly one array of
/// the grammar.
pub proof fn lemma_array_sound(s: Seq<Lexeme>, at: nat)
    requires
        lexeme_at(s, at) is LeftBracket,
        array_rule(s, at).matched,
    ensures
        at + array_rule(s, at).consumed <= s.len(),
        is_array(span(s, at, at + array_rule(s, at).consumed)),
    decreases collection_rank(left(s, at)),
{
    let inner = at + 1;
    let whole = span(s, at, at + array_rule(s, at).consumed);
    if lexeme_at(s, inner) is RightBracket {
    } else {
        lemma_element_sound(s, inner);
        let close = inner + element_rule(s, inner).consumed;
        assert(whole.subrange(1, whole.len() - 1) =~= span(s, inner, close));
    }
}

/// Where the element rule matches, it has read exactly one list of elements
/// of the grammar, and no comma follows.
pub proof fn lemma_element_sound(s: Seq<Lexeme>, at: nat)
    requires
        element_rule(s, at).matched,
    ensures
        element_rule(s, at).consumed >= 1,
        at + element_rule(s, at).consumed <= s.len(),
        !(lexeme_at(s, at + element_rule(s, at).consumed) is Comma),
        is_elements(span(s, at, at + element_rule(s, at).consumed)),
    decreases element_rank(left(s, at)),
{
    let value = value_rule(s, at);
    let after = at + value.consumed;
    let whole = span(s, at, at + element_rule(s, at).consumed);
    lemma_value_sound(s, at);
    if lexeme_at(s, after) is Comma {
        lemma_element_sound(s, after + 1);
        let k: int = value.consumed as int;
        assert(whole.subrange(0, k) =~= span(s, at, after));
        assert(whole.subrange(k + 1, whole.len() as int) =~= span(
            s,
            after + 1,
            after + 1 + element_rule(s, after + 1).consumed,
        ));
    }
}

/// Where the grammar derives a value from `s[at..end]`, the value rule
/// matches at `at` and reads exactly up to `end`, whatever follows.
pub proof fn lemma_value_complete(s: Seq<Lexeme>, at: nat, end: nat)
    requires
        at <= end <= s.len(),
        is_value(span(s, at, end)),
    ensures
        value_rule(s, at) == (Outcome { matched: true, consumed: (end - at) as nat }),
    decreases end - at, 2nat,
{
    let whole = span(s, at, end);
    if whole.len() == 1 && whole[0].is_simple() {
    } else if is_object(whole) {
        lemma_object_complete(s, at, end);
    } else {
        lemma_array_complete(s, at, end);
    }
}

/// Where the grammar derives an object from `s[at..end]`, the object rule
/// matches at `at` and reads exactly up to `end`.
pub proof fn lemma_object_complete(s: Seq<Lexeme>, at: nat, end: nat)
    requires
        at <= end <= s.len(),
        is_object(span(s, at, end)),
    ensures
        object_rule(s, at) == (Outcome { matched: true, consumed: (end - at) as nat }),
    decreases end - at, 1nat,
{
    let whole = span(s, at, end);
    if whole.len() > 2 {
        let inside = span(s, at + 1, (end - 1) as nat);
        assert(whole.subrange(1, whole.len() - 1) =~= inside);
        lemma_members_complete(s, at + 1, (end - 1) as nat);
    }
}

/// Where the grammar derives a list of members from `s[at..end]` and `}`
/// follows, the member rule matches at `at` and reads exactly up to `end`.
pub proof fn lemma_members_complete(s: Seq<Lexeme>, at: nat, end: nat)
    requires
        at <= end <= s.len(),
        is_members(span(s, at, end)),
        lexeme_at(s, end) is RightBrace,
    ensures
        member_rule(s, at) == (Outcome { matched: true, consumed: (end - at) as nat }),
    decreases end - at, 0nat,
{
    let whole = span(s, at, end);
    if is_value(whole.subrange(2, whole.len() as int)) {
        assert(whole.subrange(2, whole.len() as int) =~= span(s, at + 2, end));
        lemma_value_complete(s, at + 2, end);
    } else {
        let k = choose|k: int|
            2 < k < whole.len() - 1 && is_value(#[trigger] whole.subrange(2, k)) && whole[k] is Comma
                && is_members(whole.subrange(k + 1, whole.len() as int));
        assert(whole.subrange(2, k) =~= span(s, at + 2, (at + k) as nat));
        assert(whole.subrange(k + 1, whole.len() as int) =~= span(s, (at + k + 1) as nat, end));
        lemma_value_complete(s, at + 2, (at + k) as nat);
        lemma_members_complete(s, (at + k + 1) as nat, end);
    }
}

/// Where the grammar derives an array from `s[at..end]`, the array rule
/// matches at `at` and reads exactly up to `end`.
pub proof fn lemma_array_complete(s: Seq<Lexeme>, at: nat, end: nat)
    requires
        at <= end <= s.len(),
        is_array(span(s, at, end)),
    ensures
        array_rule(s, at) == (Outcome { matched: true, consumed: (end - at) as nat }),
    decreases end - at, 1nat,
{
    let whole = span(s, at, end);
    if whole.len() > 2 {
        let inside = span(s, at + 1, (end - 1) as nat);
        assert(whole.subrange(1, whole.len() - 1) =~= inside);
        lemma_elements_opening(inside);
        lemma_elements_complete(s, at + 1, (end - 1) as nat);
    }
}

/// Where the grammar derives a list of elements from `s[at..end]` and no
/// comma follows, the element rule matches at `at` and reads exactly up to
/// `end`.
pub proof fn lemma_elements_complete(s: Seq<Lexeme>, at: nat, end: nat)
    requires
        at <= end <= s.len(),
        is_elements(span(s, at, end)),
        !(lexeme_at(s, end) is Comma),
    ensures
        element_rule(s, at) == (Outcome { matched: true, consumed: (end - at) as nat }),
    decreases end - at, 3nat,
{
    let whole = span(s, at, end);
    if is_value(whole) {
        lemma_value_complete(s, at, end);
    } else {
        let k = choose|k: int|
            0 < k < whole.len() - 1 && is_value(#[trigger] whole.subrange(0, k)) && whole[k] is Comma
                && is_elements(whole.subrange(k + 1, whole.len() as int));
        assert(whole.subrange(0, k) =~= span(s, at, (at + k) as nat));
        assert(whole.subrange(k + 1, whole.len() as int) =~= span(s, (at + k + 1) as nat, end));
        lemma_value_complete(s, at, (at + k) as nat);
        lemma_elements_complete(s, (at + k + 1) as nat, end);
    }
}

/// The value rule, run from the first token, matches and reads every token
/// exactly when the whole sequence is one value of the grammar.
pub proof fn lemma_value_rule_decides(s: Seq<Lexeme>)
    ensures
        (value_rule(s, 0).matched && value_rule(s, 0).consumed == s.len()) <==> is_value(s),
{
    assert(s.subrange(0, s.len() as int) =~= s);
    if value_rule(s, 0).matched && value_rule(s, 0).consumed == s.len() {
        lemma_value_sound(s, 0);
    }
    if is_value(s) {
        lemma_value_complete(s, 0, s.len());
    }
}

/// A value of the grammar starts at position `at` of `s`.
pub open spec fn value_starts(s: Seq<Lexeme>, at: nat) -> bool {
    exists|end: nat| at <= end <= s.len() && is_value(#[trigger] span(s, at, end))
}

/// An object of the grammar starts at position `at` of `s`.
pub open spec fn object_starts(s: Seq<Lexeme>, at: nat) -> bool {
    exists|end: nat| at <= end <= s.len() && is_object(#[trigger] span(s, at, end))
}

/// An array of the grammar starts at position `at` of `s`.
pub open spec fn array_starts(s: Seq<Lexeme>, at: nat) -> bool {
    exists|end: nat| at <= end <= s.len() && is_array(#[trigger] span(s, at, end))
}

/// A list of members of the grammar starts at position `at` of `s` and is
/// followed by `}`.
pub open spec fn members_start(s: Seq<Lexeme>, at: nat) -> bool {
    exists|end: nat|
        at <= end <= s.len() && is_members(#[trigger] span(s, at, end)) && lexeme_at(s, end)
            is RightBrace
}

/// A list of elements of the grammar starts at position `at` of `s` and is
/// followed by no comma.
pub open spec fn elements_start(s: Seq<Lexeme>, at: nat) -> bool {
    exists|end: nat|
        at <= end <= s.len() && is_elements(#[trigger] span(s, at, end)) && !(lexeme_at(s, end)
            is Comma)
}

/// The value rule matches exactly where a value of the grammar starts, and
/// reads that value.
pub proof fn lemma_value_rule_means(s: Seq<Lexeme>, at: nat)
    ensures
        value_rule(s, at).matched == value_starts(s, at),
        value_rule(s, at).matched ==> is_value(span(s, at, at + value_rule(s, at).consumed)),
{
    if value_rule(s, at).matched {
        lemma_value_sound(s, at);
    }
    if value_starts(s, at) {
        let end = choose|end: nat| at <= end <= s.len() && is_value(#[trigger] span(s, at, end));
        lemma_value_complete(s, at, end);
    }
}

/// At a `{`, the object rule matches exactly where an object of the grammar
/// starts, and reads that object.
pub proof fn lemma_object_rule_means(s: Seq<Lexeme>, at: nat)
    requires
        lexeme_at(s, at) is LeftBrace,
    ensures
        object_rule(s, at).matched == object_starts(s, at),
        object_rule(s, at).matched ==> is_object(span(s, at, at + object_rule(s, at).consumed)),
{
    if object_rule(s, at).matched {
        lemma_object_sound(s, at);
    }
    if object_starts(s, at) {
        let end = choose|end: nat| at <= end <= s.len() && is_object(#[trigger] span(s, at, end));
        lemma_object_complete(s, at, end);
    }
}

/// At a `[`, the array rule matches exactly where an array of the grammar
/// starts, and reads that array.
pub proof fn lemma_array_rule_means(s: Seq<Lexeme>, at: nat)
    requires
        lexeme_at(s, at) is LeftBracket,
    ensures
        array_rule(s, at).matched == array_starts(s, at),
        array_rule(s, at).matched ==> is_array(span(s, at, at + array_rule(s, at).consumed)),
{
    if array_rule(s, at).matched {
        lemma_array_sound(s, at);
    }
    if array_starts(s, at) {
        let end = choose|end: nat| at <= end <= s.len() && is_array(#[trigger] span(s, at, end));
        lemma_array_complete(s, at, end);
    }
}

/// The member rule matches exactly where a list of members of the grammar
/// starts that `}` follows, and reads that list.
pub proof fn lemma_member_rule_means(s: Seq<Lexeme>, at: nat)
    ensures
        member_rule(s, at).matched == members_start(s, at),
        member_rule(s, at).matched ==> is_members(
            span(s, at, at + member_rule(s, at).consumed),
        ),
{
    if member_rule(s, at).matched {
        lemma_member_sound(s, at);
        let end = at + member_rule(s, at).consumed;
    }
    if members_start(s, at) {
        let end = choose|end: nat|
            at <= end <= s.len() && is_members(#[trigger] span(s, at, end)) && lexeme_at(s, end)
                is RightBrace;
        lemma_members_complete(s, at, end);
    }
}

/// The element rule matches exactly where a list of elements of the grammar
/// starts that no comma follows, and reads that list.
pub proof fn lemma_element_rule_means(s: Seq<Lexeme>, at: nat)
    ensures
        element_rule(s, at).matched == elements_start(s, at),
        element_rule(s, at).matched ==> is_elements(
            span(s, at, at + element_rule(s, at).consumed),
        ),
{
    if element_rule(s, at).matched {
        lemma_element_sound(s, at);
        let end = at + element_rule(s, at).consumed;
    }
    if elements_start(s, at) {
        let end = choose|end: nat|
            at <= end <= s.len() && is_elements(#[trigger] span(s, at, end)) && !(lexeme_at(
                s,
                end,
            ) is Comma);
        lemma_elements_complete(s, at, end);
    }
}

} // verus!
