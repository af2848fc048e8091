//! What holds of every text and of every token sequence.

use vstd::prelude::*;
use crate::agreement::{lemma_elements_opening, lemma_value_complete};
use crate::document::{verdict_of, Verdict};
use crate::grammar::{is_elements, is_members, is_value};
use crate::scan::{lex_line, lex_lines};
use crate::token::Lexeme;

verus! {

/// A lexeme that closes an object or an array.
pub open spec fn closes(lexeme: Lexeme) -> bool {
    lexeme is RightBrace || lexeme is RightBracket
}

/// The same text always has the same tokens and the same verdict.  Both are
/// functions of the characters of its lines and of nothing else.
pub proof fn lemma_same_text_same_verdict(first: Seq<Seq<char>>, second: Seq<Seq<char>>)
    requires
        first.len() == second.len(),
        forall|i: int| 0 <= i < first.len() ==> first[i] =~= second[i],
    ensures
        lex_lines(first) == lex_lines(second),
        verdict_of(first) == verdict_of(second),
{
    assert(first =~= second);
}

/// A text without lines has no tokens, and so has a line without
/// characters.
pub proof fn lemma_empty_text_has_no_tokens()
    ensures
        lex_lines(Seq::empty()) == Some(Seq::<Lexeme>::empty()),
        lex_line(Seq::empty()) == Some(Seq::<Lexeme>::empty()),
{
}

/// A text lexes to no token at all exactly when the validator is not asked:
/// the verdict is then that there is nothing to parse.  In particular no
/// value is derived from no tokens.
pub proof fn lemma_no_tokens_nothing_to_parse(lines: Seq<Seq<char>>)
    ensures
        verdict_of(lines) == Verdict::NothingToParse <==> lex_lines(lines) == Some(
            Seq::<Lexeme>::empty(),
        ),
        verdict_of(Seq::empty()) == Verdict::NothingToParse,
        !is_value(Seq::empty()),
{
    if lex_lines(lines) is Some && lex_lines(lines)->0.len() == 0 {
        assert(lex_lines(lines)->0 =~= Seq::<Lexeme>::empty());
    }
}

/// A text has tokens exactly when every one of its lines has: one line that
/// cannot be lexed leaves the whole text without tokens, whatever the other
/// lines hold.
pub proof fn lemma_lexes_iff_every_line_lexes(lines: Seq<Seq<char>>)
    ensures
        lex_lines(lines) is Some <==> forall|i: int|
            0 <= i < lines.len() ==> (#[trigger] lex_line(lines[i])) is Some,
    decreases lines.len(),
{
    if lines.len() > 0 {
        let front = lines.drop_last();
        lemma_lexes_iff_every_line_lexes(front);
        if lex_lines(lines) is Some {
            assert forall|i: int| 0 <= i < lines.len() implies (#[trigger] lex_line(
                lines[i],
            )) is Some by {
                if i < front.len() {
                    assert(front[i] == lines[i]);
                }
            }
        }
        if forall|i: int| 0 <= i < lines.len() ==> (#[trigger] lex_line(lines[i])) is Some {
            assert forall|i: int| 0 <= i < front.len() implies (#[trigger] lex_line(
                front[i],
            )) is Some by {
                assert(front[i] == lines[i]);
            }
        }
    }
}

/// A text that cannot be lexed is never valid: its verdict is that of an
/// illegal character, and only such a text has that verdict.
pub proof fn lemma_no_verdict_without_tokens(lines: Seq<Seq<char>>)
    ensures
        verdict_of(lines) == Verdict::IllegalCharacter <==> lex_lines(lines) is None,
{
}

/// The last lexeme of a value is a simple value or closes a collection.
pub proof fn lemma_value_ending(s: Seq<Lexeme>)
    requires
        is_value(s),
    ensures
        s.len() >= 1,
        s[s.len() - 1].is_simple() || closes(s[s.len() - 1]),
{
}

/// A list of members ends as a value does.
pub proof fn lemma_members_ending(s: Seq<Lexeme>)
    requires
        is_members(s),
    ensures
        s.len() >= 1,
        s[s.len() - 1].is_simple() || closes(s[s.len() - 1]),
    decreases s.len(),
{
    if !is_value(s.subrange(2, s.len() as int)) {
        // The list ends as the members after its first comma do.
        let k = choose|k: int|
            2 < k < s.len() - 1 && is_value(#[trigger] s.subrange(2, k)) && s[k] is Comma
                && is_members(s.subrange(k + 1, s.len() as int));
        lemma_members_ending(s.subrange(k + 1, s.len() as int));
    }
}

/// A list of elements ends as a value does.
pub proof fn lemma_elements_ending(s: Seq<Lexeme>)
    requires
        is_elements(s),
    ensures
        s.len() >= 1,
        s[s.len() - 1].is_simple() || closes(s[s.len() - 1]),
    decreases s.len(),
{
    if !is_value(s) {
        // The list ends as the elements after its first comma do.
        let k = choose|k: int|
            0 < k < s.len() - 1 && is_value(#[trigger] s.subrange(0, k)) && s[k] is Comma
                && is_elements(s.subrange(k + 1, s.len() as int));
        lemma_elements_ending(s.subrange(k + 1, s.len() as int));
    }
}

/// In a value no comma stands directly before a closing brace or bracket.
pub proof fn lemma_value_has_no_trailing_comma(s: Seq<Lexeme>, at: int)
    requires
        is_value(s),
        0 <= at,
        at + 1 < s.len(),
        s[at] is Comma,
    ensures
        !closes(s[at + 1]),
    decreases s.len(), 1nat,
{
    if s.len() > 2 {
        // The value is a collection, and the comma stands inside it: it is
        // not the opening token, nor the last token inside.
        let inside = s.subrange(1, s.len() - 1);
        if s[0] is LeftBrace {
            lemma_members_ending(inside);
            lemma_members_have_no_trailing_comma(inside, at - 1);
        } else {
            lemma_elements_ending(inside);
            lemma_elements_have_no_trailing_comma(inside, at - 1);
        }
    }
}

/// In a list of members no comma stands directly before a closing brace or
/// bracket.
pub proof fn lemma_members_have_no_trailing_comma(s: Seq<Lexeme>, at: int)
    requires
        is_members(s),
        0 <= at,
        at + 1 < s.len(),
        s[at] is Comma,
    ensures
        !closes(s[at + 1]),
    decreases s.len(), 0nat,
{
    let rest = s.subrange(2, s.len() as int);
    if is_value(rest) {
        lemma_value_has_no_trailing_comma(rest, at - 2);
    } else {
        let k = choose|k: int|
            2 < k < s.len() - 1 && is_value(#[trigger] s.subrange(2, k)) && s[k] is Comma
                && is_members(s.subrange(k + 1, s.len() as int));
        let head = s.subrange(2, k);
        let tail = s.subrange(k + 1, s.len() as int);
        // The comma stands in the first value, or in the members after the
        // separating comma, or it stands before the separating comma, or is
        // that comma itself, and a key follows it.
        if at + 1 < k {
            lemma_value_has_no_trailing_comma(head, at - 2);
        } else if at > k {
            lemma_members_have_no_trailing_comma(tail, at - k - 1);
        }
    }
}

/// In a list of elements no comma stands directly before a closing brace or
/// bracket.
pub proof fn lemma_elements_have_no_trailing_comma(s: Seq<Lexeme>, at: int)
    requires
        is_elements(s),
        0 <= at,
        at + 1 < s.len(),
        s[at] is Comma,
    ensures
        !closes(s[at + 1]),
    decreases s.len(), 2nat,
{
    if is_value(s) {
        lemma_value_has_no_trailing_comma(s, at);
    } else {
        let k = choose|k: int|
            0 < k < s.len() - 1 && is_value(#[trigger] s.subrange(0, k)) && s[k] is Comma
                && is_elements(s.subrange(k + 1, s.len() as int));
        let head = s.subrange(0, k);
        let tail = s.subrange(k + 1, s.len() as int);
        // The comma stands in the first value, or in the elements after
        // the separating comma, or it stands before the separating comma,
        // or is that comma itself, and a value follows it.
        if at + 1 < k {
            lemma_value_has_no_trailing_comma(head, at);
        } else if at == k {
            lemma_elements_opening(tail);
        } else if at > k {
            lemma_elements_have_no_trailing_comma(tail, at - k - 1);
        }
    }
}

/// A trailing comma is always rejected: a token sequence in which a comma
/// stands directly before a closing brace or bracket, at any depth, is no
/// value.
pub proof fn lemma_trailing_comma_rejected(s: Seq<Lexeme>, at: int)
    requires
        0 <= at,
        at + 1 < s.len(),
        s[at] is Comma,
        closes(s[at + 1]),
    ensures
        !is_value(s),
{
    if is_value(s) {
        lemma_value_has_no_trailing_comma(s, at);
    }
}

/// Leftover tokens are always rejected: a value followed by one token or
/// more is no value.
pub proof fn lemma_leftover_rejected(value: Seq<Lexeme>, extra: Seq<Lexeme>)
    requires
        is_value(value),
        extra.len() > 0,
    ensures
        !is_value(value + extra),
{
    let s = value + extra;
    if is_value(s) {
        assert(s.subrange(0, value.len() as int) =~= value);
        assert(s.subrange(0, s.len() as int) =~= s);
        lemma_value_complete(s, 0, value.len());
        lemma_value_complete(s, 0, s.len());
    }
}

} // verus!
