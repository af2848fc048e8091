//! How tokens are written, and that the lexer reads what is written.

use vstd::prelude::*;
use crate::scan::{
    chars_left, digit_run, followed_by, lex_from, lex_line, lex_lines, piece_at, stretch,
    unquoted_run, Piece,
};
use crate::text::is_digit;
use crate::token::Lexeme;

verus! {

/// The characters that a lexeme is written with.  The end marker is not
/// written at all.
pub open spec fn spelling(lexeme: Lexeme) -> Seq<char> {
    match lexeme {
        Lexeme::LeftBrace => seq!['{'],
        Lexeme::RightBrace => seq!['}'],
        Lexeme::LeftBracket => seq!['['],
        Lexeme::RightBracket => seq![']'],
        Lexeme::Colon => seq![':'],
        Lexeme::Comma => seq![','],
        Lexeme::Str(text) => text,
        Lexeme::True => seq!['t', 'r', 'u', 'e'],
        Lexeme::False => seq!['f', 'a', 'l', 's', 'e'],
        Lexeme::Null => seq!['n', 'u', 'l', 'l'],
        Lexeme::Number(digits) => digits,
        Lexeme::End => Seq::empty(),
    }
}

/// The characters that a piece is written with: those of its token, or one
/// space.
pub open spec fn piece_spelling(piece: Piece) -> Seq<char> {
    match piece.lexeme {
        Some(lexeme) => spelling(lexeme),
        None => seq![' '],
    }
}

/// A line on which `lexemes` are written in order, each followed by one
/// space.
pub open spec fn spell(lexemes: Seq<Lexeme>) -> Seq<char>
    decreases lexemes.len(),
{
    if lexemes.len() == 0 {
        Seq::empty()
    } else {
        spelling(lexemes[0]) + seq![' '] + spell(lexemes.drop_first())
    }
}

/// Every lexeme of `lexemes` can stand in a text.
pub open spec fn all_proper(lexemes: Seq<Lexeme>) -> bool {
    forall|i: int| 0 <= i < lexemes.len() ==> (#[trigger] lexemes[i]).is_proper()
}

/// A text whose first lines cannot be lexed cannot be lexed, whatever the
/// later lines hold.
pub proof fn lemma_failure_is_final(lines: Seq<Seq<char>>, upto: int)
    requires
        0 <= upto <= lines.len(),
        lex_lines(lines.take(upto)) is None,
    ensures
        lex_lines(lines) is None,
    decreases lines.len(),
{
    if upto < lines.len() {
        assert(lines.drop_last().take(upto) =~= lines.take(upto));
        lemma_failure_is_final(lines.drop_last(), upto);
    } else {
        assert(lines.take(upto) =~= lines);
    }
}

/// The run of characters before the next quote ends within the line, holds
/// no quote, and ends at a quote or at the end of the line.
pub proof fn lemma_unquoted_run(s: Seq<char>, from: nat)
    requires
        from <= s.len(),
    ensures
        from + unquoted_run(s, from) <= s.len(),
        forall|i: int| from <= i < from + unquoted_run(s, from) ==> s[i] != '"',
        from + unquoted_run(s, from) < s.len() ==> s[(from + unquoted_run(s, from)) as int] == '"',
    decreases s.len() - from,
{
    if from < s.len() && s[from as int] != '"' {
        lemma_unquoted_run(s, from + 1);
    }
}

/// The run of digits ends within the line, holds digits only, and ends
/// before a character that is no digit or at the end of the line.
pub proof fn lemma_digit_run(s: Seq<char>, from: nat)
    requires
        from <= s.len(),
    ensures
        from + digit_run(s, from) <= s.len(),
        forall|i: int| from <= i < from + digit_run(s, from) ==> is_digit(s[i]),
        from + digit_run(s, from) < s.len() ==> !is_digit(s[(from + digit_run(s, from)) as int]),
    decreases s.len() - from,
{
    if from < s.len() && is_digit(s[from as int]) {
        lemma_digit_run(s, from + 1);
    }
}

/// A run of characters that are no quote, closed by a quote, is measured as
/// it is.
pub proof fn lemma_unquoted_run_found(s: Seq<char>, from: nat, close: nat)
    requires
        from <= close < s.len(),
        forall|i: int| from <= i < close ==> s[i] != '"',
        s[close as int] == '"',
    ensures
        unquoted_run(s, from) == close - from,
    decreases close - from,
{
    if from < close {
        lemma_unquoted_run_found(s, from + 1, close);
    }
}

/// A run of digits, ended by a character that is no digit, is measured as
/// it is.
pub proof fn lemma_digit_run_found(s: Seq<char>, from: nat, end: nat)
    requires
        from <= end < s.len(),
        forall|i: int| from <= i < end ==> is_digit(s[i]),
        !is_digit(s[end as int]),
    ensures
        digit_run(s, from) == end - from,
    decreases end - from,
{
    if from < end {
        lemma_digit_run_found(s, from + 1, end);
    }
}

/// A piece lies within its line, takes up at least one character, and the
/// characters that it takes up are its spelling.  Its token, if it is one,
/// can stand in a text.
pub proof fn lemma_piece_is_spelt(s: Seq<char>, at: nat)
    requires
        at < s.len(),
        piece_at(s, at) is Some,
    ensures
        piece_at(s, at)->0.length >= 1,
        at + piece_at(s, at)->0.length <= s.len(),
        stretch(s, at, at + piece_at(s, at)->0.length) == piece_spelling(piece_at(s, at)->0),
        piece_at(s, at)->0.lexeme matches Some(lexeme) ==> lexeme.is_proper(),
{
    let c = s[at as int];
    if c == '"' {
        lemma_unquoted_run(s, at + 1);
    } else if is_digit(c) {
        lemma_digit_run(s, at + 1);
    }
}

/// Every lexeme that the lexer finds on a line can stand in a text: none
/// is the end marker, every string is written as one, and so is every
/// number.
pub proof fn lemma_lexed_from_proper(s: Seq<char>, at: nat)
    requires
        lex_from(s, at) is Some,
    ensures
        all_proper(lex_from(s, at)->0),
    decreases chars_left(s, at),
{
    if at < s.len() {
        lemma_piece_is_spelt(s, at);
        lemma_lexed_from_proper(s, at + piece_at(s, at)->0.length);
    }
}

/// Every lexeme that the lexer finds in a text can stand in a text.
pub proof fn lemma_lexed_proper(lines: Seq<Seq<char>>)
    requires
        lex_lines(lines) is Some,
    ensures
        all_proper(lex_lines(lines)->0),
    decreases lines.len(),
{
    if lines.len() > 0 {
        lemma_lexed_proper(lines.drop_last());
        lemma_lexed_from_proper(lines.last(), 0);
    }
}

/// Characters put before a line move its runs and change nothing else.
pub proof fn lemma_runs_shift(before: Seq<char>, s: Seq<char>, from: nat)
    ensures
        unquoted_run(before + s, before.len() + from) == unquoted_run(s, from),
        digit_run(before + s, before.len() + from) == digit_run(s, from),
    decreases chars_left(s, from),
{
    if from < s.len() {
        lemma_runs_shift(before, s, from + 1);
    }
}

/// Characters put before a line move its pieces and change nothing else.
pub proof fn lemma_piece_shifts(before: Seq<char>, s: Seq<char>, at: nat)
    requires
        at < s.len(),
    ensures
        piece_at(before + s, before.len() + at) == piece_at(s, at),
{
    let whole = before + s;
    let moved = before.len() + at;
    assert forall|i: int| 0 <= i < s.len() implies whole[before.len() + i] == s[i] by {}
    lemma_runs_shift(before, s, at + 1);
    lemma_digit_run(s, at + 1);
    let body = unquoted_run(s, at + 1);
    let more = digit_run(s, at + 1);
    if at + 1 + body < s.len() {
        assert(stretch(whole, moved, moved + body + 2) =~= stretch(s, at, at + body + 2));
    }
    assert(stretch(whole, moved, moved + 1 + more) =~= stretch(s, at, at + 1 + more));
}

/// Characters put before a line do not change what is lexed from the line
/// itself.
pub proof fn lemma_lexing_shifts(before: Seq<char>, s: Seq<char>, at: nat)
    ensures
        lex_from(before + s, before.len() + at) == lex_from(s, at),
    decreases chars_left(s, at),
{
    if at < s.len() {
        lemma_piece_shifts(before, s, at);
        if piece_at(s, at) is Some {
            lemma_lexing_shifts(before, s, at + piece_at(s, at)->0.length);
        }
    }
}

/// A lexeme that can stand in a text, written at the start of a line and
/// followed by a space, is read back as it is.
pub proof fn lemma_spelling_is_read(lexeme: Lexeme, after: Seq<char>)
    requires
        lexeme.is_proper(),
    ensures
        piece_at(spelling(lexeme) + seq![' '] + after, 0) == Some(
            Piece { lexeme: Some(lexeme), length: spelling(lexeme).len() },
        ),
{
    let word = spelling(lexeme);
    let s = word + seq![' '] + after;
    assert forall|i: int| 0 <= i < word.len() implies s[i] == word[i] by {}
    match lexeme {
        Lexeme::Str(text) => {
            lemma_unquoted_run_found(s, 1, (text.len() - 1) as nat);
            assert(stretch(s, 0, text.len()) =~= text);
        },
        Lexeme::Number(digits) => {
            lemma_digit_run_found(s, 1, digits.len());
            assert(stretch(s, 0, digits.len()) =~= digits);
        },
        _ => {},
    }
}

/// Writing and reading are inverse: lexemes that can stand in a text,
/// written on a line one after the other with a space after each, are what
/// the lexer finds on that line.
pub proof fn lemma_spell_then_lex(lexemes: Seq<Lexeme>)
    requires
        all_proper(lexemes),
    ensures
        lex_line(spell(lexemes)) == Some(lexemes),
    decreases lexemes.len(),
{
    if lexemes.len() > 0 {
        let first = lexemes[0];
        let others = lexemes.drop_first();
        let word = spelling(first);
        let head = word + seq![' '];
        let s = head + spell(others);
        assert forall|i: int| 0 <= i < others.len() implies (#[trigger] others[i]).is_proper() by {
            assert(others[i] == lexemes[i + 1]);
        }
        lemma_spell_then_lex(others);
        // The first lexeme is read back, its space yields nothing, and from
        // there on the line is lexed as the line of the others is.
        lemma_spelling_is_read(first, spell(others));
        lemma_lexing_shifts(head, spell(others), 0);
        assert(lex_from(s, 0) == followed_by(seq![first], lex_from(s, word.len())));
    }
}

/// One of the six characters that are a token by themselves.
pub open spec fn is_structural(c: char) -> bool {
    c == '{' || c == '}' || c == '[' || c == ']' || c == ':' || c == ','
}

/// From any position of a line that holds only spaces, no lexeme is found.
pub proof fn lemma_blank_from(s: Seq<char>, at: nat)
    requires
        forall|i: int| 0 <= i < s.len() ==> s[i] == ' ',
    ensures
        lex_from(s, at) == Some(Seq::<Lexeme>::empty()),
    decreases chars_left(s, at),
{
    if at < s.len() {
        lemma_blank_from(s, at + 1);
    }
}

/// Spaces yield no token: a line that holds only spaces has none.
pub proof fn lemma_blank_line_has_no_tokens(s: Seq<char>)
    requires
        forall|i: int| 0 <= i < s.len() ==> s[i] == ' ',
    ensures
        lex_line(s) == Some(Seq::<Lexeme>::empty()),
{
    lemma_blank_from(s, 0);
}

/// From any position of a line that holds only structural characters,
/// digits and spaces, the lexer finds lexemes.
pub proof fn lemma_plain_from(s: Seq<char>, at: nat)
    requires
        forall|i: int| 0 <= i < s.len() ==> is_structural(s[i]) || is_digit(s[i]) || s[i] == ' ',
    ensures
        lex_from(s, at) is Some,
    decreases chars_left(s, at),
{
    if at < s.len() {
        lemma_plain_from(s, at + piece_at(s, at)->0.length);
    }
}

/// A line that holds only structural characters, digits and spaces always
/// has tokens: the lexer fails on no such line.
pub proof fn lemma_plain_line_lexes(s: Seq<char>)
    requires
        forall|i: int| 0 <= i < s.len() ==> is_structural(s[i]) || is_digit(s[i]) || s[i] == ' ',
    ensures
        lex_line(s) is Some,
{
    lemma_plain_from(s, 0);
}

/// Lines are lexed apart from each other: the lexemes of two texts put one
/// after the other are those of the first followed by those of the second,
/// and there are none where either text has none.
pub proof fn lemma_texts_lex_apart(first: Seq<Seq<char>>, second: Seq<Seq<char>>)
    ensures
        lex_lines(first + second) == match lex_lines(first) {
            Some(found) => followed_by(found, lex_lines(second)),
            None => None,
        },
    decreases second.len(),
{
    if second.len() == 0 {
        assert(first + second =~= first);
    } else {
        // The last line of the second text is the last line of both.
        let front = second.drop_last();
        assert((first + second).drop_last() =~= first + front);
        assert((first + second).last() == second.last());
        lemma_texts_lex_apart(first, front);
    }
}

} // verus!
