//! Counting the words of a text.

use vstd::prelude::*;

verus! {

/// ASCII whitespace: space, tab, line feed, form feed or carriage return.
pub open spec fn is_whitespace(c: char) -> bool {
    c == ' ' || c == '\t' || c == '\n' || c == '\x0C' || c == '\r'
}

/// Tells whether `c` is ASCII whitespace.
pub fn is_ascii_whitespace(c: char) -> (white: bool)
    ensures
        white == is_whitespace(c),
{
    c == ' ' || c == '\t' || c == '\n' || c == '\x0C' || c == '\r'
}

/// A word starts at position `at` of `s`: the character there is no
/// whitespace, and it is the first of `s` or comes after whitespace.
pub open spec fn starts_word(s: Seq<char>, at: int) -> bool {
    &&& 0 <= at < s.len()
    &&& !is_whitespace(s[at])
    &&& (at == 0 || is_whitespace(s[at - 1]))
}

/// The number of words in `s`: the number of positions at which a word
/// starts.
pub open spec fn word_count(s: Seq<char>) -> nat
    decreases s.len(),
{
    if s.len() == 0 {
        0
    } else {
        word_count(s.drop_last()) + if starts_word(s, s.len() - 1) {
            1nat
        } else {
            0nat
        }
    }
}

/// A text has no more words than any text that it opens, and no more words
/// than characters.
pub proof fn lemma_word_count_grows(s: Seq<char>, upto: int)
    requires
        0 <= upto <= s.len(),
    ensures
        word_count(s.take(upto)) <= word_count(s) <= s.len(),
    decreases s.len(),
{
    if s.len() == 0 {
        assert(s.take(upto) =~= s);
    } else if upto == s.len() {
        assert(s.take(upto) =~= s);
        lemma_word_count_grows(s.drop_last(), 0);
    } else {
        assert(s.drop_last().take(upto) =~= s.take(upto));
        lemma_word_count_grows(s.drop_last(), upto);
    }
}

/// Counts the words of `content`: the maximal runs of characters that are
/// not ASCII whitespace.
pub fn count_words(content: &str) -> (count: i32)
    requires
        word_count(content@) <= i32::MAX,
    ensures
        count == word_count(content@),
{
    let ghost text = content@;
    let mut total_word_count: i32 = 0;
    let mut in_word = false;
    for ch in chars: content.chars()
        invariant
            chars.seq() == text,
            text == content@,
            word_count(text) <= i32::MAX,
            in_word == (chars.index() > 0 && !is_whitespace(text[chars.index() - 1])),
            total_word_count + (if in_word { 1int } else { 0int }) == word_count(
                text.take(chars.index() as int),
            ),
    {
        proof {
            let seen = chars.index() as int;
            assert(text.take(seen + 1).drop_last() =~= text.take(seen));
            lemma_word_count_grows(text, seen + 1);
        }
        if is_ascii_whitespace(ch) {
            if in_word {
                total_word_count = total_word_count + 1;
                in_word = false;
            }
        } else {
            in_word = true;
        }
    }
    proof {
        assert(text.take(text.len() as int) =~= text);
    }
    if in_word {
        total_word_count = total_word_count + 1;
    }
    total_word_count
}

} // verus!
