//! Characters of a line, and building the text of a token.

use vstd::prelude::*;

verus! {

/// Taken on trust from the standard library: `std::string::String::push`
/// appends the character `ch` to the end of `text` and changes nothing else
/// of it, as its documentation says.
pub assume_specification[ std::string::String::push ](text: &mut std::string::String, ch: char)
    ensures
        final(text)@ == old(text)@.push(ch),
;

/// An ASCII decimal digit, `0` to `9`.
pub open spec fn is_digit(c: char) -> bool {
    '0' <= c && c <= '9'
}

/// Tells whether `c` is an ASCII decimal digit.
pub fn is_ascii_digit(c: char) -> (digit: bool)
    ensures
        digit == is_digit(c),
{
    '0' <= c && c <= '9'
}

/// The characters of `line`, in order.
pub fn chars_of(line: &str) -> (chars: Vec<char>)
    ensures
        chars@ == line@,
{
    let mut chars: Vec<char> = Vec::new();
    for c in rest: line.chars()
        invariant
            rest.seq() == line@,
            chars@ == line@.take(rest.index() as int),
    {
        chars.push(c);
    }
    chars
}

/// The characters `chars[from..to]` as a string.
pub fn text_of(chars: &[char], from: usize, to: usize) -> (text: String)
    requires
        from <= to <= chars@.len(),
    ensures
        text@ == chars@.subrange(from as int, to as int),
{
    let mut text = String::new();
    let mut i: usize = from;
    while i < to
        invariant
            from <= i <= to <= chars@.len(),
            text@ == chars@.subrange(from as int, i as int),
        decreases to - i,
    {
        text.push(chars[i]);
        i = i + 1;
    }
    text
}

} // verus!
