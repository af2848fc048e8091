//! The recursive-descent validator: one function per grammar rule, each a
//! function of the cursor's position.
//!
//! The rules call each other as the values nest, so the call stack grows
//! with the depth of nesting.  No limit is set on that depth.

use vstd::prelude::*;
use crate::agreement::{
    array_starts, elements_start, lemma_array_rule_means, lemma_element_rule_means,
    lemma_member_rule_means, lemma_object_rule_means, lemma_value_rule_decides,
    lemma_value_rule_means, members_start, object_starts, value_starts,
};
use crate::cursor::JsonParser;
use crate::grammar::{is_array, is_elements, is_members, is_object, is_value, span};
use crate::rules::{
    array_rule, collection_rank, element_rank, element_rule, left, member_rank, member_rule,
    object_rule, value_rank, value_rule, Outcome,
};
use crate::token::{is_simple_value, lexemes, ParseError, Token};

verus! {

impl Outcome {
    /// The cursor `after` is the cursor `before` once a rule with this
    /// outcome has run, and `matched` is what the rule returned.
    pub open spec fn describes(self, before: &JsonParser, after: &JsonParser, matched: bool) -> bool {
        &&& matched == self.matched
        &&& after.follows(before, before.position() + self.consumed)
    }
}

/// Matches an object at the cursor.
///
/// The opening token is read unexamined, so callers look at it first.  At
/// a `{` the result is `true` exactly where an object of the grammar
/// starts, and the cursor then stands behind that object.  The closing
/// token is read whether or not the members matched, so after a failure the
/// cursor stands where [`object_rule`] says.
pub fn new_parse_object(parser: &mut JsonParser) -> (matched: bool)
    ensures
        object_rule(old(parser).lexemes(), old(parser).position()).describes(
            old(parser),
            final(parser),
            matched,
        ),
        old(parser).current() is LeftBrace ==> matched == object_starts(
            old(parser).lexemes(),
            old(parser).position(),
        ),
        old(parser).current() is LeftBrace && matched ==> is_object(
            span(old(parser).lexemes(), old(parser).position(), final(parser).position()),
        ),
    decreases collection_rank(left(old(parser).lexemes(), old(parser).position())),
{
    proof {
        if parser.current() is LeftBrace {
            lemma_object_rule_means(parser.lexemes(), parser.position());
        }
    }
    parser.read_left_brace();
    let members = match parser.peek() {
        Token::RightBrace => true,
        Token::String(_) => new_parse_object_member(parser),
        _ => false,
    };
    let closed = parser.read_right_brace();
    members && closed
}

/// Matches a list of one or more object members at the cursor, up to but
/// not including the `}` that must follow it.
///
/// The result is `true` exactly where such a list starts, and the cursor
/// then stands at the `}`.  After a failure the cursor stands behind the
/// token that did not fit, as [`member_rule`] says.
pub fn new_parse_object_member(parser: &mut JsonParser) -> (matched: bool)
    ensures
        member_rule(old(parser).lexemes(), old(parser).position()).describes(
            old(parser),
            final(parser),
            matched,
        ),
        matched == members_start(old(parser).lexemes(), old(parser).position()),
        matched ==> is_members(
            span(old(parser).lexemes(), old(parser).position(), final(parser).position()),
        ),
    decreases member_rank(left(old(parser).lexemes(), old(parser).position())),
{
    proof {
        lemma_member_rule_means(parser.lexemes(), parser.position());
    }
    let mut valid = parser.read_object_key();
    if !valid {
        return false;
    }
    valid = parser.read_colon();
    if !valid {
        return false;
    }
    valid = new_parse_object_value(parser);
    if !valid {
        return false;
    }
    match parser.peek() {
        Token::Comma => {
            parser.read();
            new_parse_object_member(parser)
        },
        Token::RightBrace => true,
        _ => false,
    }
}

/// Matches one value at the cursor.
///
/// The result is `true` exactly where a value of the grammar starts, and
/// the cursor then stands behind that value.  Where the current token can
/// start no value, nothing is read.
pub fn new_parse_object_value(parser: &mut JsonParser) -> (matched: bool)
    ensures
        value_rule(old(parser).lexemes(), old(parser).position()).describes(
            old(parser),
            final(parser),
            matched,
        ),
        matched == value_starts(old(parser).lexemes(), old(parser).position()),
        matched ==> is_value(
            span(old(parser).lexemes(), old(parser).position(), final(parser).position()),
        ),
    decreases value_rank(left(old(parser).lexemes(), old(parser).position())),
{
    proof {
        lemma_value_rule_means(parser.lexemes(), parser.position());
    }
    let token = parser.peek();
    if is_simple_value(token) {
        parser.read();
        true
    } else {
        match token {
            Token::LeftBrace => new_parse_object(parser),
            Token::LeftBracket => new_parse_array(parser),
            _ => false,
        }
    }
}

/// Matches an array at the cursor.
///
/// The opening token is read unexamined, so callers look at it first.  At
/// a `[` the result is `true` exactly where an array of the grammar starts,
/// and the cursor then stands behind that array.  The closing token is read
/// whether or not the elements matched, so after a failure the cursor
/// stands where [`array_rule`] says.
pub fn new_parse_array(parser: &mut JsonParser) -> (matched: bool)
    ensures
        array_rule(old(parser).lexemes(), old(parser).position()).describes(
            old(parser),
            final(parser),
            matched,
        ),
        old(parser).current() is LeftBracket ==> matched == array_starts(
            old(parser).lexemes(),
            old(parser).position(),
        ),
        old(parser).current() is LeftBracket && matched ==> is_array(
            span(old(parser).lexemes(), old(parser).position(), final(parser).position()),
        ),
    decreases collection_rank(left(old(parser).lexemes(), old(parser).position())),
{
    proof {
        if parser.current() is LeftBracket {
            lemma_array_rule_means(parser.lexemes(), parser.position());
        }
    }
    parser.read_left_bracket();
    let elements = match parser.peek() {
        Token::RightBracket => true,
        _ => new_parse_array_element(parser),
    };
    let closed = parser.read_right_bracket();
    elements && closed
}

/// Matches a list of one or more array elements at the cursor.
///
/// The list goes on as long as a comma follows a value, so the result is
/// `true` exactly where a list of elements starts that no comma follows,
/// and the cursor then stands behind that list.
pub fn new_parse_array_element(parser: &mut JsonParser) -> (matched: bool)
    ensures
        element_rule(old(parser).lexemes(), old(parser).position()).describes(
            old(parser),
            final(parser),
            matched,
        ),
        matched == elements_start(old(parser).lexemes(), old(parser).position()),
        matched ==> is_elements(
            span(old(parser).lexemes(), old(parser).position(), final(parser).position()),
        ),
    decreases element_rank(left(old(parser).lexemes(), old(parser).position())),
{
    proof {
        lemma_element_rule_means(parser.lexemes(), parser.position());
    }
    let ghost s = parser.lexemes();
    let ghost at = parser.position();
    let token = parser.peek();
    let valid = if is_simple_value(token) {
        parser.read();
        true
    } else {
        match token {
            Token::LeftBrace => new_parse_object(parser),
            Token::LeftBracket => new_parse_array(parser),
            _ => false,
        }
    };
    // The head of the list was matched as the value rule matches it.
    assert(value_rule(s, at).describes(old(parser), parser, valid));
    if !valid {
        return false;
    }
    match parser.peek() {
        Token::Comma => {
            parser.read();
            new_parse_array_element(parser)
        },
        _ => true,
    }
}

/// Validates a whole token sequence: `Ok` exactly when it is one JSON value
/// with nothing left over.
///
/// The sequence must not be empty: a caller with nothing to parse says so
/// itself.
pub fn parse_tokens(tokens: &[Token]) -> (result: Result<(), ParseError>)
    requires
        tokens@.len() > 0,
    ensures
        result is Ok <==> is_value(lexemes(tokens@)),
{
    let mut parser = JsonParser::new(tokens);
    let token = parser.peek();
    let valid = if is_simple_value(token) {
        parser.read();
        true
    } else {
        match token {
            Token::LeftBrace => new_parse_object(&mut parser),
            Token::LeftBracket => new_parse_array(&mut parser),
            _ => false,
        }
    };
    proof {
        lemma_value_rule_decides(lexemes(tokens@));
    }
    if valid && parser.is_eof() {
        Ok(())
    } else {
        Err(ParseError)
    }
}

} // verus!
