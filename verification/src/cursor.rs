//! A read-only cursor over a token sequence.

use vstd::prelude::*;
use crate::token::{lexemes, Lexeme, Token};

verus! {

/// The lexeme at position `at` of `s`, or [`Lexeme::End`] past the last one.
pub open spec fn lexeme_at(s: Seq<Lexeme>, at: nat) -> Lexeme {
    if at < s.len() {
        s[at as int]
    } else {
        Lexeme::End
    }
}

/// The position after reading at `at`: one further, unless `at` is already
/// past the last lexeme.
pub open spec fn step(s: Seq<Lexeme>, at: nat) -> nat {
    if at < s.len() {
        at + 1
    } else {
        at
    }
}

/// A traversal position over a borrowed token sequence.
///
/// The sequence is never changed; reading past its end yields
/// [`Token::EOF`] and leaves the position where it is.
#[derive(Debug)]
pub struct JsonParser<'a> {
    tokens: &'a [Token],
    next: usize,
}

impl<'a> JsonParser<'a> {
    #[verifier::type_invariant]
    spec fn in_bounds(&self) -> bool {
        self.next <= self.tokens@.len()
    }

    /// The models of the tokens under the cursor.
    pub closed spec fn lexemes(&self) -> Seq<Lexeme> {
        lexemes(self.tokens@)
    }

    /// How many tokens have been read.
    pub closed spec fn position(&self) -> nat {
        self.next as nat
    }

    /// The lexeme that the next `peek` or `read` yields.
    pub open spec fn current(&self) -> Lexeme {
        lexeme_at(self.lexemes(), self.position())
    }

    /// This cursor is `earlier` moved on to position `to`, over the same
    /// tokens and within them.
    pub open spec fn follows(&self, earlier: &JsonParser<'a>, to: nat) -> bool {
        &&& self.lexemes() == earlier.lexemes()
        &&& self.position() == to
        &&& self.position() <= self.lexemes().len()
    }

    /// A cursor at the start of `tokens`.
    pub fn new(tokens: &'a [Token]) -> (parser: JsonParser<'a>)
        ensures
            parser.lexemes() == lexemes(tokens@),
            parser.position() == 0,
    {
        JsonParser { tokens, next: 0 }
    }

    /// Consumes the current token and returns it.
    pub fn read(&mut self) -> (token: &'a Token)
        ensures
            token@ == old(self).current(),
            final(self).follows(old(self), step(old(self).lexemes(), old(self).position())),
    {
        proof {
            use_type_invariant(&*self);
        }
        if self.next < self.tokens.len() {
            let token = &self.tokens[self.next];
            self.next = self.next + 1;
            token
        } else {
            &Token::EOF
        }
    }

    /// Returns the current token without consuming it.
    pub fn peek(&mut self) -> (token: &'a Token)
        ensures
            token@ == old(self).current(),
            *final(self) == *old(self),
            old(self).position() <= old(self).lexemes().len(),
    {
        proof {
            use_type_invariant(&*self);
        }
        if self.next < self.tokens.len() {
            &self.tokens[self.next]
        } else {
            &Token::EOF
        }
    }

    /// Tells whether every token has been read.
    pub fn is_eof(&mut self) -> (at_end: bool)
        ensures
            at_end == (old(self).position() == old(self).lexemes().len()),
            *final(self) == *old(self),
            old(self).position() <= old(self).lexemes().len(),
    {
        proof {
            use_type_invariant(&*self);
        }
        self.next >= self.tokens.len()
    }

    /// Consumes the current token and tells whether it was a `{`.
    pub fn read_left_brace(&mut self) -> (matched: bool)
        ensures
            matched == (old(self).current() is LeftBrace),
            final(self).follows(old(self), step(old(self).lexemes(), old(self).position())),
    {
        let token = self.read();
        if let Token::LeftBrace = token {
            true
        } else {
            false
        }
    }

    /// Consumes the current token and tells whether it was a `}`.
    pub fn read_right_brace(&mut self) -> (matched: bool)
        ensures
            matched == (old(self).current() is RightBrace),
            final(self).follows(old(self), step(old(self).lexemes(), old(self).position())),
    {
        let token = self.read();
        if let Token::RightBrace = token {
            true
        } else {
            false
        }
    }

    /// Consumes the current token and tells whether it was a string literal.
    pub fn read_object_key(&mut self) -> (matched: bool)
        ensures
            matched == (old(self).current() is Str),
            final(self).follows(old(self), step(old(self).lexemes(), old(self).position())),
    {
        let token = self.read();
        if let Token::String(_) = token {
            true
        } else {
            false
        }
    }

    /// Consumes the current token and tells whether it was a `:`.
    pub fn read_colon(&mut self) -> (matched: bool)
        ensures
            matched == (old(self).current() is Colon),
            final(self).follows(old(self), step(old(self).lexemes(), old(self).position())),
    {
        let token = self.read();
        if let Token::Colon = token {
            true
        } else {
            false
        }
    }

    /// Consumes the current token and tells whether it was a `[`.
    pub fn read_left_bracket(&mut self) -> (matched: bool)
        ensures
            matched == (old(self).current() is LeftBracket),
            final(self).follows(old(self), step(old(self).lexemes(), old(self).position())),
    {
        let token = self.read();
        if let Token::LeftBracket = token {
            true
        } else {
            false
        }
    }

    /// Consumes the current token and tells whether it was a `]`.
    pub fn read_right_bracket(&mut self) -> (matched: bool)
        ensures
            matched == (old(self).current() is RightBracket),
            final(self).follows(old(self), step(old(self).lexemes(), old(self).position())),
    {
        let token = self.read();
        if let Token::RightBracket = token {
            true
        } else {
            false
        }
    }
}

} // verus!
