//! A JSON conformance validator and a word counter, verified with Verus.
//!
//! The validator works in two stages.  The lexer ([`lexer::tokenize`]) turns
//! the lines of a text into tokens, or fails at the first character that no
//! token can hold.  The grammar validator ([`validator::parse_tokens`])
//! walks the tokens by recursive descent and accepts them when they are
//! exactly one JSON value.  [`document::validate_text`] runs one after the
//! other and gives the verdict on a text.
//!
//! What is validated is a small JSON: strings without escapes, unsigned
//! integers without fraction or exponent, and the space as the only
//! whitespace between tokens.  No value is built; the answer is valid or
//! invalid.
//!
//! Every executable function carries a contract that Verus proves.  The
//! contracts speak of mathematical models: a token is modelled by a
//! [`token::Lexeme`], the lexer by the functions of [`scan`], the grammar by
//! the predicates of [`grammar`], and each rule of the validator by a
//! function of [`rules`].  [`agreement`] proves that the rules decide the
//! grammar, [`spelling`] that the lexer reads what is written, and
//! [`theorems`] what holds of every text.

pub mod agreement;
pub mod cursor;
pub mod document;
pub mod grammar;
pub mod lexer;
pub mod rules;
pub mod scan;
pub mod spelling;
pub mod text;
pub mod theorems;
pub mod token;
pub mod validator;
pub mod words;
