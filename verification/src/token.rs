//! The token model of a call site's input stream.

use vstd::prelude::*;

verus! {

/// One lexical unit of the input stream at a call site.
///
/// A literal token carries its source text exactly as written (quotes and
/// escapes kept), so that the literal's kind and decoded value can be judged
/// from the text alone. Every token that is neither a literal nor a single
/// punctuation character is `Other`: the grammar rejects it wherever it
/// stands.
pub enum Token {
    /// A literal token, holding its source text (`"dir"`, `42`, `b"x"`).
    Literal(String),
    /// A single punctuation character (`,`, `;`, ...).
    Punct(char),
    /// Any other token (an identifier, a delimited group, ...).
    Other,
}

/// How a malformed token breaks the grammar, mirroring the diagnostics the
/// expansion reports.
#[derive(PartialEq, Eq, Structural, Clone, Copy, Debug)]
pub enum ViolationKind {
    /// A punctuation mark where none may stand, a punctuation mark other
    /// than a comma, or a literal of the wrong kind.
    UnexpectedPunctuation,
    /// A token that is neither a literal nor punctuation.
    UnexpectedToken,
    /// A string literal right after another literal, with no comma between.
    UnexpectedLiteral,
}

/// A validation failure: the offending token's position and the nature of
/// the violation. The first malformed token aborts the whole expansion.
#[derive(PartialEq, Eq, Structural, Clone, Copy, Debug)]
pub struct ParseError {
    /// Index of the offending token in the input stream.
    pub index: usize,
    /// The kind of grammar violation found there.
    pub kind: ViolationKind,
}

} // verus!
