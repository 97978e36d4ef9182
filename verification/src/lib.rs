//! Compile-time path assembly for file-loading call sites.
//!
//! A call site hands over a flat sequence of tokens. The library checks that
//! the tokens follow the grammar `LITERAL (',' LITERAL)* ','?` where every
//! literal is a string literal, extracts the decoded segment values, joins
//! them with the path separator of the build host's platform family, and
//! builds the call expression that loads the named file through one of three
//! underlying primitives.

mod synth;
mod token;
mod validate;

pub use synth::expand;
pub use synth::join_segments;
pub use synth::joined;
pub use synth::lemma_joined_empty;
pub use synth::lemma_joined_push;
pub use synth::lemma_trailing_comma;
pub use synth::load_path;
pub use synth::load_path_bytes;
pub use synth::load_path_str;
pub use synth::primitive_ident;
pub use synth::primitive_name;
pub use synth::separator;
pub use synth::OutputExpr;
pub use synth::Variant;
pub use token::ParseError;
pub use token::Token;
pub use token::ViolationKind;
pub use validate::parse_punct;
pub use validate::safe_to_decode;
pub use validate::segments_of;
pub use validate::str_lit_value;
pub use validate::token_ok;
pub use validate::valid_stream;
pub use validate::violation_at;
