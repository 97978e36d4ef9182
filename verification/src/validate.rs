//! The token validator and segment extractor.
//!
//! The grammar is a two-state alternation, starting in "expect literal"
//! state: tokens at even positions must be string literals, tokens at odd
//! positions must be commas. The stream may end in either state, so a
//! trailing comma after the final literal is tolerated. The first malformed
//! token aborts the whole expansion.

use vstd::prelude::*;

use crate::token::ParseError;
use crate::token::Token;
use crate::token::ViolationKind;

verus! {

/// The decoded value of the string literal written as `raw`, or `None` when
/// `raw` is not the text of a string literal (a literal of another kind, or
/// no literal at all). The judgement depends on the text alone.
pub uninterp spec fn str_lit_value(raw: Seq<char>) -> Option<Seq<char>>;

/// Texts the literal decoder handles without a fault. When it meets an
/// escape's backslash, litrs 1.0.0 slices the text to just before its last
/// byte; if the text's last character takes several bytes that slice splits
/// the character and the call panics (for example on the three characters
/// `"\é`). A text with no backslash never reaches that slice, and a text
/// whose last character is ASCII keeps the slice on a character boundary,
/// so those are safe to hand over.
pub open spec fn safe_to_decode(raw: Seq<char>) -> bool {
    raw.len() == 0 || !raw.contains('\\') || (raw[raw.len() - 1] as u32) < 128
}

/// Whether the text is safe to hand to the literal decoder: empty, free of
/// backslashes, or ending in an ASCII character.
fn is_safe_to_decode(raw: &str) -> (r: bool)
    ensures
        r == safe_to_decode(raw@),
{
    let n = raw.unicode_len();
    if n == 0 {
        return true;
    }
    let last = raw.get_char(n - 1);
    if (last as u32) < 128 {
        return true;
    }
    let mut i: usize = 0;
    while i < n
        invariant
            i <= n,
            n == raw@.len(),
            n > 0,
            (raw@[n - 1] as u32) >= 128,
            forall|j: int| 0 <= j < i ==> raw@[j] != '\\',
        decreases n - i,
    {
        if raw.get_char(i) == '\\' {
            proof {
                assert(raw@.contains('\\')) by {
                    assert(raw@[i as int] == '\\');
                }
            }
            return false;
        }
        i = i + 1;
    }
    proof {
        assert(!raw@.contains('\\'));
    }
    true
}

/// Relies on litrs's string-literal parser (`litrs::StringLit::parse`): it
/// accepts exactly the texts of string and raw string literals, and decodes
/// every escape in the accepted text; both depend on the text alone. The
/// call is made only on texts that are `safe_to_decode`, on which litrs
/// returns normally (see that function for the panic in its decoder).
#[verifier::external_body]
fn parse_string_literal(raw: &str) -> (r: Option<String>)
    requires
        safe_to_decode(raw@),
    ensures
        r is Some <==> str_lit_value(raw@) is Some,
        r matches Some(v) ==> v@ == str_lit_value(raw@)->Some_0,
{
    match litrs::StringLit::parse(raw) {
        Ok(lit) => Some(lit.value().to_string()),
        Err(_) => None,
    }
}

/// Whether the token at position `i` fits the alternating grammar: a string
/// literal at an even position, a comma at an odd one. A literal's text
/// must also be safe to decode; one that is not cannot be classified as a
/// string literal and is rejected like any literal of the wrong kind.
pub open spec fn token_ok(toks: Seq<Token>, i: int) -> bool
    recommends
        0 <= i < toks.len(),
{
    if i % 2 == 0 {
        toks[i] matches Token::Literal(raw) && safe_to_decode(raw@) && str_lit_value(raw@) is Some
    } else {
        toks[i] matches Token::Punct(c) && c == ','
    }
}

/// Whether the whole stream fits the grammar `LITERAL (',' LITERAL)* ','?`.
pub open spec fn valid_stream(toks: Seq<Token>) -> bool {
    forall|i: int| 0 <= i < toks.len() ==> token_ok(toks, i)
}

/// The decoded value of the literal token at position `i`.
pub open spec fn lit_value_at(toks: Seq<Token>, i: int) -> Seq<char>
    recommends
        0 <= i < toks.len(),
        toks[i] is Literal,
{
    match toks[i] {
        Token::Literal(raw) => str_lit_value(raw@)->Some_0,
        _ => Seq::empty(),
    }
}

/// The ordered segment list of a stream that fits the grammar: the decoded
/// values of the literals at even positions, in order of appearance.
pub open spec fn segments_of(toks: Seq<Token>) -> Seq<Seq<char>> {
    Seq::new(((toks.len() + 1) / 2) as nat, |k: int| lit_value_at(toks, 2 * k))
}

/// The violation reported for the token at position `i`, given that it does
/// not fit the grammar there: punctuation of the wrong shape or a literal of
/// the wrong kind, a string literal with no comma before it, or a token of
/// a kind the grammar never accepts.
pub open spec fn violation_at(toks: Seq<Token>, i: int) -> ViolationKind
    recommends
        0 <= i < toks.len(),
        !token_ok(toks, i),
{
    match toks[i] {
        Token::Literal(raw) => if i % 2 != 0 && safe_to_decode(raw@) && str_lit_value(raw@)
            is Some {
            ViolationKind::UnexpectedLiteral
        } else {
            ViolationKind::UnexpectedPunctuation
        },
        Token::Punct(_) => ViolationKind::UnexpectedPunctuation,
        Token::Other => ViolationKind::UnexpectedToken,
    }
}

/// Taking one more token extends the segment list exactly when the new
/// token stands at an even position: the list gains that literal's value;
/// a comma at an odd position leaves the list as it was.
proof fn lemma_segments_take_step(toks: Seq<Token>, i: int)
    requires
        0 <= i < toks.len(),
    ensures
        i % 2 == 0 ==> segments_of(toks.take(i + 1)) =~= segments_of(toks.take(i)).push(
            lit_value_at(toks, i),
        ),
        i % 2 == 1 ==> segments_of(toks.take(i + 1)) =~= segments_of(toks.take(i)),
{
    let a = segments_of(toks.take(i + 1));
    let b = segments_of(toks.take(i));
    assert forall|k: int| 0 <= k < b.len() implies a[k] == b[k] by {
        assert(toks.take(i + 1)[2 * k] == toks[2 * k]);
        assert(toks.take(i)[2 * k] == toks[2 * k]);
    }
    if i % 2 == 0 {
        assert(a[b.len() as int] == lit_value_at(toks, i)) by {
            assert(toks.take(i + 1)[2 * (b.len() as int)] == toks[i]);
        }
    }
}

/// One token that breaks the grammar makes the whole stream invalid.
proof fn lemma_bad_token_invalid(toks: Seq<Token>, i: int)
    requires
        0 <= i < toks.len(),
        !token_ok(toks, i),
    ensures
        !valid_stream(toks),
{
    assert(!(forall|j: int| 0 <= j < toks.len() ==> token_ok(toks, j))) by {
        assert(0 <= i < toks.len() && !token_ok(toks, i));
    }
}

/// Consumes the comma-separated stream of literal tokens. On a stream that
/// fits the grammar the result is the ordered segment list; otherwise the
/// result identifies the first offending token and the nature of the
/// violation, and the expansion produces nothing.
pub fn parse_punct(toks: &Vec<Token>) -> (r: Result<Vec<String>, ParseError>)
    ensures
        match r {
            Ok(segs) => valid_stream(toks@) && segs.deep_view() == segments_of(toks@),
            Err(e) => {
                &&& !valid_stream(toks@)
                &&& e.index < toks@.len()
                &&& !token_ok(toks@, e.index as int)
                &&& forall|j: int| 0 <= j < e.index ==> token_ok(toks@, j)
                &&& e.kind == violation_at(toks@, e.index as int)
            },
        },
{
    let mut segs: Vec<String> = Vec::new();
    let mut i: usize = 0;
    while i < toks.len()
        invariant
            i <= toks@.len(),
            forall|j: int| 0 <= j < i ==> token_ok(toks@, j),
            segs.deep_view() =~= segments_of(toks@.take(i as int)),
        decreases toks@.len() - i,
    {
        match &toks[i] {
            Token::Literal(raw) => {
                let value = if is_safe_to_decode(raw.as_str()) {
                    parse_string_literal(raw.as_str())
                } else {
                    None
                };
                if i % 2 != 0 {
                    let kind = if value.is_some() {
                        ViolationKind::UnexpectedLiteral
                    } else {
                        ViolationKind::UnexpectedPunctuation
                    };
                    proof {
                        lemma_bad_token_invalid(toks@, i as int);
                    }
                    return Err(ParseError { index: i, kind });
                }
                match value {
                    Some(v) => segs.push(v),
                    None => {
                        proof {
                            lemma_bad_token_invalid(toks@, i as int);
                        }
                        return Err(
                            ParseError { index: i, kind: ViolationKind::UnexpectedPunctuation },
                        );
                    },
                }
            },
            Token::Punct(c) => {
                if i % 2 == 0 || *c != ',' {
                    proof {
                        lemma_bad_token_invalid(toks@, i as int);
                    }
                    return Err(
                        ParseError { index: i, kind: ViolationKind::UnexpectedPunctuation },
                    );
                }
            },
            Token::Other => {
                proof {
                    lemma_bad_token_invalid(toks@, i as int);
                }
                return Err(ParseError { index: i, kind: ViolationKind::UnexpectedToken });
            },
        }
        proof {
            lemma_segments_take_step(toks@, i as int);
            assert(segs.deep_view() =~= segments_of(toks@.take(i + 1)));
        }
        i = i + 1;
    }
    proof {
        assert(toks@.take(i as int) =~= toks@);
    }
    Ok(segs)
}

} // verus!
