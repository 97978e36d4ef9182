//! The path synthesizer and call rewriter.
//!
//! The extracted segments are joined with the separator of the platform
//! family this tool is built for, and the result is wrapped into a call of
//! one of three underlying file-loading primitives. The three entry points
//! share the validator and the synthesizer verbatim and differ only in the
//! primitive's name.

use vstd::prelude::*;

use crate::token::ParseError;
use crate::token::Token;
use crate::validate::parse_punct;
use crate::validate::segments_of;
use crate::validate::token_ok;
use crate::validate::valid_stream;
use crate::validate::violation_at;

verus! {

/// The three entry points, differing only in which primitive's call the
/// expansion builds: load a file as source code, as a byte sequence, or as
/// a text string.
#[derive(PartialEq, Eq, Structural, Clone, Copy, Debug)]
pub enum Variant {
    /// Splices the file's contents as code at the call site.
    Source,
    /// Yields the file's contents as a byte array.
    Bytes,
    /// Yields the file's contents as a string of text.
    Text,
}

/// The path separator of the platform family this tool is built for:
/// a backslash on the Windows family, a forward slash everywhere else.
pub open spec fn separator(for_windows: bool) -> Seq<char> {
    if for_windows {
        "\\"@
    } else {
        "/"@
    }
}

/// The segments concatenated in order with the separator between
/// neighbours: empty for no segments, and no separator before the first or
/// after the last segment. No escaping or `.`/`..` resolution is performed.
pub open spec fn joined(segs: Seq<Seq<char>>, sep: Seq<char>) -> Seq<char>
    decreases segs.len(),
{
    if segs.len() == 0 {
        Seq::empty()
    } else if segs.len() == 1 {
        segs[0]
    } else {
        joined(segs.drop_last(), sep) + sep + segs.last()
    }
}

/// The name of the underlying primitive whose call a variant's expansion
/// builds.
pub open spec fn primitive_name(variant: Variant) -> Seq<char> {
    match variant {
        Variant::Source => "load_path_primitive"@,
        Variant::Bytes => "load_path_bytes_primitive"@,
        Variant::Text => "load_path_str_primitive"@,
    }
}

/// The rewritten call site: the primitive's name, followed by a single
/// parenthesized string-literal argument holding the joined path.
#[derive(Debug)]
pub struct OutputExpr {
    /// The identifier the call expression starts with.
    pub primitive: String,
    /// The value of the call's one string-literal argument.
    pub path: String,
}

/// Joining no segments yields the empty path.
pub proof fn lemma_joined_empty(sep: Seq<char>)
    ensures
        joined(Seq::empty(), sep) == Seq::<char>::empty(),
{
}

/// One more segment extends the joined path by the separator (once a first
/// segment stands before it) and the segment's characters, so the joined
/// path of `[s1, ..., sn]` is `s1 sep s2 sep ... sep sn`.
pub proof fn lemma_joined_push(segs: Seq<Seq<char>>, s: Seq<char>, sep: Seq<char>)
    ensures
        segs.len() == 0 ==> joined(segs.push(s), sep) == s,
        segs.len() > 0 ==> joined(segs.push(s), sep) == joined(segs, sep) + sep + s,
{
    let t = segs.push(s);
    assert(t.last() == s);
    if segs.len() == 0 {
        assert(t[0] == s);
    } else {
        assert(t.drop_last() =~= segs);
    }
}

/// The joined path of the first `i + 1` segments, written over the joined
/// path of the first `i`.
proof fn lemma_joined_take_step(segs: Seq<Seq<char>>, sep: Seq<char>, i: int)
    requires
        0 <= i < segs.len(),
    ensures
        i == 0 ==> joined(segs.take(1), sep) == segs[0],
        i > 0 ==> joined(segs.take(i + 1), sep) == joined(segs.take(i), sep) + sep + segs[i],
{
    let t = segs.take(i + 1);
    if i == 0 {
        assert(t[0] == segs[0]);
    } else {
        assert(t.drop_last() =~= segs.take(i));
        assert(t.last() == segs[i]);
    }
}

/// Joins the segment list with the separator chosen by the platform-family
/// flag this tool was built with.
pub fn join_segments(segs: &Vec<String>, for_windows: bool) -> (r: String)
    ensures
        r@ == joined(segs.deep_view(), separator(for_windows)),
{
    let sep: &str = if for_windows {
        "\\"
    } else {
        "/"
    };
    let mut out = String::new();
    let mut i: usize = 0;
    while i < segs.len()
        invariant
            i <= segs@.len(),
            sep@ == separator(for_windows),
            out@ == joined(segs.deep_view().take(i as int), sep@),
        decreases segs@.len() - i,
    {
        if i > 0 {
            out.append(sep);
        }
        out.append(segs[i].as_str());
        proof {
            lemma_joined_take_step(segs.deep_view(), sep@, i as int);
        }
        i = i + 1;
    }
    proof {
        assert(segs.deep_view().take(segs@.len() as int) =~= segs.deep_view());
    }
    out
}

/// The fixed identifier a variant's expansion starts with.
pub fn primitive_ident(variant: Variant) -> (r: String)
    ensures
        r@ == primitive_name(variant),
{
    match variant {
        Variant::Source => String::from_str("load_path_primitive"),
        Variant::Bytes => String::from_str("load_path_bytes_primitive"),
        Variant::Text => String::from_str("load_path_str_primitive"),
    }
}

/// Expands one call site: validates the token stream, joins the extracted
/// segments with the platform separator, and builds the rewritten call. On
/// a malformed stream the result carries the first offending token's
/// position and the violation's nature, and no expression is produced.
pub fn expand(variant: Variant, toks: &Vec<Token>, for_windows: bool) -> (r: Result<
    OutputExpr,
    ParseError,
>)
    ensures
        match r {
            Ok(out) => {
                &&& valid_stream(toks@)
                &&& out.primitive@ == primitive_name(variant)
                &&& out.path@ == joined(segments_of(toks@), separator(for_windows))
            },
            Err(e) => {
                &&& !valid_stream(toks@)
                &&& e.index < toks@.len()
                &&& !token_ok(toks@, e.index as int)
                &&& forall|j: int| 0 <= j < e.index ==> token_ok(toks@, j)
                &&& e.kind == violation_at(toks@, e.index as int)
            },
        },
{
    let segs = match parse_punct(toks) {
        Ok(segs) => segs,
        Err(e) => {
            return Err(e);
        },
    };
    let path = join_segments(&segs, for_windows);
    Ok(OutputExpr { primitive: primitive_ident(variant), path })
}

/// Expands a call of the source-loading entry point.
pub fn load_path(toks: &Vec<Token>, for_windows: bool) -> (r: Result<OutputExpr, ParseError>)
    ensures
        match r {
            Ok(out) => {
                &&& valid_stream(toks@)
                &&& out.primitive@ == primitive_name(Variant::Source)
                &&& out.path@ == joined(segments_of(toks@), separator(for_windows))
            },
            Err(e) => {
                &&& !valid_stream(toks@)
                &&& e.index < toks@.len()
                &&& !token_ok(toks@, e.index as int)
                &&& forall|j: int| 0 <= j < e.index ==> token_ok(toks@, j)
                &&& e.kind == violation_at(toks@, e.index as int)
            },
        },
{
    expand(Variant::Source, toks, for_windows)
}

/// Expands a call of the bytes-loading entry point.
pub fn load_path_bytes(toks: &Vec<Token>, for_windows: bool) -> (r: Result<
    OutputExpr,
    ParseError,
>)
    ensures
        match r {
            Ok(out) => {
                &&& valid_stream(toks@)
                &&& out.primitive@ == primitive_name(Variant::Bytes)
                &&& out.path@ == joined(segments_of(toks@), separator(for_windows))
            },
            Err(e) => {
                &&& !valid_stream(toks@)
                &&& e.index < toks@.len()
                &&& !token_ok(toks@, e.index as int)
                &&& forall|j: int| 0 <= j < e.index ==> token_ok(toks@, j)
                &&& e.kind == violation_at(toks@, e.index as int)
            },
        },
{
    expand(Variant::Bytes, toks, for_windows)
}

/// Expands a call of the text-loading entry point.
pub fn load_path_str(toks: &Vec<Token>, for_windows: bool) -> (r: Result<OutputExpr, ParseError>)
    ensures
        match r {
            Ok(out) => {
                &&& valid_stream(toks@)
                &&& out.primitive@ == primitive_name(Variant::Text)
                &&& out.path@ == joined(segments_of(toks@), separator(for_windows))
            },
            Err(e) => {
                &&& !valid_stream(toks@)
                &&& e.index < toks@.len()
                &&& !token_ok(toks@, e.index as int)
                &&& forall|j: int| 0 <= j < e.index ==> token_ok(toks@, j)
                &&& e.kind == violation_at(toks@, e.index as int)
            },
        },
{
    expand(Variant::Text, toks, for_windows)
}

/// A trailing comma after the final literal is tolerated: it leaves the
/// stream valid, the segment list unchanged, and therefore the joined path
/// unchanged, whichever separator is in force.
pub proof fn lemma_trailing_comma(toks: Seq<Token>, sep: Seq<char>)
    requires
        valid_stream(toks),
        toks.len() % 2 == 1,
    ensures
        valid_stream(toks.push(Token::Punct(','))),
        segments_of(toks.push(Token::Punct(','))) == segments_of(toks),
        joined(segments_of(toks.push(Token::Punct(','))), sep) == joined(segments_of(toks), sep),
{
    let t = toks.push(Token::Punct(','));
    assert forall|i: int| 0 <= i < t.len() implies token_ok(t, i) by {
        if i < toks.len() {
            assert(t[i] == toks[i]);
            assert(token_ok(toks, i));
        }
    }
    assert forall|k: int| 0 <= k < segments_of(t).len() implies segments_of(t)[k] == segments_of(
        toks,
    )[k] by {
        assert(t[2 * k] == toks[2 * k]);
    }
    assert(segments_of(t) =~= segments_of(toks));
}

} // verus!
