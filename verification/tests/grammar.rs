//! Validation of the call-site grammar: which token streams are accepted,
//! which segments come out, and where the first violation is reported.

use load_path::parse_punct;
use load_path::ParseError;
use load_path::Token;
use load_path::ViolationKind;

fn lit(raw: &str) -> Token {
    Token::Literal(raw.to_string())
}

fn comma() -> Token {
    Token::Punct(',')
}

#[test]
fn single_segment_is_extracted() {
    let toks = vec![lit("\"x\"")];
    let segs = parse_punct(&toks).unwrap();
    assert_eq!(segs, vec!["x".to_string()]);
}

#[test]
fn empty_stream_yields_no_segments() {
    let toks: Vec<Token> = vec![];
    let segs = parse_punct(&toks).unwrap();
    assert!(segs.is_empty());
}

#[test]
fn segments_keep_their_order() {
    let toks = vec![lit("\"a\""), comma(), lit("\"b\""), comma(), lit("\"c\"")];
    let segs = parse_punct(&toks).unwrap();
    assert_eq!(
        segs,
        vec!["a".to_string(), "b".to_string(), "c".to_string()]
    );
}

#[test]
fn trailing_comma_changes_nothing() {
    let with = vec![lit("\"a\""), comma(), lit("\"b\""), comma()];
    let without = vec![lit("\"a\""), comma(), lit("\"b\"")];
    assert_eq!(parse_punct(&with).unwrap(), parse_punct(&without).unwrap());
}

#[test]
fn escapes_are_decoded() {
    let toks = vec![lit("\"a\\nb\"")];
    let segs = parse_punct(&toks).unwrap();
    assert_eq!(segs, vec!["a\nb".to_string()]);
}

#[test]
fn raw_string_literals_are_accepted() {
    let toks = vec![lit("r\"a b\"")];
    let segs = parse_punct(&toks).unwrap();
    assert_eq!(segs, vec!["a b".to_string()]);
}

#[test]
fn escape_before_multibyte_end_is_rejected_not_panicked() {
    // quote, backslash, e-acute: the decoder would fault on this text,
    // so the validator classifies it without handing it over
    let toks = vec![lit("\"\\é")];
    let err = parse_punct(&toks).unwrap_err();
    assert_eq!(
        err,
        ParseError {
            index: 0,
            kind: ViolationKind::UnexpectedPunctuation
        }
    );
}

#[test]
fn suffixed_escape_with_multibyte_end_is_rejected_not_panicked() {
    // a closed string literal with an escape inside and a non-ASCII suffix
    let toks = vec![lit("\"a\\n\"é")];
    let err = parse_punct(&toks).unwrap_err();
    assert_eq!(
        err,
        ParseError {
            index: 0,
            kind: ViolationKind::UnexpectedPunctuation
        }
    );
}

#[test]
fn numeric_literal_is_rejected() {
    let toks = vec![lit("42"), comma(), lit("\"file.txt\"")];
    let err = parse_punct(&toks).unwrap_err();
    assert_eq!(
        err,
        ParseError {
            index: 0,
            kind: ViolationKind::UnexpectedPunctuation
        }
    );
}

#[test]
fn byte_string_literal_is_rejected() {
    let toks = vec![lit("b\"x\"")];
    let err = parse_punct(&toks).unwrap_err();
    assert_eq!(
        err,
        ParseError {
            index: 0,
            kind: ViolationKind::UnexpectedPunctuation
        }
    );
}

#[test]
fn double_comma_is_rejected_at_the_second() {
    let toks = vec![lit("\"a\""), comma(), comma(), lit("\"b\"")];
    let err = parse_punct(&toks).unwrap_err();
    assert_eq!(
        err,
        ParseError {
            index: 2,
            kind: ViolationKind::UnexpectedPunctuation
        }
    );
}

#[test]
fn leading_comma_is_rejected() {
    let toks = vec![comma(), lit("\"a\"")];
    let err = parse_punct(&toks).unwrap_err();
    assert_eq!(
        err,
        ParseError {
            index: 0,
            kind: ViolationKind::UnexpectedPunctuation
        }
    );
}

#[test]
fn literal_after_literal_is_rejected() {
    let toks = vec![lit("\"a\""), lit("\"b\"")];
    let err = parse_punct(&toks).unwrap_err();
    assert_eq!(
        err,
        ParseError {
            index: 1,
            kind: ViolationKind::UnexpectedLiteral
        }
    );
}

#[test]
fn non_comma_punctuation_is_rejected() {
    let toks = vec![lit("\"a\""), Token::Punct(';')];
    let err = parse_punct(&toks).unwrap_err();
    assert_eq!(
        err,
        ParseError {
            index: 1,
            kind: ViolationKind::UnexpectedPunctuation
        }
    );
}

#[test]
fn other_token_is_rejected() {
    let toks = vec![Token::Other];
    let err = parse_punct(&toks).unwrap_err();
    assert_eq!(
        err,
        ParseError {
            index: 0,
            kind: ViolationKind::UnexpectedToken
        }
    );
}
