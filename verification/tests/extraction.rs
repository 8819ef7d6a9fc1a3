//! Tests for the extractor: helper-capture suppression, empty files,
//! synthetic captures, duplicate emission, and decoding failures.

use tree_grepper::combine::extractors;
use tree_grepper::engine::parser_new;
use tree_grepper::error::GrepError;
use tree_grepper::extract::Extractor;

fn one_extractor(lang: &str, queries: &[&str]) -> Extractor {
    let pairs: Vec<(String, String)> =
        queries.iter().map(|q| (lang.to_string(), q.to_string())).collect();
    let mut made = extractors(&pairs).unwrap();
    assert_eq!(1, made.len());
    made.pop().unwrap()
}

#[test]
fn helper_captures_anchor_but_are_never_reported() {
    let ex = one_extractor("rust", &["(call_expression function: (identifier) @_fn) @call"]);
    let mut parser = parser_new();
    let source = b"fn main() { foo(); }\n";
    let file = ex.extract_from_text(None, source, &mut parser).unwrap().unwrap();
    assert!(!file.matches.is_empty());
    for m in &file.matches {
        assert_eq!("call", m.name);
        assert!(!m.name.starts_with('_'));
    }
}

#[test]
fn a_file_with_no_surviving_capture_yields_no_entry() {
    let ex = one_extractor("rust", &["(use_declaration) @u"]);
    let mut parser = parser_new();
    let out = ex.extract_from_text(None, b"fn main() {}\n", &mut parser).unwrap();
    assert!(out.is_none());
}

#[test]
fn a_query_without_captures_gets_the_synthetic_capture() {
    let ex = one_extractor("rust", &["(use_declaration)"]);
    let mut parser = parser_new();
    let file = ex.extract_from_text(None, b"use foo;\n", &mut parser).unwrap().unwrap();
    assert_eq!(1, file.matches.len());
    assert_eq!("query", file.matches[0].name);
}

#[test]
fn the_same_query_twice_emits_each_capture_twice() {
    let once = one_extractor("rust", &["(use_declaration) @u"]);
    let twice = one_extractor("rust", &["(use_declaration) @u", "(use_declaration) @u"]);
    let mut parser = parser_new();
    let source = b"use foo;\nuse bar;\n";
    let a = once.extract_from_text(None, source, &mut parser).unwrap().unwrap();
    let b = twice.extract_from_text(None, source, &mut parser).unwrap().unwrap();
    assert_eq!(2, a.matches.len());
    assert_eq!(4, b.matches.len());
}

#[test]
fn positions_are_stored_zero_indexed() {
    let ex = one_extractor("rust", &["(use_declaration) @u"]);
    let mut parser = parser_new();
    let file = ex.extract_from_text(None, b"use foo;\n", &mut parser).unwrap().unwrap();
    assert_eq!(0, file.matches[0].start.row);
    assert_eq!(0, file.matches[0].start.column);
    assert_eq!("use foo;", file.matches[0].text);
    assert_eq!("use_declaration", file.matches[0].kind);
}

#[test]
fn captured_bytes_that_are_not_utf8_are_a_hard_error() {
    let ex = one_extractor("rust", &["(line_comment) @c"]);
    let mut parser = parser_new();
    let source: Vec<u8> = vec![b'/', b'/', 0xff, b'\n'];
    let path = "bad.rs".to_string();
    let err = match ex.extract_from_text(Some(&path), &source, &mut parser) {
        Err(e) => e,
        Ok(_) => panic!("expected a decoding error"),
    };
    assert!(matches!(err, GrepError::InvalidUtf8 { .. }));
    assert_eq!(
        "could not extract matches from bad.rs: could not extract text from capture",
        err.message(),
    );
}

#[test]
fn error_messages_render_each_variant() {
    assert_eq!(
        "could not parse to a tree. This is an internal error and should be reported.",
        GrepError::InternalParse { path: None }.message(),
    );
    assert_eq!(
        "could not extract text from capture",
        GrepError::InvalidUtf8 { path: None }.message(),
    );
    assert_eq!(
        "unknown format. See --help for valid formats.",
        GrepError::UnknownFormat.message(),
    );
}
