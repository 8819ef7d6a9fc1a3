//! Tests for the query combiner: merging, synthetic captures, predicate
//! rejection, and early validation.

use tree_grepper::combine::{extractors, pair_up};
use tree_grepper::error::GrepError;
use tree_grepper::language::Lang;

fn pairs(raw: &[(&str, &str)]) -> Vec<(String, String)> {
    raw.iter().map(|(l, q)| (l.to_string(), q.to_string())).collect()
}

#[test]
fn two_queries_one_language_make_one_extractor() {
    let made = extractors(&pairs(&[
        ("rust", "(use_declaration) @u"),
        ("rust", "(function_item) @f"),
    ]))
    .unwrap();
    assert_eq!(1, made.len());
    assert_eq!(&Lang::Rust, made[0].language());
}

#[test]
fn queries_for_two_languages_make_two_extractors() {
    let made = extractors(&pairs(&[("rust", "(use_declaration) @u"), ("py", "(import_statement) @i")]))
        .unwrap();
    assert_eq!(2, made.len());
    assert_eq!(&Lang::Rust, made[0].language());
    assert_eq!(&Lang::Python, made[1].language());
}

#[test]
fn unknown_language_is_rejected_with_the_name() {
    let err = match extractors(&pairs(&[("klingon", "(_)")])) {
        Err(e) => e,
        Ok(_) => panic!("expected an unknown-language error"),
    };
    assert!(matches!(err, GrepError::UnknownLanguage { .. }));
    assert!(err.message().starts_with("unknown language klingon."));
}

#[test]
fn invalid_query_is_rejected_during_early_validation() {
    let err = match extractors(&pairs(&[("rust", "(node_that_doesnt_exist)")])) {
        Err(e) => e,
        Ok(_) => panic!("expected a query error"),
    };
    assert_eq!(
        "Query error at 1:2. Invalid node type node_that_doesnt_exist",
        err.message(),
    );
}

#[test]
fn general_predicates_are_rejected_with_the_operator() {
    let err = match extractors(&pairs(&[("rust", "((identifier) @x (#foo? @x))")])) {
        Err(e) => e,
        Ok(_) => panic!("expected a predicate error"),
    };
    assert_eq!("Unknown predicate 'foo?'", err.message());
    assert!(matches!(err, GrepError::UnsupportedPredicate { .. }));
}

#[test]
fn pair_up_pairs_values_and_drops_a_trailing_odd_value() {
    let values: Vec<String> =
        ["rust", "(_)", "py", "(module)", "leftover"].iter().map(|s| s.to_string()).collect();
    let paired = pair_up(&values);
    assert_eq!(
        vec![
            ("rust".to_string(), "(_)".to_string()),
            ("py".to_string(), "(module)".to_string())
        ],
        paired,
    );
}
