//! Tests for the language registry: name round trips, query compilation,
//! and the language listing.

use tree_grepper::error::GrepError;
use tree_grepper::language::Lang;
use tree_grepper::pipeline::show_languages;

#[test]
fn to_str_reflects_from_str() {
    // Note: this will hide results if there are multiple failures. It's
    // something that could be worked around but I don't think it is right
    // now. If it bothers you in the future, feel free to take a stab at it!
    Lang::all()
        .into_iter()
        .for_each(|lang| assert_eq!(Lang::from_str(lang.name()).unwrap(), lang))
}

#[test]
fn parse_query_smoke_test() {
    assert!(Lang::Elm.parse_query("(_)").is_ok());
}

#[test]
fn parse_query_problem() {
    // tree-grepper 1.0 just printed the error struct when problems like
    // this happened. This test is just here to make sure we take a slightly
    // friendlier approach for 2.0.
    let err = match Lang::Elm.parse_query("(node_that_doesnt_exist)") {
        Err(e) => e,
        Ok(_) => panic!("expected the query to be rejected"),
    };
    assert_eq!(
        String::from("Query error at 1:2. Invalid node type node_that_doesnt_exist"),
        err.message(),
    );
}

#[test]
fn every_language_parses_a_universal_query() {
    for lang in Lang::all() {
        assert!(lang.parse_query("(_)").is_ok(), "language {:?}", lang);
    }
}

#[test]
fn unknown_language_lists_the_valid_names() {
    let err = match Lang::from_str("klingon") {
        Err(e) => e,
        Ok(_) => panic!("expected an unknown-language error"),
    };
    assert_eq!(
        "unknown language klingon. Try one of: c, cpp, elm, go, js, lua, md, py, rust",
        err.message(),
    );
    assert!(matches!(err, GrepError::UnknownLanguage { .. }));
}

#[test]
fn languages_listing_is_one_name_per_line() {
    assert_eq!("c\ncpp\nelm\ngo\njs\nlua\nmd\npy\nrust\n", show_languages());
}
