//! End-to-end tests through the dispatcher and pipeline.

use tree_grepper::combine::extractors;
use tree_grepper::language::Lang;
use tree_grepper::pipeline::{
    Invocation, QueryFormat, QueryOpts, Rendered, SourceFile, TreeOpts, try_main,
};

fn opts(queries: &[(&str, &str)], format: QueryFormat, sort: bool) -> QueryOpts {
    let pairs: Vec<(String, String)> =
        queries.iter().map(|(l, q)| (l.to_string(), q.to_string())).collect();
    QueryOpts {
        extractors: extractors(&pairs).unwrap(),
        paths: vec![".".to_string()],
        git_ignore: true,
        format,
        sort,
        theme: "gruvbox-dark".to_string(),
        tab_width: 4,
        before_lines: 0,
        after_lines: 0,
        show_count: false,
        no_filename: false,
        no_line_number: false,
    }
}

fn source(path: &str, contents: &[u8]) -> SourceFile {
    SourceFile { path: path.to_string(), contents: contents.to_vec() }
}

fn text_of(r: Rendered) -> String {
    match r {
        Rendered::Text(s) => s,
        _ => panic!("expected rendered text"),
    }
}

#[test]
fn a_single_import_yields_one_line_with_one_indexed_positions() {
    let inv = Invocation::DoQuery(opts(&[("rust", "(use_declaration) @import")], QueryFormat::Lines, true));
    let files = vec![source("dir/main.rs", b"use foo;\n")];
    let out = text_of(try_main(inv, &files).unwrap());
    assert_eq!("dir/main.rs:1:1:import:use foo;\n", out);
}

#[test]
fn two_disjoint_queries_produce_the_union_with_one_parse_pass() {
    let o = opts(
        &[("rust", "(use_declaration) @u"), ("rust", "(function_item) @f")],
        QueryFormat::Lines,
        true,
    );
    // Both queries were merged into one composite, so each file is parsed
    // once, by the one extractor.
    assert_eq!(1, o.extractors.len());
    let files = vec![source("a.rs", b"use foo;\nfn main() {}\n")];
    let out = text_of(try_main(Invocation::DoQuery(o), &files).unwrap());
    assert_eq!("a.rs:1:1:u:use foo;\na.rs:2:1:f:fn main() {}\n", out);
}

#[test]
fn files_without_a_claimed_extension_are_skipped_without_error() {
    let inv = Invocation::DoQuery(opts(&[("rust", "(use_declaration) @u")], QueryFormat::Json, false));
    let files = vec![
        source("README", b"use foo;\n"),
        source("a.py", b"use foo;\n"),
        source("a.rs", b"use foo;\n"),
    ];
    let out = text_of(try_main(inv, &files).unwrap());
    assert_eq!(
        "[{\"file\":\"a.rs\",\"file_type\":\"rust\",\"matches\":[{\"kind\":\"use_declaration\",\
         \"name\":\"u\",\"text\":\"use foo;\",\"start\":{\"row\":1,\"column\":1},\
         \"end\":{\"row\":1,\"column\":9}}]}]",
        out,
    );
}

#[test]
fn empty_match_files_produce_no_entry_not_an_empty_entry() {
    let inv = Invocation::DoQuery(opts(&[("rust", "(use_declaration) @u")], QueryFormat::Json, false));
    let files = vec![source("a.rs", b"fn main() {}\n")];
    let out = text_of(try_main(inv, &files).unwrap());
    assert_eq!("[]", out);
}

#[test]
fn show_languages_dispatches_to_the_listing() {
    let out = text_of(try_main(Invocation::ShowLanguages, &Vec::new()).unwrap());
    assert_eq!("c\ncpp\nelm\ngo\njs\nlua\nmd\npy\nrust\n", out);
}

#[test]
fn show_tree_is_handed_back_for_the_display_layer() {
    let inv = Invocation::ShowTree(TreeOpts { language: Lang::Rust, path: "a.rs".to_string() });
    match try_main(inv, &Vec::new()).unwrap() {
        Rendered::Tree(t) => {
            assert_eq!(Lang::Rust, t.language);
            assert_eq!("a.rs", t.path);
        },
        _ => panic!("expected the tree request back"),
    }
}

#[test]
fn pretty_format_hands_records_to_the_highlighting_printer() {
    let inv = Invocation::DoQuery(opts(&[("rust", "(use_declaration) @u")], QueryFormat::Pretty, false));
    let files = vec![source("a.rs", b"use foo;\n")];
    match try_main(inv, &files).unwrap() {
        Rendered::Pretty(records) => {
            assert_eq!(1, records.len());
            assert_eq!(Some("a.rs".to_string()), records[0].file);
        },
        _ => panic!("expected records for the pretty printer"),
    }
}

#[test]
fn format_names_resolve_and_unknown_names_fail() {
    assert_eq!(QueryFormat::Lines, QueryFormat::from_str("lines").unwrap());
    assert_eq!(QueryFormat::Json, QueryFormat::from_str("json").unwrap());
    assert_eq!(QueryFormat::JsonLines, QueryFormat::from_str("json-lines").unwrap());
    assert_eq!(QueryFormat::PrettyJson, QueryFormat::from_str("pretty-json").unwrap());
    assert_eq!(QueryFormat::Pretty, QueryFormat::from_str("pretty").unwrap());
    assert!(QueryFormat::from_str("sarif").is_err());
}

#[test]
fn rows_and_columns_past_nine_render_in_full() {
    let inv = Invocation::DoQuery(opts(&[("rust", "(use_declaration) @u")], QueryFormat::Lines, false));
    let mut body = String::new();
    for _ in 0..11 {
        body.push_str("fn f() {}\n");
    }
    body.push_str("use twelve;\n");
    let files = vec![source("a.rs", body.as_bytes())];
    let out = text_of(try_main(inv, &files).unwrap());
    assert_eq!("a.rs:12:1:u:use twelve;\n", out);
}

#[test]
fn multibyte_text_is_decoded_and_escaped_intact() {
    let inv = Invocation::DoQuery(opts(&[("rust", "(line_comment) @c")], QueryFormat::Json, false));
    let files = vec![source("a.rs", "// caf\u{e9} \u{2603}\n".as_bytes())];
    let out = text_of(try_main(inv, &files).unwrap());
    let parsed: serde_json::Value = serde_json::from_str(&out).unwrap();
    assert_eq!(
        "// caf\u{e9} \u{2603}",
        parsed[0]["matches"][0]["text"].as_str().unwrap(),
    );
}
