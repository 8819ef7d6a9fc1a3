//! Tests for the stable sort and the extractor chooser.

use tree_grepper::chooser::ExtractorChooser;
use tree_grepper::combine::extractors;
use tree_grepper::extract::{ExtractedFile, ExtractedMatch, Point};
use tree_grepper::pipeline::highlight_ranges;
use tree_grepper::sort::sort_files;

fn record(path: &str, text: &str) -> ExtractedFile {
    ExtractedFile {
        file: Some(path.to_string()),
        file_type: "rust".to_string(),
        matches: vec![ExtractedMatch {
            kind: "use_declaration".to_string(),
            name: "u".to_string(),
            text: text.to_string(),
            start: Point { row: 0, column: 0 },
            end: Point { row: 0, column: 8 },
        }],
    }
}

#[test]
fn sorting_orders_by_path_then_match_fields() {
    let sorted = sort_files(vec![record("b.rs", "x"), record("a.rs", "z"), record("a.rs", "y")]);
    assert_eq!(Some("a.rs".to_string()), sorted[0].file);
    assert_eq!("y", sorted[0].matches[0].text);
    assert_eq!(Some("a.rs".to_string()), sorted[1].file);
    assert_eq!("z", sorted[1].matches[0].text);
    assert_eq!(Some("b.rs".to_string()), sorted[2].file);
}

#[test]
fn sorting_keeps_records_with_identical_keys_in_their_original_order() {
    let twin_one = record("same.rs", "use foo;");
    let twin_two = record("same.rs", "use foo;");
    let after = record("z.rs", "use foo;");
    let sorted = sort_files(vec![after, twin_one, twin_two]);
    assert_eq!(3, sorted.len());
    assert_eq!(Some("same.rs".to_string()), sorted[0].file);
    assert_eq!(Some("same.rs".to_string()), sorted[1].file);
    assert_eq!(sorted[0], sorted[1]);
    assert_eq!(Some("z.rs".to_string()), sorted[2].file);
}

#[test]
fn sorting_an_empty_list_is_empty() {
    assert!(sort_files(Vec::new()).is_empty());
}

#[test]
fn chooser_picks_by_extension_and_first_registration_wins() {
    let pairs = vec![("rust".to_string(), "(use_declaration) @u".to_string())];
    let first = extractors(&pairs).unwrap().pop().unwrap();
    let second = extractors(&pairs).unwrap().pop().unwrap();
    let both = vec![first, second];
    let chooser = ExtractorChooser::from_extractors(&both);
    assert_eq!(Some(0), chooser.extractor_for(&"lib.rs".to_string()));
    assert_eq!(None, chooser.extractor_for(&"lib.py".to_string()));
    assert_eq!(None, chooser.extractor_for(&"README".to_string()));
    assert_eq!(None, chooser.extractor_for(&".rs".to_string()));
    assert_eq!(Some(0), chooser.extractor_for(&"dir.d/a.rs".to_string()));
    assert_eq!(None, chooser.extractor_for(&"dir.d/rs".to_string()));
}

#[test]
fn highlight_ranges_are_one_indexed_and_trim_column_zero_ends() {
    let file = ExtractedFile {
        file: Some("a.rs".to_string()),
        file_type: "rust".to_string(),
        matches: vec![
            ExtractedMatch {
                kind: "use_declaration".to_string(),
                name: "u".to_string(),
                text: "use foo;".to_string(),
                start: Point { row: 0, column: 0 },
                end: Point { row: 0, column: 8 },
            },
            ExtractedMatch {
                kind: "function_item".to_string(),
                name: "f".to_string(),
                text: "fn main() {\n}\n".to_string(),
                start: Point { row: 2, column: 0 },
                end: Point { row: 4, column: 0 },
            },
        ],
    };
    assert_eq!(vec![(1, 1), (3, 4)], highlight_ranges(&file));
}
