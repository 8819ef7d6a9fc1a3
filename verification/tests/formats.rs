//! Tests for the output formats: escaping, exact renderings, and the
//! mutual derivability of the JSON formats.

use tree_grepper::extract::{ExtractedFile, ExtractedMatch, Point};
use tree_grepper::render::{render_json, render_json_lines, render_lines, render_pretty_json};

fn record(path: Option<&str>, name: &str, text: &str) -> ExtractedFile {
    ExtractedFile {
        file: path.map(|p| p.to_string()),
        file_type: "rust".to_string(),
        matches: vec![ExtractedMatch {
            kind: "use_declaration".to_string(),
            name: name.to_string(),
            text: text.to_string(),
            start: Point { row: 0, column: 0 },
            end: Point { row: 0, column: 8 },
        }],
    }
}

#[test]
fn json_lines_parsed_line_by_line_equals_the_json_array_elements() {
    let files = vec![record(Some("a.rs"), "u", "use foo;"), record(Some("b.rs"), "u", "use bar;")];
    let array: serde_json::Value = serde_json::from_str(&render_json(&files)).unwrap();
    let elements = array.as_array().unwrap();
    let lines_out = render_json_lines(&files);
    let lines: Vec<&str> = lines_out.lines().collect();
    assert_eq!(elements.len(), lines.len());
    for (element, line) in elements.iter().zip(lines.iter()) {
        let parsed: serde_json::Value = serde_json::from_str(line).unwrap();
        assert_eq!(element, &parsed);
    }
}

#[test]
fn json_escapes_quotes_backslashes_newlines_and_controls() {
    let files = vec![record(None, "u", "a\"b\\c\nd\te\u{1}f")];
    let out = render_json(&files);
    assert!(out.contains("a\\\"b\\\\c\\nd\\te\\u0001f"));
    let parsed: serde_json::Value = serde_json::from_str(&out).unwrap();
    assert_eq!(
        "a\"b\\c\nd\te\u{1}f",
        parsed[0]["matches"][0]["text"].as_str().unwrap(),
    );
}

#[test]
fn json_renders_a_missing_file_as_null_and_positions_one_indexed() {
    let files = vec![record(None, "u", "use foo;")];
    let parsed: serde_json::Value = serde_json::from_str(&render_json(&files)).unwrap();
    assert!(parsed[0]["file"].is_null());
    assert_eq!(1, parsed[0]["matches"][0]["start"]["row"].as_u64().unwrap());
    assert_eq!(1, parsed[0]["matches"][0]["start"]["column"].as_u64().unwrap());
    assert_eq!(9, parsed[0]["matches"][0]["end"]["column"].as_u64().unwrap());
}

#[test]
fn lines_format_lists_a_file_less_record_under_a_placeholder() {
    let files = vec![record(None, "u", "use foo;")];
    assert_eq!("NO FILE:1:1:u:use foo;\n", render_lines(&files));
}

#[test]
fn pretty_json_is_the_same_records_indented() {
    let files = vec![record(Some("a.rs"), "u", "use foo;")];
    let pretty = render_pretty_json(&files);
    let compact: serde_json::Value = serde_json::from_str(&render_json(&files)).unwrap();
    let parsed: serde_json::Value = serde_json::from_str(&pretty).unwrap();
    assert_eq!(compact, parsed);
    assert!(pretty.starts_with("[\n  {\n    \"file\": \"a.rs\","));
}

#[test]
fn pretty_json_of_no_records_is_an_empty_array() {
    assert_eq!("[]", render_pretty_json(&Vec::new()));
    assert_eq!("[]", render_json(&Vec::new()));
    assert_eq!("", render_json_lines(&Vec::new()));
    assert_eq!("", render_lines(&Vec::new()));
}
