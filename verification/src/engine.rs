//! The boundary to the syntax-tree engine (the `tree_sitter` crate and its
//! grammar crates), and to the few std functions vstd gives no specification.
//!
//! Everything the engine computes is deterministic in the grammar, the query
//! text and the source bytes, so its results are named by uninterpreted
//! spec functions keyed on those values. Each trusted function's contract
//! states only what the engine's own source and documentation show.

use vstd::prelude::*;

use crate::language::Lang;
use vstd::utf8::decode_utf8;
use vstd::utf8::valid_utf8;

verus! {

#[verifier::external_type_specification]
#[verifier::external_body]
pub struct ExTsLanguage(tree_sitter::Language);

#[verifier::external_type_specification]
#[verifier::external_body]
pub struct ExTsParser(tree_sitter::Parser);

#[verifier::external_type_specification]
#[verifier::external_body]
pub struct ExTsQuery(tree_sitter::Query);

/// Relies on tree_sitter_c::language: hands out the C grammar.
#[verifier::external_body]
pub fn grammar_c() -> tree_sitter::Language {
    tree_sitter_c::language()
}

/// Relies on tree_sitter_cpp::language: hands out the C++ grammar.
#[verifier::external_body]
pub fn grammar_cpp() -> tree_sitter::Language {
    tree_sitter_cpp::language()
}

/// Relies on tree_sitter_elm::language: hands out the Elm grammar.
#[verifier::external_body]
pub fn grammar_elm() -> tree_sitter::Language {
    tree_sitter_elm::language()
}

/// Relies on tree_sitter_go::language: hands out the Go grammar.
#[verifier::external_body]
pub fn grammar_go() -> tree_sitter::Language {
    tree_sitter_go::language()
}

/// Relies on tree_sitter_javascript::language: hands out the JavaScript grammar.
#[verifier::external_body]
pub fn grammar_javascript() -> tree_sitter::Language {
    tree_sitter_javascript::language()
}

/// Relies on tree_sitter_lua::language: hands out the Lua grammar.
#[verifier::external_body]
pub fn grammar_lua() -> tree_sitter::Language {
    tree_sitter_lua::language()
}

/// Relies on tree_sitter_md::language: hands out the Markdown block grammar.
#[verifier::external_body]
pub fn grammar_markdown() -> tree_sitter::Language {
    tree_sitter_md::language()
}

/// Relies on tree_sitter_python::language: hands out the Python grammar.
#[verifier::external_body]
pub fn grammar_python() -> tree_sitter::Language {
    tree_sitter_python::language()
}

/// Relies on tree_sitter_rust::language: hands out the Rust grammar.
#[verifier::external_body]
pub fn grammar_rust() -> tree_sitter::Language {
    tree_sitter_rust::language()
}

/// Relies on tree_sitter::Parser::new: a fresh parser with no language set.
#[verifier::external_body]
pub fn parser_new() -> tree_sitter::Parser {
    tree_sitter::Parser::new()
}

/// Whether the engine compiles this query text under this language's grammar.
pub uninterp spec fn ts_query_ok(lang: int, text: Seq<char>) -> bool;

/// The capture names the compiled query declares, ordered by capture index.
pub uninterp spec fn ts_capture_names(lang: int, text: Seq<char>) -> Seq<Seq<char>>;

/// The message the engine reports when it rejects this query text.
pub uninterp spec fn ts_query_err(lang: int, text: Seq<char>) -> Seq<char>;

/// How many patterns the compiled query holds.
pub uninterp spec fn ts_pattern_count(lang: int, text: Seq<char>) -> int;

/// The operators of the general predicates attached to one pattern of the
/// compiled query.
pub uninterp spec fn ts_predicate_ops(lang: int, text: Seq<char>, pattern: int) -> Seq<Seq<char>>;

/// The captures the engine emits when the compiled query runs over the tree
/// parsed from these source bytes, in the engine's match order.
pub uninterp spec fn ts_captures(lang: int, text: Seq<char>, source: Seq<u8>) -> Seq<CaptureModel>;

/// The error the engine reports when a query fails to compile.
pub struct QueryParseError {
    pub message: String,
}

/// A query compiled by the engine, bound to the language whose grammar
/// compiled it. Only `compile_query` constructs one, so the fields always
/// describe the opaque compiled query they sit beside.
pub struct CompiledQuery {
    raw: tree_sitter::Query,
    handle: tree_sitter::Language,
    lang: Lang,
    text: String,
    captures: Vec<String>,
}

/// The character sequences of a list of strings.
pub open spec fn names_of(v: Seq<String>) -> Seq<Seq<char>> {
    v.map_values(|s: String| s@)
}

impl CompiledQuery {
    /// The language whose grammar compiled this query.
    pub closed spec fn lang_spec(&self) -> Lang {
        self.lang
    }

    /// The query text the engine compiled.
    pub closed spec fn text_spec(&self) -> Seq<char> {
        self.text@
    }

    /// The capture names this query declares, by capture index.
    pub closed spec fn captures_spec(&self) -> Seq<Seq<char>> {
        names_of(self.captures@)
    }

    /// A compiled query compiled successfully, and carries exactly the
    /// capture names the engine reports for its text.
    pub open spec fn wf(&self) -> bool {
        &&& ts_query_ok(self.lang_spec().tag(), self.text_spec())
        &&& self.captures_spec() == ts_capture_names(self.lang_spec().tag(), self.text_spec())
    }

    pub fn lang(&self) -> (r: Lang)
        ensures
            r == self.lang_spec(),
    {
        self.lang
    }

    pub fn text(&self) -> (r: &String)
        ensures
            r@ == self.text_spec(),
    {
        &self.text
    }

    pub fn captures(&self) -> (r: &Vec<String>)
        ensures
            names_of(r@) == self.captures_spec(),
    {
        &self.captures
    }
}

/// Relies on tree_sitter::Query::new and tree_sitter::Query::capture_names:
/// compilation is determined by the grammar and the query text; capture names
/// are listed by capture index; a rejection's display names the failure and
/// its 1-indexed position.
#[verifier::external_body]
pub fn compile_query(lang: &Lang, text: &str) -> (r: Result<CompiledQuery, QueryParseError>)
    ensures
        r.is_ok() == ts_query_ok(lang.tag(), text@),
        r matches Ok(q) ==> q.wf() && q.lang_spec() == *lang && q.text_spec() == text@,
        r matches Err(e) ==> e.message@ == ts_query_err(lang.tag(), text@),
{
    let handle = lang.grammar();
    match tree_sitter::Query::new(handle, text) {
        Ok(raw) => {
            let captures = raw.capture_names().to_vec();
            Ok(CompiledQuery { raw, handle, lang: *lang, text: text.to_owned(), captures })
        },
        Err(e) => Err(QueryParseError { message: e.to_string() }),
    }
}

/// Relies on tree_sitter::Query::pattern_count: the number of patterns is
/// determined by the grammar and the query text.
#[verifier::external_body]
pub fn pattern_count(q: &CompiledQuery) -> (r: usize)
    ensures
        r as int == ts_pattern_count(q.lang_spec().tag(), q.text_spec()),
{
    q.raw.pattern_count()
}

/// Relies on tree_sitter::Query::general_predicates: the predicates attached
/// to a pattern are determined by the grammar and the query text; the call
/// panics on a pattern index at or above the pattern count.
#[verifier::external_body]
pub fn predicate_ops(q: &CompiledQuery, pattern: usize) -> (r: Vec<String>)
    requires
        (pattern as int) < ts_pattern_count(q.lang_spec().tag(), q.text_spec()),
    ensures
        names_of(r@) == ts_predicate_ops(q.lang_spec().tag(), q.text_spec(), pattern as int),
{
    q.raw.general_predicates(pattern).iter().map(|p| p.operator.to_string()).collect()
}

/// One capture the engine emitted: the capture's index into the query's
/// capture names, the captured node's kind, and its byte range and
/// 0-indexed start and end positions in the source.
pub struct RawCapture {
    pub cidx: usize,
    pub kind: String,
    pub start_byte: usize,
    pub end_byte: usize,
    pub start_row: usize,
    pub start_col: usize,
    pub end_row: usize,
    pub end_col: usize,
}

/// The mathematical shadow of a `RawCapture`.
pub struct CaptureModel {
    pub cidx: int,
    pub kind: Seq<char>,
    pub start_byte: int,
    pub end_byte: int,
    pub start_row: int,
    pub start_col: int,
    pub end_row: int,
    pub end_col: int,
}

impl View for RawCapture {
    type V = CaptureModel;

    open spec fn view(&self) -> CaptureModel {
        CaptureModel {
            cidx: self.cidx as int,
            kind: self.kind@,
            start_byte: self.start_byte as int,
            end_byte: self.end_byte as int,
            start_row: self.start_row as int,
            start_col: self.start_col as int,
            end_row: self.end_row as int,
            end_col: self.end_col as int,
        }
    }
}

/// The models of a list of raw captures.
pub open spec fn caps_of(v: Seq<RawCapture>) -> Seq<CaptureModel> {
    v.map_values(|c: RawCapture| c@)
}

/// What the engine guarantees of every capture it emits: the capture index
/// addresses the query's capture names; the node's byte range lies within the
/// source; rows count line breaks before a position and columns are byte
/// offsets within a line, so both are bounded by the position's byte offset.
pub open spec fn caps_bounded(caps: Seq<CaptureModel>, n_names: int, src_len: int) -> bool {
    forall|i: int|
        0 <= i < caps.len() ==> {
            &&& (#[trigger] caps[i]).cidx < n_names
            &&& 0 <= caps[i].cidx
            &&& 0 <= caps[i].start_byte <= caps[i].end_byte <= src_len
            &&& 0 <= caps[i].start_row <= caps[i].start_byte
            &&& 0 <= caps[i].start_col <= caps[i].start_byte
            &&& 0 <= caps[i].end_row <= caps[i].end_byte
            &&& 0 <= caps[i].end_col <= caps[i].end_byte
        }
}

/// Relies on tree_sitter::Parser::set_language, tree_sitter::Parser::parse and
/// tree_sitter::QueryCursor::matches: parsing and matching are determined by
/// the grammar, the query text and the source bytes; a parse returns no tree
/// only when the language could not be set (and this parser sets no timeout or
/// cancellation); every emitted capture index addresses the query's capture
/// names; node ranges lie within the source, whose length a slice bounds by
/// isize::MAX.
#[verifier::external_body]
pub fn engine_captures(q: &CompiledQuery, source: &[u8], parser: &mut tree_sitter::Parser) -> (r:
    Option<Vec<RawCapture>>)
    ensures
        r matches Some(v) ==> {
            &&& caps_of(v@) == ts_captures(q.lang_spec().tag(), q.text_spec(), source@)
            &&& caps_bounded(
                caps_of(v@),
                ts_capture_names(q.lang_spec().tag(), q.text_spec()).len() as int,
                source@.len() as int,
            )
            &&& source@.len() < usize::MAX
        },
{
    if parser.set_language(q.handle).is_err() {
        return None;
    }
    let tree = parser.parse(source, None)?;
    let mut cursor = tree_sitter::QueryCursor::new();
    let mut out: Vec<RawCapture> = Vec::new();
    for m in cursor.matches(&q.raw, tree.root_node(), source) {
        for c in m.captures {
            let (n, s, e) = (c.node, c.node.start_position(), c.node.end_position());
            out.push(RawCapture { cidx: c.index as usize, kind: n.kind().to_string(),
                start_byte: n.start_byte(), end_byte: n.end_byte(),
                start_row: s.row, start_col: s.column, end_row: e.row, end_col: e.column });
        }
    }
    Some(out)
}

/// Relies on core::str::from_utf8: it accepts exactly the byte sequences that
/// are valid UTF-8 and decodes them to their character sequence.
#[verifier::external_body]
pub fn bytes_to_utf8(bytes: &[u8]) -> (r: Option<String>)
    ensures
        r.is_some() == valid_utf8(bytes@),
        r matches Some(s) ==> s@ == decode_utf8(bytes@),
{
    match core::str::from_utf8(bytes) {
        Ok(s) => Some(s.to_owned()),
        Err(_) => None,
    }
}

/// Relies on str's FromIterator<char>: collecting characters builds the string
/// of exactly those characters.
#[verifier::external_body]
pub fn chars_to_string(v: &Vec<char>) -> (r: String)
    ensures
        r@ == v@,
{
    v.iter().collect()
}

} // verus!
