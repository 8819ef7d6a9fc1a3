//! The extractor: one compiled composite query for one language, and the
//! algorithm that turns the engine's captures into reportable matches.

use vstd::prelude::*;

use crate::engine;
use crate::engine::CaptureModel;
use crate::engine::CompiledQuery;
use crate::error::GrepError;
use crate::language::Lang;
use crate::render::renderable;
use vstd::utf8::decode_utf8;
use vstd::utf8::valid_utf8;

verus! {

/// A position in a source file, 0-indexed; output formats present it
/// 1-indexed.
#[derive(Debug, PartialEq, Eq, Clone, Copy)]
pub struct Point {
    pub row: usize,
    pub column: usize,
}

/// One reported match: the captured node's kind, the capture's name, the
/// node's text, and its start and end positions.
#[derive(Debug, PartialEq, Eq, Clone)]
pub struct ExtractedMatch {
    pub kind: String,
    pub name: String,
    pub text: String,
    pub start: Point,
    pub end: Point,
}

/// The mathematical shadow of an `ExtractedMatch`.
#[verifier::ext_equal]
pub struct MatchModel {
    pub kind: Seq<char>,
    pub name: Seq<char>,
    pub text: Seq<char>,
    pub start_row: int,
    pub start_col: int,
    pub end_row: int,
    pub end_col: int,
}

impl View for ExtractedMatch {
    type V = MatchModel;

    open spec fn view(&self) -> MatchModel {
        MatchModel {
            kind: self.kind@,
            name: self.name@,
            text: self.text@,
            start_row: self.start.row as int,
            start_col: self.start.column as int,
            end_row: self.end.row as int,
            end_col: self.end.column as int,
        }
    }
}

/// Every match reported from one file: the path (absent for in-memory
/// sources), a display tag for the file's language, and the matches in the
/// engine's order.
#[derive(Debug, PartialEq, Eq, Clone)]
pub struct ExtractedFile {
    pub file: Option<String>,
    pub file_type: String,
    pub matches: Vec<ExtractedMatch>,
}

/// The mathematical shadow of an `ExtractedFile`.
#[verifier::ext_equal]
pub struct FileModel {
    pub file: Option<Seq<char>>,
    pub file_type: Seq<char>,
    pub matches: Seq<MatchModel>,
}

impl View for ExtractedFile {
    type V = FileModel;

    open spec fn view(&self) -> FileModel {
        FileModel {
            file: match self.file {
                Some(p) => Some(p@),
                None => None,
            },
            file_type: self.file_type@,
            matches: self.matches@.map_values(|m: ExtractedMatch| m@),
        }
    }
}

/// A capture name the query uses only to anchor patterns: it starts with the
/// reserved helper marker and is never reported.
pub open spec fn helper_name(n: Seq<char>) -> bool {
    n.len() > 0 && n[0] == '_'
}

/// The match built from one engine capture: kind and positions come from the
/// captured node, the name from the query's capture table, the text from
/// decoding the node's byte range.
pub open spec fn match_of(names: Seq<Seq<char>>, src: Seq<u8>, c: CaptureModel) -> MatchModel {
    MatchModel {
        kind: c.kind,
        name: names[c.cidx],
        text: decode_utf8(src.subrange(c.start_byte, c.end_byte)),
        start_row: c.start_row,
        start_col: c.start_col,
        end_row: c.end_row,
        end_col: c.end_col,
    }
}

/// The matches kept from a capture sequence: helper captures are dropped,
/// every other capture is reported, in order.
pub open spec fn matches_of(names: Seq<Seq<char>>, src: Seq<u8>, caps: Seq<CaptureModel>) -> Seq<
    MatchModel,
>
    decreases caps.len(),
{
    if caps.len() == 0 {
        Seq::empty()
    } else {
        let rest = matches_of(names, src, caps.drop_last());
        if helper_name(names[caps.last().cidx]) {
            rest
        } else {
            rest.push(match_of(names, src, caps.last()))
        }
    }
}

/// No reported match carries a helper capture's name.
pub proof fn lemma_matches_of_no_helpers(
    names: Seq<Seq<char>>,
    src: Seq<u8>,
    caps: Seq<CaptureModel>,
)
    ensures
        forall|i: int|
            0 <= i < matches_of(names, src, caps).len() ==> !helper_name(
                #[trigger] matches_of(names, src, caps)[i].name,
            ),
    decreases caps.len(),
{
    if caps.len() > 0 {
        lemma_matches_of_no_helpers(names, src, caps.drop_last());
        let rest = matches_of(names, src, caps.drop_last());
        let whole = matches_of(names, src, caps);
        assert(forall|i: int| 0 <= i < rest.len() ==> whole[i] == rest[i]);
        if !helper_name(names[caps.last().cidx]) {
            assert(whole[whole.len() - 1] == match_of(names, src, caps.last()));
        }
    }
}

/// Whether every kept capture's byte range decodes as UTF-8.
pub open spec fn all_text_valid(names: Seq<Seq<char>>, src: Seq<u8>, caps: Seq<CaptureModel>) -> bool {
    forall|i: int|
        0 <= i < caps.len() && !helper_name(names[(#[trigger] caps[i]).cidx]) ==> valid_utf8(
            src.subrange(caps[i].start_byte, caps[i].end_byte),
        )
}

/// One language's composite query, ready to run over files.
pub struct Extractor {
    language: Lang,
    query: CompiledQuery,
}

impl Extractor {
    /// The language this extractor is bound to.
    pub closed spec fn lang_spec(&self) -> Lang {
        self.language
    }

    /// The composite query text this extractor runs.
    pub closed spec fn query_text(&self) -> Seq<char> {
        self.query.text_spec()
    }

    /// The extractor's query compiled under its own language's grammar.
    pub closed spec fn wf(&self) -> bool {
        &&& self.query.wf()
        &&& self.query.lang_spec() == self.lang_spec()
    }

    /// The capture names the engine reports for the query, the model this
    /// extractor filters by.
    pub open spec fn names_spec(&self) -> Seq<Seq<char>> {
        engine::ts_capture_names(self.lang_spec().tag(), self.query_text())
    }

    /// Bundle a compiled query with its language.
    pub fn new(language: Lang, query: CompiledQuery) -> (r: Extractor)
        requires
            query.wf(),
            query.lang_spec() == language,
        ensures
            r.wf(),
            r.lang_spec() == language,
            r.query_text() == query.text_spec(),
    {
        Extractor { language, query }
    }

    pub fn language(&self) -> (r: &Lang)
        ensures
            *r == self.lang_spec(),
    {
        &self.language
    }

    /// Run the composite query over one source text. Helper captures are
    /// dropped; a file with no surviving capture yields no entry at all; a
    /// capture whose bytes are not UTF-8 is a hard per-file failure.
    pub fn extract_from_text(
        &self,
        path: Option<&String>,
        source: &[u8],
        parser: &mut tree_sitter::Parser,
    ) -> (r: Result<Option<ExtractedFile>, GrepError>)
        requires
            self.wf(),
        ensures
            ({
                let caps = engine::ts_captures(self.lang_spec().tag(), self.query_text(), source@);
                let models = matches_of(self.names_spec(), source@, caps);
                &&& (r matches Ok(v) ==> ((v matches Some(ef)) <==> models.len() > 0))
                &&& (r matches Ok(Some(ef)) ==> {
                    &&& renderable(ef@)
                    &&& ef@.matches == models
                    &&& ef@.matches.len() > 0
                    &&& ef@.file == (match path {
                        Some(p) => Some(p@),
                        None => None::<Seq<char>>,
                    })
                    &&& ef@.file_type == self.lang_spec().name_spec()
                })
                &&& (r matches Err(e) ==> ((e matches GrepError::InternalParse { path: ep }
                    && opt_str_deep(ep) == path_deep(path)) || (e matches GrepError::InvalidUtf8 {
                    path: ep,
                } && opt_str_deep(ep) == path_deep(path) && !all_text_valid(
                    self.names_spec(),
                    source@,
                    caps,
                ))))
            }),
    {
        let caps = match engine::engine_captures(&self.query, source, parser) {
            Some(c) => c,
            None => {
                return Err(GrepError::InternalParse { path: clone_path(path) });
            },
        };
        let ghost caps_model = engine::caps_of(caps@);
        let names = self.query.captures();
        let n = caps.len();
        let mut out: Vec<ExtractedMatch> = Vec::new();
        let mut i: usize = 0;
        while i < n
            invariant
                i <= n,
                n == caps@.len(),
                self.wf(),
                caps_model == engine::caps_of(caps@),
                caps_model == engine::ts_captures(self.lang_spec().tag(), self.query_text(), source@),
                engine::names_of(names@) == self.names_spec(),
                engine::caps_bounded(caps_model, self.names_spec().len() as int, source@.len() as int),
                source@.len() < usize::MAX,
                out@.map_values(|m: ExtractedMatch| m@) == matches_of(
                    self.names_spec(),
                    source@,
                    caps_model.take(i as int),
                ),
                forall|k: int|
                    0 <= k < i && !helper_name(
                        self.names_spec()[(#[trigger] caps_model[k]).cidx],
                    ) ==> valid_utf8(
                        source@.subrange(caps_model[k].start_byte, caps_model[k].end_byte),
                    ),
                forall|k: int|
                    0 <= k < out@.len() ==> {
                        &&& 0 <= (#[trigger] out@[k])@.start_row < usize::MAX
                        &&& 0 <= out@[k]@.start_col < usize::MAX
                        &&& 0 <= out@[k]@.end_row < usize::MAX
                        &&& 0 <= out@[k]@.end_col < usize::MAX
                    },
            decreases n - i,
        {
            let c = &caps[i];
            proof {
                assert(caps_model[i as int] == caps@[i as int]@);
                assert(caps_model.take(i + 1).drop_last() =~= caps_model.take(i as int));
                assert(caps_model.take(i + 1).last() == caps_model[i as int]);
            }
            let name = &names[c.cidx];
            let name_str = name.as_str();
            let is_helper = name_str.unicode_len() > 0 && name_str.get_char(0) == '_';
            proof {
                assert(name@ == self.names_spec()[caps_model[i as int].cidx]);
                assert(is_helper == helper_name(self.names_spec()[caps_model[i as int].cidx]));
            }
            if !is_helper {
                let bytes = &source[c.start_byte..c.end_byte];
                let text = match engine::bytes_to_utf8(bytes) {
                    Some(t) => t,
                    None => {
                        proof {
                            let ii = i as int;
                            assert(caps_model[ii].start_byte == c.start_byte as int);
                            assert(caps_model[ii].end_byte == c.end_byte as int);
                            assert(!valid_utf8(
                                source@.subrange(caps_model[ii].start_byte, caps_model[ii].end_byte),
                            ));
                            assert(!helper_name(self.names_spec()[caps_model[ii].cidx]));
                            assert(!all_text_valid(self.names_spec(), source@, caps_model));
                        }
                        return Err(GrepError::InvalidUtf8 { path: clone_path(path) });
                    },
                };
                let m = ExtractedMatch {
                    kind: c.kind.clone(),
                    name: name.clone(),
                    text,
                    start: Point { row: c.start_row, column: c.start_col },
                    end: Point { row: c.end_row, column: c.end_col },
                };
                proof {
                    assert(m@ == match_of(self.names_spec(), source@, caps_model[i as int]));
                }
                out.push(m);
                proof {
                    assert(out@.map_values(|mm: ExtractedMatch| mm@) =~= matches_of(
                        self.names_spec(),
                        source@,
                        caps_model.take(i + 1),
                    ));
                }
            }
            i = i + 1;
        }
        proof {
            assert(caps_model.take(n as int) =~= caps_model);
        }
        if out.len() == 0 {
            Ok(None)
        } else {
            let ef = ExtractedFile {
                file: clone_path(path),
                file_type: self.language.name().to_owned(),
                matches: out,
            };
            Ok(Some(ef))
        }
    }
}

/// The character sequence of an optional path.
pub open spec fn path_deep(path: Option<&String>) -> Option<Seq<char>> {
    match path {
        Some(p) => Some(p@),
        None => None,
    }
}

/// The character sequence of an owned optional path.
pub open spec fn opt_str_deep(path: Option<String>) -> Option<Seq<char>> {
    match path {
        Some(p) => Some(p@),
        None => None,
    }
}

/// Clone an optional borrowed path.
fn clone_path(path: Option<&String>) -> (r: Option<String>)
    ensures
        opt_str_deep(r) == path_deep(path),
{
    match path {
        Some(p) => Some(p.clone()),
        None => None,
    }
}

} // verus!
