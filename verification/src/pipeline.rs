//! The extraction pipeline and the dispatcher: for every walked file, choose
//! an extractor, extract matches, collect the surviving records, optionally
//! sort them stably, and render them in the requested format.

use vstd::prelude::*;

use crate::chooser;
use crate::chooser::ExtractorChooser;
use crate::engine;
use crate::error::GrepError;
use crate::extract::ExtractedFile;
use crate::extract::Extractor;
use crate::extract::FileModel;
use crate::extract::matches_of;
use crate::language;
use crate::language::Lang;
use crate::render;
use crate::render::files_deep;
use crate::sort;
use crate::text;

verus! {

/// The output formats.
#[derive(Debug, PartialEq, Eq, Structural, Clone, Copy)]
pub enum QueryFormat {
    Lines,
    Json,
    JsonLines,
    PrettyJson,
    Pretty,
}

/// Which format a name selects.
pub open spec fn format_spec(s: Seq<char>) -> Option<QueryFormat> {
    if s == "lines"@ {
        Some(QueryFormat::Lines)
    } else if s == "json"@ {
        Some(QueryFormat::Json)
    } else if s == "json-lines"@ {
        Some(QueryFormat::JsonLines)
    } else if s == "pretty-json"@ {
        Some(QueryFormat::PrettyJson)
    } else if s == "pretty"@ {
        Some(QueryFormat::Pretty)
    } else {
        None
    }
}

impl QueryFormat {
    /// Resolve a format name; an unknown name is rejected.
    pub fn from_str(s: &str) -> (r: Result<QueryFormat, GrepError>)
        ensures
            format_spec(s@) matches Some(f) ==> r == Ok::<QueryFormat, GrepError>(f),
            format_spec(s@) is None ==> r == Err::<QueryFormat, GrepError>(GrepError::UnknownFormat),
    {
        if language::str_eq(s, "lines") {
            Ok(QueryFormat::Lines)
        } else if language::str_eq(s, "json") {
            Ok(QueryFormat::Json)
        } else if language::str_eq(s, "json-lines") {
            Ok(QueryFormat::JsonLines)
        } else if language::str_eq(s, "pretty-json") {
            Ok(QueryFormat::PrettyJson)
        } else if language::str_eq(s, "pretty") {
            Ok(QueryFormat::Pretty)
        } else {
            Err(GrepError::UnknownFormat)
        }
    }
}

/// Everything a query run is configured by.
pub struct QueryOpts {
    pub extractors: Vec<Extractor>,
    pub paths: Vec<String>,
    pub git_ignore: bool,
    pub format: QueryFormat,
    pub sort: bool,
    pub theme: String,
    pub tab_width: usize,
    pub before_lines: usize,
    pub after_lines: usize,
    pub show_count: bool,
    pub no_filename: bool,
    pub no_line_number: bool,
}

/// Every extractor of a configuration carries a compiled query of its own
/// language.
pub open spec fn opts_wf(opts: &QueryOpts) -> bool {
    forall|i: int| 0 <= i < opts.extractors@.len() ==> (#[trigger] opts.extractors@[i]).wf()
}

impl QueryOpts {
    /// Index the active extractors for per-file selection.
    pub fn extractor_chooser(&self) -> (r: ExtractorChooser)
        ensures
            r.langs_spec() == self.extractors@.map_values(|e: Extractor| e.lang_spec()),
    {
        ExtractorChooser::from_extractors(&self.extractors)
    }
}

/// The configuration of a syntax-tree display run.
pub struct TreeOpts {
    pub language: Lang,
    pub path: String,
}

/// What one invocation of the tool asks for.
pub enum Invocation {
    DoQuery(QueryOpts),
    ShowLanguages,
    ShowTree(TreeOpts),
}

/// One walked file, read into memory.
pub struct SourceFile {
    pub path: String,
    pub contents: Vec<u8>,
}

/// The deep view of walked files.
pub open spec fn sources_deep(s: Seq<SourceFile>) -> Seq<(Seq<char>, Seq<u8>)> {
    s.map_values(|f: SourceFile| (f.path@, f.contents@))
}

/// What a run hands back: rendered text, records for the highlighting
/// printer, or the request to display one file's syntax tree.
pub enum Rendered {
    Text(String),
    Pretty(Vec<ExtractedFile>),
    Tree(TreeOpts),
}

/// The languages of a list of extractors.
pub open spec fn langs_of(es: Seq<Extractor>) -> Seq<Lang> {
    es.map_values(|e: Extractor| e.lang_spec())
}

/// The record one file contributes, when the engine succeeds: the chosen
/// extractor's kept matches, or nothing when no extractor applies or no
/// match survives.
pub open spec fn file_entry(es: Seq<Extractor>, f: (Seq<char>, Seq<u8>)) -> Option<FileModel> {
    match chooser::choose_spec(langs_of(es), f.0) {
        Some(i) => {
            let e = es[i];
            let models = matches_of(
                e.names_spec(),
                f.1,
                engine::ts_captures(e.lang_spec().tag(), e.query_text(), f.1),
            );
            if models.len() > 0 {
                Some(
                    FileModel {
                        file: Some(f.0),
                        file_type: e.lang_spec().name_spec(),
                        matches: models,
                    },
                )
            } else {
                None
            }
        },
        None => None,
    }
}

/// The records collected over all files, in walk order.
pub open spec fn collected_spec(es: Seq<Extractor>, files: Seq<(Seq<char>, Seq<u8>)>) -> Seq<
    FileModel,
>
    decreases files.len(),
{
    if files.len() == 0 {
        Seq::empty()
    } else {
        let rest = collected_spec(es, files.drop_last());
        match file_entry(es, files.last()) {
            Some(m) => rest.push(m),
            None => rest,
        }
    }
}

/// Whether an output value renders this record sequence in this format.
pub open spec fn rendered_as(format: QueryFormat, fsq: Seq<FileModel>, v: Rendered) -> bool {
    match format {
        QueryFormat::Lines => v matches Rendered::Text(s) && s@ == render::lines_of(fsq),
        QueryFormat::Json => v matches Rendered::Text(s) && s@ == render::json_of(fsq),
        QueryFormat::JsonLines => v matches Rendered::Text(s) && s@ == render::json_lines_of(fsq),
        QueryFormat::PrettyJson => v matches Rendered::Text(s) && s@ == render::pretty_json_of(fsq),
        QueryFormat::Pretty => v matches Rendered::Pretty(files) && files_deep(files@) == fsq,
    }
}

/// Whether an output value presents the collected records: as collected, or
/// stably sorted first when the sort was requested.
pub open spec fn output_matches(
    format: QueryFormat,
    sorted: bool,
    collected: Seq<FileModel>,
    v: Rendered,
) -> bool {
    if sorted {
        exists|fsq: Seq<FileModel>, perm: Seq<int>|
            #[trigger] sort::sorted_stably(collected, fsq, perm) && rendered_as(format, fsq, v)
    } else {
        rendered_as(format, collected, v)
    }
}

/// A failure during extraction names the file it came from; it can only be
/// the engine handing back no tree, or a capture whose bytes are not UTF-8.
pub open spec fn query_err_spec(
    es: Seq<Extractor>,
    files: Seq<(Seq<char>, Seq<u8>)>,
    e: GrepError,
) -> bool {
    exists|i: int|
        0 <= i < files.len() && chooser::choose_spec(langs_of(es), (#[trigger] files[i]).0)
            is Some && ((e matches GrepError::InternalParse { path } && path matches Some(p) && p@
            == files[i].0) || (e matches GrepError::InvalidUtf8 { path } && path matches Some(p)
            && p@ == files[i].0))
}

/// Run the full query pipeline over the walked files: choose, extract,
/// collect, optionally sort, and render.
pub fn do_query(opts: &QueryOpts, files: &Vec<SourceFile>) -> (r: Result<Rendered, GrepError>)
    requires
        opts_wf(opts),
    ensures
        r matches Ok(v) ==> output_matches(
            opts.format,
            opts.sort,
            collected_spec(opts.extractors@, sources_deep(files@)),
            v,
        ),
        r matches Err(e) ==> query_err_spec(opts.extractors@, sources_deep(files@), e),
{
    let ghost es = opts.extractors@;
    let ghost fd = sources_deep(files@);
    let chooser_v = opts.extractor_chooser();
    let mut parser = engine::parser_new();
    let mut collected: Vec<ExtractedFile> = Vec::new();
    let n = files.len();
    let mut i: usize = 0;
    while i < n
        invariant
            i <= n,
            n == fd.len(),
            fd == sources_deep(files@),
            es == opts.extractors@,
            opts_wf(opts),
            chooser_v.langs_spec() == langs_of(es),
            files_deep(collected@) == collected_spec(es, fd.take(i as int)),
            render::all_renderable(files_deep(collected@)),
        decreases n - i,
    {
        let f = &files[i];
        proof {
            assert(fd[i as int] == (f.path@, f.contents@));
            assert(fd.take(i + 1).drop_last() =~= fd.take(i as int));
            assert(fd.take(i + 1).last() == fd[i as int]);
        }
        let ghost old_collected = files_deep(collected@);
        match chooser_v.extractor_for(&f.path) {
            Some(e_idx) => {
                proof {
                    assert(langs_of(es).len() == es.len());
                }
                let ext = &opts.extractors[e_idx];
                match ext.extract_from_text(Some(&f.path), f.contents.as_slice(), &mut parser) {
                    Ok(Some(ef)) => {
                        proof {
                            assert(es[e_idx as int] == ext);
                            assert(file_entry(es, fd[i as int]) == Some(ef@));
                        }
                        collected.push(ef);
                        proof {
                            assert(files_deep(collected@) =~= old_collected.push(
                                collected@.last()@,
                            ));
                        }
                    },
                    Ok(None) => {
                        proof {
                            assert(file_entry(es, fd[i as int]) is None);
                        }
                    },
                    Err(e) => {
                        proof {
                            assert(chooser::choose_spec(langs_of(es), fd[i as int].0) is Some);
                        }
                        return Err(e);
                    },
                }
            },
            None => {
                proof {
                    assert(file_entry(es, fd[i as int]) is None);
                }
            },
        }
        proof {
            assert(files_deep(collected@) =~= collected_spec(es, fd.take(i + 1)));
        }
        i = i + 1;
    }
    proof {
        assert(fd.take(n as int) =~= fd);
    }
    let ghost collected_m = collected_spec(es, fd);
    let final_files = if opts.sort {
        sort::sort_files(collected)
    } else {
        collected
    };
    proof {
        if opts.sort {
            let perm = choose|perm: Seq<int>|
                sort::sorted_stably(collected_m, files_deep(final_files@), perm);
            assert(sort::sorted_stably(collected_m, files_deep(final_files@), perm));
            assert forall|k: int|
                0 <= k < files_deep(final_files@).len() implies render::renderable(
                #[trigger] files_deep(final_files@)[k],
            ) by {
                assert(files_deep(final_files@)[k] == collected_m[perm[k]]);
            }
        }
    }
    let out = match opts.format {
        QueryFormat::Lines => Rendered::Text(render::render_lines(&final_files)),
        QueryFormat::Json => Rendered::Text(render::render_json(&final_files)),
        QueryFormat::JsonLines => Rendered::Text(render::render_json_lines(&final_files)),
        QueryFormat::PrettyJson => Rendered::Text(render::render_pretty_json(&final_files)),
        QueryFormat::Pretty => Rendered::Pretty(final_files),
    };
    proof {
        if opts.sort {
            let perm = choose|perm: Seq<int>|
                sort::sorted_stably(collected_m, files_deep(final_files@), perm);
            assert(rendered_as(opts.format, files_deep(final_files@), out));
            assert(output_matches(opts.format, opts.sort, collected_m, out));
        } else {
            assert(rendered_as(opts.format, collected_m, out));
        }
    }
    Ok(out)
}

/// The language list, one display name per line.
pub open spec fn languages_list_spec(langs: Seq<Lang>) -> Seq<char>
    decreases langs.len(),
{
    if langs.len() == 0 {
        Seq::empty()
    } else {
        languages_list_spec(langs.drop_last()) + langs.last().name_spec() + "\n"@
    }
}

/// List every language the tool knows, one per line.
pub fn show_languages() -> (r: String)
    ensures
        r@ == languages_list_spec(language::all_spec()),
{
    let langs = Lang::all();
    let n = langs.len();
    let mut out: Vec<char> = Vec::new();
    let mut i: usize = 0;
    while i < n
        invariant
            i <= n,
            n == language::all_spec().len(),
            langs@ == language::all_spec(),
            out@ == languages_list_spec(language::all_spec().take(i as int)),
        decreases n - i,
    {
        proof {
            assert(language::all_spec().take(i + 1).drop_last() =~= language::all_spec().take(
                i as int,
            ));
            assert(language::all_spec().take(i + 1).last() == language::all_spec()[i as int]);
        }
        text::push_str_chars(&mut out, langs[i].name());
        text::push_str_chars(&mut out, "\n");
        i = i + 1;
    }
    proof {
        assert(language::all_spec().take(n as int) =~= language::all_spec());
    }
    engine::chars_to_string(&out)
}

/// The 1-indexed line ranges the highlighting printer marks for one file's
/// matches: a match ending at column 0 does not claim its end row.
pub fn highlight_ranges(file: &ExtractedFile) -> (r: Vec<(usize, usize)>)
    requires
        render::renderable(file@),
    ensures
        r@.len() == file.matches@.len(),
        forall|i: int|
            0 <= i < r@.len() ==> (#[trigger] r@[i]).0 == file.matches@[i]@.start_row + 1
                && r@[i].1 == (if file.matches@[i]@.end_col == 0 {
                file.matches@[i]@.end_row
            } else {
                file.matches@[i]@.end_row + 1
            }),
{
    let mut out: Vec<(usize, usize)> = Vec::new();
    let n = file.matches.len();
    let mut i: usize = 0;
    while i < n
        invariant
            i <= n,
            n == file.matches@.len(),
            render::renderable(file@),
            out@.len() == i,
            forall|k: int|
                0 <= k < i ==> (#[trigger] out@[k]).0 == file.matches@[k]@.start_row + 1
                    && out@[k].1 == (if file.matches@[k]@.end_col == 0 {
                    file.matches@[k]@.end_row
                } else {
                    file.matches@[k]@.end_row + 1
                }),
        decreases n - i,
    {
        let m = &file.matches[i];
        proof {
            assert(file@.matches[i as int] == file.matches@[i as int]@);
        }
        let end: usize = if m.end.column == 0 {
            m.end.row
        } else {
            m.end.row + 1
        };
        out.push((m.start.row + 1, end));
        i = i + 1;
    }
    out
}

/// Dispatch one invocation: run the query pipeline, list the languages, or
/// hand the syntax-tree request on to the caller's display.
pub fn try_main(inv: Invocation, files: &Vec<SourceFile>) -> (r: Result<Rendered, GrepError>)
    requires
        inv matches Invocation::DoQuery(opts) ==> opts_wf(&opts),
    ensures
        (inv matches Invocation::ShowLanguages ==> (r matches Ok(v) && v matches Rendered::Text(s)
            && s@ == languages_list_spec(language::all_spec()))),
        (inv matches Invocation::ShowTree(o) ==> (r matches Ok(v) && v matches Rendered::Tree(t)
            && t.language == o.language && t.path@ == o.path@)),
        (inv matches Invocation::DoQuery(opts) ==> {
            &&& (r matches Ok(v) ==> output_matches(
                opts.format,
                opts.sort,
                collected_spec(opts.extractors@, sources_deep(files@)),
                v,
            ))
            &&& (r matches Err(e) ==> query_err_spec(opts.extractors@, sources_deep(files@), e))
        }),
{
    match inv {
        Invocation::DoQuery(opts) => do_query(&opts, files),
        Invocation::ShowLanguages => Ok(Rendered::Text(show_languages())),
        Invocation::ShowTree(o) => Ok(Rendered::Tree(o)),
    }
}

} // verus!
