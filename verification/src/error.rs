//! The failures this library reports, each with an exactly specified message.

use vstd::prelude::*;

use crate::language;
use crate::language::Lang;
use crate::engine;
use crate::text;

verus! {

/// Everything that can go wrong while combining queries or extracting
/// matches.
#[derive(Debug)]
pub enum GrepError {
    /// A language name no variant answers to.
    UnknownLanguage { name: String },
    /// The engine rejected a query text; the message is the engine's own.
    QueryParse { message: String },
    /// A combined query carries an engine-level predicate, which this tool
    /// never evaluates.
    UnsupportedPredicate { operator: String },
    /// A captured node's bytes were not valid UTF-8.
    InvalidUtf8 { path: Option<String> },
    /// The engine handed back no tree, which cannot happen once a grammar is
    /// set and means an engine mismatch.
    InternalParse { path: Option<String> },
    /// An output format name no format answers to.
    UnknownFormat,
}

/// The language names joined with comma separators, in display order.
pub open spec fn names_joined(langs: Seq<Lang>) -> Seq<char>
    decreases langs.len(),
{
    if langs.len() == 0 {
        Seq::empty()
    } else if langs.len() == 1 {
        langs[0].name_spec()
    } else {
        names_joined(langs.drop_last()) + ", "@ + langs.last().name_spec()
    }
}

/// The prefix a per-file failure carries when the file's path is known.
pub open spec fn path_prefix_spec(path: Option<String>) -> Seq<char> {
    match path {
        Some(p) => "could not extract matches from "@ + p@ + ": "@,
        None => Seq::empty(),
    }
}

impl GrepError {
    /// The rendered message of each failure.
    pub open spec fn message_spec(&self) -> Seq<char> {
        match self {
            GrepError::UnknownLanguage { name } => "unknown language "@ + name@
                + ". Try one of: "@ + names_joined(language::all_spec()),
            GrepError::QueryParse { message } => message@,
            GrepError::UnsupportedPredicate { operator } => "Unknown predicate '"@ + operator@
                + "'"@,
            GrepError::InvalidUtf8 { path } => path_prefix_spec(*path)
                + "could not extract text from capture"@,
            GrepError::InternalParse { path } => path_prefix_spec(*path)
                + "could not parse to a tree. This is an internal error and should be reported."@,
            GrepError::UnknownFormat => "unknown format. See --help for valid formats."@,
        }
    }

    /// Render this failure for the user.
    pub fn message(&self) -> (r: String)
        ensures
            r@ == self.message_spec(),
    {
        let mut out: Vec<char> = Vec::new();
        match self {
            GrepError::UnknownLanguage { name } => {
                text::push_str_chars(&mut out, "unknown language ");
                text::push_string(&mut out, name);
                text::push_str_chars(&mut out, ". Try one of: ");
                push_language_list(&mut out);
            },
            GrepError::QueryParse { message } => {
                text::push_string(&mut out, message);
            },
            GrepError::UnsupportedPredicate { operator } => {
                text::push_str_chars(&mut out, "Unknown predicate '");
                text::push_string(&mut out, operator);
                text::push_str_chars(&mut out, "'");
            },
            GrepError::InvalidUtf8 { path } => {
                push_path_prefix(&mut out, path);
                text::push_str_chars(&mut out, "could not extract text from capture");
            },
            GrepError::InternalParse { path } => {
                push_path_prefix(&mut out, path);
                text::push_str_chars(
                    &mut out,
                    "could not parse to a tree. This is an internal error and should be reported.",
                );
            },
            GrepError::UnknownFormat => {
                text::push_str_chars(&mut out, "unknown format. See --help for valid formats.");
            },
        }
        engine::chars_to_string(&out)
    }
}

/// Append the per-file prefix of a failure.
fn push_path_prefix(out: &mut Vec<char>, path: &Option<String>)
    ensures
        final(out)@ == old(out)@ + path_prefix_spec(*path),
{
    match path {
        Some(p) => {
            text::push_str_chars(out, "could not extract matches from ");
            text::push_string(out, p);
            text::push_str_chars(out, ": ");
        },
        None => {},
    }
}

/// Append the comma-joined list of every language name.
fn push_language_list(out: &mut Vec<char>)
    ensures
        final(out)@ == old(out)@ + names_joined(language::all_spec()),
{
    let langs = Lang::all();
    let n = langs.len();
    let mut i: usize = 0;
    while i < n
        invariant
            i <= n,
            n == language::all_spec().len(),
            langs@ == language::all_spec(),
            out@ == old(out)@ + names_joined(language::all_spec().subrange(0, i as int)),
        decreases n - i,
    {
        if i > 0 {
            text::push_str_chars(out, ", ");
        }
        text::push_str_chars(out, langs[i].name());
        proof {
            let pre = language::all_spec().subrange(0, i as int);
            let post = language::all_spec().subrange(0, i + 1);
            assert(post.drop_last() =~= pre);
            assert(post.last() == language::all_spec()[i as int]);
            if i == 0 {
                assert(names_joined(post) == post[0].name_spec());
            }
        }
        i = i + 1;
    }
    proof {
        assert(language::all_spec().subrange(0, n as int) =~= language::all_spec());
    }
}

} // verus!
