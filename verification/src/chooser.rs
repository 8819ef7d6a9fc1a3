//! The extractor chooser: picks which extractor, if any, applies to a file,
//! purely by the file's extension. The first-registered extractor wins when
//! two claim the same extension; files without a recognised extension are
//! skipped without error.

use vstd::prelude::*;

use crate::extract::Extractor;
use crate::language::Lang;
use crate::language::str_eq;

verus! {

/// The extensions each language claims.
pub open spec fn exts_spec(l: Lang) -> Seq<Seq<char>> {
    match l {
        Lang::C => seq!["c"@, "h"@],
        Lang::Cpp => seq!["cc"@, "cpp"@, "cxx"@, "hh"@, "hpp"@, "hxx"@],
        Lang::Elm => seq!["elm"@],
        Lang::Go => seq!["go"@],
        Lang::JavaScript => seq!["js"@, "mjs"@, "cjs"@],
        Lang::Lua => seq!["lua"@],
        Lang::Markdown => seq!["md"@, "markdown"@],
        Lang::Python => seq!["py"@],
        Lang::Rust => seq!["rs"@],
    }
}

impl Lang {
    /// The file extensions this language's extractor applies to.
    pub fn extensions(&self) -> (r: Vec<&'static str>)
        ensures
            r@.map_values(|s: &'static str| s@) == exts_spec(*self),
    {
        let mut v: Vec<&'static str> = Vec::new();
        match self {
            Lang::C => {
                v.push("c");
                v.push("h");
            },
            Lang::Cpp => {
                v.push("cc");
                v.push("cpp");
                v.push("cxx");
                v.push("hh");
                v.push("hpp");
                v.push("hxx");
            },
            Lang::Elm => {
                v.push("elm");
            },
            Lang::Go => {
                v.push("go");
            },
            Lang::JavaScript => {
                v.push("js");
                v.push("mjs");
                v.push("cjs");
            },
            Lang::Lua => {
                v.push("lua");
            },
            Lang::Markdown => {
                v.push("md");
                v.push("markdown");
            },
            Lang::Python => {
                v.push("py");
            },
            Lang::Rust => {
                v.push("rs");
            },
        }
        proof {
            assert(v@.map_values(|s: &'static str| s@) =~= exts_spec(*self));
        }
        v
    }
}

/// The last index where this character occurs, or -1.
pub open spec fn rfind(p: Seq<char>, c: char) -> int
    decreases p.len(),
{
    if p.len() == 0 {
        -1
    } else if p.last() == c {
        p.len() - 1
    } else {
        rfind(p.drop_last(), c)
    }
}

proof fn lemma_rfind_props(p: Seq<char>, c: char)
    ensures
        -1 <= rfind(p, c) < p.len(),
        rfind(p, c) >= 0 ==> p[rfind(p, c)] == c,
    decreases p.len(),
{
    if p.len() > 0 && p.last() != c {
        lemma_rfind_props(p.drop_last(), c);
    }
}

/// The extension a file is chosen by: the part of its name after the last
/// dot, where that dot sits inside the name, after any directory separator
/// and not as the name's first character.
pub open spec fn ext_of(p: Seq<char>) -> Option<Seq<char>> {
    let dot = rfind(p, '.');
    let slash = rfind(p, '/');
    if dot > slash + 1 && dot < p.len() - 1 {
        Some(p.subrange(dot + 1, p.len() as int))
    } else {
        None
    }
}

/// Compute the chooser's extension of a path.
pub fn ext_exec(p: &str) -> (r: Option<String>)
    ensures
        (r matches Some(e) ==> ext_of(p@) matches Some(es) && e@ == es),
        r is None <==> ext_of(p@) is None,
{
    let n = p.unicode_len();
    let dot = rfind_exec(p, '.');
    let slash = rfind_exec(p, '/');
    proof {
        lemma_rfind_props(p@, '.');
        lemma_rfind_props(p@, '/');
    }
    let matched: bool = match (dot, slash) {
        (Some(d), Some(s)) => d > s + 1 && d < n - 1,
        (Some(d), None) => d > 0 && d < n - 1,
        (None, _) => false,
    };
    if matched {
        let d = dot.unwrap();
        let mut out: Vec<char> = Vec::new();
        let mut i: usize = d + 1;
        while i < n
            invariant
                d + 1 <= i <= n,
                n == p@.len(),
                out@ == p@.subrange(d + 1, i as int),
            decreases n - i,
        {
            out.push(p.get_char(i));
            proof {
                assert(p@.subrange(d + 1, i as int).push(p@[i as int]) =~= p@.subrange(
                    d + 1,
                    i + 1,
                ));
            }
            i = i + 1;
        }
        Some(crate::engine::chars_to_string(&out))
    } else {
        None
    }
}

/// The last index where this character occurs in the string, if any.
fn rfind_exec(p: &str, c: char) -> (r: Option<usize>)
    ensures
        (r matches Some(i) ==> rfind(p@, c) == i as int),
        r is None <==> rfind(p@, c) == -1,
{
    let n = p.unicode_len();
    proof {
        assert(p@.take(n as int) =~= p@);
    }
    let mut i: usize = n;
    while i > 0
        invariant
            i <= n,
            n == p@.len(),
            rfind(p@, c) == rfind(p@.take(i as int), c),
        decreases i,
    {
        proof {
            assert(p@.take(i as int).last() == p@[i - 1]);
            assert(p@.take(i as int).drop_last() =~= p@.take(i - 1));
        }
        if p.get_char(i - 1) == c {
            return Some(i - 1);
        }
        i = i - 1;
    }
    proof {
        assert(p@.take(0) =~= Seq::<char>::empty());
    }
    None
}

/// Whether a language claims the extension of this path.
pub open spec fn lang_claims(l: Lang, path: Seq<char>) -> bool {
    match ext_of(path) {
        Some(e) => exts_spec(l).contains(e),
        None => false,
    }
}

/// The first extractor whose language claims the path's extension.
pub open spec fn choose_spec(langs: Seq<Lang>, path: Seq<char>) -> Option<int>
    decreases langs.len(),
{
    if langs.len() == 0 {
        None
    } else if lang_claims(langs[0], path) {
        Some(0int)
    } else {
        match choose_spec(langs.drop_first(), path) {
            Some(i) => Some(i + 1),
            None => None,
        }
    }
}

pub proof fn lemma_choose_at(langs: Seq<Lang>, path: Seq<char>, k: int)
    requires
        0 <= k < langs.len(),
        lang_claims(langs[k], path),
        forall|j: int| 0 <= j < k ==> !lang_claims(langs[j], path),
    ensures
        choose_spec(langs, path) == Some(k),
    decreases langs.len(),
{
    if k > 0 {
        assert(forall|i: int|
            0 <= i < langs.drop_first().len() ==> #[trigger] langs.drop_first()[i] == langs[i + 1]);
        lemma_choose_at(langs.drop_first(), path, k - 1);
    }
}

pub proof fn lemma_choose_none(langs: Seq<Lang>, path: Seq<char>)
    requires
        forall|j: int| 0 <= j < langs.len() ==> !lang_claims(#[trigger] langs[j], path),
    ensures
        choose_spec(langs, path) is None,
    decreases langs.len(),
{
    if langs.len() > 0 {
        assert(forall|i: int|
            0 <= i < langs.drop_first().len() ==> #[trigger] langs.drop_first()[i] == langs[i + 1]);
        lemma_choose_none(langs.drop_first(), path);
    }
}

/// Chooses an extractor for each directory entry, by extension alone.
pub struct ExtractorChooser {
    langs: Vec<Lang>,
}

impl ExtractorChooser {
    /// The languages of the extractors this chooser was built from, in
    /// registration order.
    pub closed spec fn langs_spec(&self) -> Seq<Lang> {
        self.langs@
    }

    /// Index the active extractors by their languages' extensions.
    pub fn from_extractors(extractors: &Vec<Extractor>) -> (r: ExtractorChooser)
        ensures
            r.langs_spec() == extractors@.map_values(|e: Extractor| e.lang_spec()),
    {
        let mut langs: Vec<Lang> = Vec::new();
        let n = extractors.len();
        let mut i: usize = 0;
        while i < n
            invariant
                i <= n,
                n == extractors@.len(),
                langs@ =~= extractors@.map_values(|e: Extractor| e.lang_spec()).take(i as int),
            decreases n - i,
        {
            langs.push(*extractors[i].language());
            proof {
                let m = extractors@.map_values(|e: Extractor| e.lang_spec());
                assert(m.take(i as int).push(m[i as int]) =~= m.take(i + 1));
            }
            i = i + 1;
        }
        proof {
            let m = extractors@.map_values(|e: Extractor| e.lang_spec());
            assert(m.take(n as int) =~= m);
        }
        ExtractorChooser { langs }
    }

    /// Which extractor applies to this path: the first whose language claims
    /// the path's extension, none when no extension or no claim matches.
    pub fn extractor_for(&self, path: &String) -> (r: Option<usize>)
        ensures
            (r matches Some(i) ==> choose_spec(self.langs_spec(), path@) == Some(i as int) && (
            i as int) < self.langs_spec().len()),
            r is None <==> choose_spec(self.langs_spec(), path@) is None,
    {
        let ext = match ext_exec(path.as_str()) {
            Some(e) => e,
            None => {
                proof {
                    assert(forall|j: int|
                        0 <= j < self.langs_spec().len() ==> !lang_claims(
                            #[trigger] self.langs_spec()[j],
                            path@,
                        ));
                    lemma_choose_none(self.langs_spec(), path@);
                }
                return None;
            },
        };
        let n = self.langs.len();
        let mut i: usize = 0;
        while i < n
            invariant
                i <= n,
                n == self.langs_spec().len(),
                ext_of(path@) matches Some(es) && ext@ == es,
                forall|j: int| 0 <= j < i ==> !lang_claims(#[trigger] self.langs_spec()[j], path@),
            decreases n - i,
        {
            if ext_in(&ext, &self.langs[i]) {
                proof {
                    lemma_choose_at(self.langs_spec(), path@, i as int);
                }
                return Some(i);
            }
            i = i + 1;
        }
        proof {
            lemma_choose_none(self.langs_spec(), path@);
        }
        None
    }
}

/// Whether a language's extension list holds this extension.
fn ext_in(ext: &String, l: &Lang) -> (r: bool)
    ensures
        r == exts_spec(*l).contains(ext@),
{
    let exts = l.extensions();
    let n = exts.len();
    let ghost es = exts@.map_values(|s: &'static str| s@);
    let mut i: usize = 0;
    while i < n
        invariant
            i <= n,
            n == es.len(),
            es == exts_spec(*l),
            es == exts@.map_values(|s: &'static str| s@),
            forall|j: int| 0 <= j < i ==> #[trigger] es[j] != ext@,
        decreases n - i,
    {
        if str_eq(ext.as_str(), exts[i]) {
            proof {
                assert(es[i as int] == ext@);
            }
            return true;
        }
        proof {
            assert(es[i as int] == exts@[i as int]@);
        }
        i = i + 1;
    }
    proof {
        if es.contains(ext@) {
            let w = choose|w: int| 0 <= w < es.len() && es[w] == ext@;
            assert(es[w] != ext@);
        }
    }
    false
}

} // verus!
