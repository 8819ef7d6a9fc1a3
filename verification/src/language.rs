//! The registry of supported languages: a closed set of tags, each tied to a
//! grammar of the syntax-tree engine, a display name, and file extensions.

use vstd::prelude::*;

use crate::engine;
use crate::engine::CompiledQuery;
use crate::error::GrepError;

verus! {

/// One supported source language. The set is closed: every language the tool
/// can query is a variant here, compiled in with its grammar.
#[derive(PartialEq, Eq, Structural, Clone, Copy, Debug, Hash)]
pub enum Lang {
    C,
    Cpp,
    Elm,
    Go,
    JavaScript,
    Lua,
    Markdown,
    Python,
    Rust,
}

/// The languages in display order: what `Lang::all` returns.
pub open spec fn all_spec() -> Seq<Lang> {
    seq![
        Lang::C,
        Lang::Cpp,
        Lang::Elm,
        Lang::Go,
        Lang::JavaScript,
        Lang::Lua,
        Lang::Markdown,
        Lang::Python,
        Lang::Rust,
    ]
}

impl Lang {
    /// A distinct integer for each language, used to key the engine's
    /// uninterpreted result names.
    pub open spec fn tag(self) -> int {
        match self {
            Lang::C => 0,
            Lang::Cpp => 1,
            Lang::Elm => 2,
            Lang::Go => 3,
            Lang::JavaScript => 4,
            Lang::Lua => 5,
            Lang::Markdown => 6,
            Lang::Python => 7,
            Lang::Rust => 8,
        }
    }

    /// The display name of each language; also exactly what `from_str` accepts.
    pub open spec fn name_spec(self) -> Seq<char> {
        match self {
            Lang::C => "c"@,
            Lang::Cpp => "cpp"@,
            Lang::Elm => "elm"@,
            Lang::Go => "go"@,
            Lang::JavaScript => "js"@,
            Lang::Lua => "lua"@,
            Lang::Markdown => "md"@,
            Lang::Python => "py"@,
            Lang::Rust => "rust"@,
        }
    }

    /// The user-facing name of this language.
    pub fn name(&self) -> (r: &'static str)
        ensures
            r@ == self.name_spec(),
    {
        match self {
            Lang::C => "c",
            Lang::Cpp => "cpp",
            Lang::Elm => "elm",
            Lang::Go => "go",
            Lang::JavaScript => "js",
            Lang::Lua => "lua",
            Lang::Markdown => "md",
            Lang::Python => "py",
            Lang::Rust => "rust",
        }
    }

    /// Every supported language, in display order.
    pub fn all() -> (r: Vec<Lang>)
        ensures
            r@ == all_spec(),
    {
        let mut v: Vec<Lang> = Vec::new();
        v.push(Lang::C);
        v.push(Lang::Cpp);
        v.push(Lang::Elm);
        v.push(Lang::Go);
        v.push(Lang::JavaScript);
        v.push(Lang::Lua);
        v.push(Lang::Markdown);
        v.push(Lang::Python);
        v.push(Lang::Rust);
        proof {
            assert(v@ =~= all_spec());
        }
        v
    }

    /// The grammar handle the engine uses for this language.
    pub fn grammar(&self) -> tree_sitter::Language {
        match self {
            Lang::C => engine::grammar_c(),
            Lang::Cpp => engine::grammar_cpp(),
            Lang::Elm => engine::grammar_elm(),
            Lang::Go => engine::grammar_go(),
            Lang::JavaScript => engine::grammar_javascript(),
            Lang::Lua => engine::grammar_lua(),
            Lang::Markdown => engine::grammar_markdown(),
            Lang::Python => engine::grammar_python(),
            Lang::Rust => engine::grammar_rust(),
        }
    }

    /// Compile one query text against this language's grammar.
    pub fn parse_query(&self, raw: &str) -> (r: Result<CompiledQuery, GrepError>)
        ensures
            r.is_ok() == engine::ts_query_ok(self.tag(), raw@),
            r matches Ok(q) ==> q.wf() && q.lang_spec() == *self && q.text_spec() == raw@,
            r matches Err(e) ==> (e matches GrepError::QueryParse { message }
                && message@ == engine::ts_query_err(self.tag(), raw@)),
    {
        match engine::compile_query(self, raw) {
            Ok(q) => Ok(q),
            Err(pe) => Err(GrepError::QueryParse { message: pe.message }),
        }
    }
}

/// Which language a name resolves to: exactly the display names resolve,
/// and each to its own language.
pub open spec fn resolve_spec(s: Seq<char>) -> Option<Lang> {
    if s == Lang::C.name_spec() {
        Some(Lang::C)
    } else if s == Lang::Cpp.name_spec() {
        Some(Lang::Cpp)
    } else if s == Lang::Elm.name_spec() {
        Some(Lang::Elm)
    } else if s == Lang::Go.name_spec() {
        Some(Lang::Go)
    } else if s == Lang::JavaScript.name_spec() {
        Some(Lang::JavaScript)
    } else if s == Lang::Lua.name_spec() {
        Some(Lang::Lua)
    } else if s == Lang::Markdown.name_spec() {
        Some(Lang::Markdown)
    } else if s == Lang::Python.name_spec() {
        Some(Lang::Python)
    } else if s == Lang::Rust.name_spec() {
        Some(Lang::Rust)
    } else {
        None
    }
}

/// Compare two string slices by their character sequences.
pub fn str_eq(a: &str, b: &str) -> (r: bool)
    ensures
        r == (a@ == b@),
{
    let la = a.unicode_len();
    let lb = b.unicode_len();
    if la != lb {
        proof {
            assert(a@ != b@);
        }
        return false;
    }
    let mut i: usize = 0;
    while i < la
        invariant
            i <= la,
            la == a@.len(),
            la == b@.len(),
            forall|k: int| 0 <= k < i ==> a@[k] == b@[k],
        decreases la - i,
    {
        if a.get_char(i) != b.get_char(i) {
            proof {
                assert(a@[i as int] != b@[i as int]);
            }
            return false;
        }
        i = i + 1;
    }
    proof {
        assert(a@ =~= b@);
    }
    true
}

impl Lang {
    /// Resolve a language name; an unknown name is rejected with an error
    /// that lists every valid name.
    pub fn from_str(s: &str) -> (r: Result<Lang, GrepError>)
        ensures
            resolve_spec(s@) matches Some(l) ==> r == Ok::<Lang, GrepError>(l),
            resolve_spec(s@) is None ==> (r matches Err(e) && e matches GrepError::UnknownLanguage {
                name,
            } && name@ == s@),
    {
        if str_eq(s, "c") {
            Ok(Lang::C)
        } else if str_eq(s, "cpp") {
            Ok(Lang::Cpp)
        } else if str_eq(s, "elm") {
            Ok(Lang::Elm)
        } else if str_eq(s, "go") {
            Ok(Lang::Go)
        } else if str_eq(s, "js") {
            Ok(Lang::JavaScript)
        } else if str_eq(s, "lua") {
            Ok(Lang::Lua)
        } else if str_eq(s, "md") {
            Ok(Lang::Markdown)
        } else if str_eq(s, "py") {
            Ok(Lang::Python)
        } else if str_eq(s, "rust") {
            Ok(Lang::Rust)
        } else {
            Err(GrepError::UnknownLanguage { name: s.to_owned() })
        }
    }
}

/// Round trip: every supported language's display name resolves back to it.
pub proof fn lemma_name_round_trip(l: Lang)
    ensures
        resolve_spec(l.name_spec()) == Some(l),
{
    reveal_strlit("c");
    reveal_strlit("cpp");
    reveal_strlit("elm");
    reveal_strlit("go");
    reveal_strlit("js");
    reveal_strlit("lua");
    reveal_strlit("md");
    reveal_strlit("py");
    reveal_strlit("rust");
    assert("c"@.len() == 1);
    assert("cpp"@.len() == 3);
    assert("elm"@.len() == 3);
    assert("go"@.len() == 2);
    assert("js"@.len() == 2);
    assert("lua"@.len() == 3);
    assert("md"@.len() == 2);
    assert("py"@.len() == 2);
    assert("rust"@.len() == 4);
    assert("cpp"@[0] == 'c' && "cpp"@[1] == 'p');
    assert("elm"@[0] == 'e');
    assert("go"@[0] == 'g');
    assert("js"@[0] == 'j');
    assert("lua"@[0] == 'l');
    assert("md"@[0] == 'm');
    assert("py"@[0] == 'p');
    match l {
        Lang::C => assert(resolve_spec(l.name_spec()) == Some(Lang::C)),
        Lang::Cpp => assert(resolve_spec(l.name_spec()) == Some(Lang::Cpp)),
        Lang::Elm => assert(resolve_spec(l.name_spec()) == Some(Lang::Elm)),
        Lang::Go => assert(resolve_spec(l.name_spec()) == Some(Lang::Go)),
        Lang::JavaScript => assert(resolve_spec(l.name_spec()) == Some(Lang::JavaScript)),
        Lang::Lua => assert(resolve_spec(l.name_spec()) == Some(Lang::Lua)),
        Lang::Markdown => assert(resolve_spec(l.name_spec()) == Some(Lang::Markdown)),
        Lang::Python => assert(resolve_spec(l.name_spec()) == Some(Lang::Python)),
        Lang::Rust => assert(resolve_spec(l.name_spec()) == Some(Lang::Rust)),
    }
}

} // verus!
