//! The output formatter: renders extracted files as plain lines, compact
//! JSON, JSON lines, or pretty-printed JSON. Every format's text is specified
//! exactly, character by character.

use vstd::prelude::*;

use crate::engine;
use crate::extract::ExtractedFile;
use crate::extract::ExtractedMatch;
use crate::extract::FileModel;
use crate::extract::MatchModel;
use crate::text;
use crate::text::dec_spec;

verus! {

/// The deep view of a list of extracted files.
pub open spec fn files_deep(s: Seq<ExtractedFile>) -> Seq<FileModel> {
    s.map_values(|f: ExtractedFile| f@)
}

/// A file whose positions can be presented 1-indexed without overflow; every
/// file the extraction pipeline produces satisfies this, since the engine
/// bounds positions by the source length.
pub open spec fn renderable(f: FileModel) -> bool {
    forall|i: int|
        0 <= i < f.matches.len() ==> {
            &&& 0 <= (#[trigger] f.matches[i]).start_row < usize::MAX
            &&& 0 <= f.matches[i].start_col < usize::MAX
            &&& 0 <= f.matches[i].end_row < usize::MAX
            &&& 0 <= f.matches[i].end_col < usize::MAX
        }
}

pub open spec fn all_renderable(fs: Seq<FileModel>) -> bool {
    forall|i: int| 0 <= i < fs.len() ==> renderable(#[trigger] fs[i])
}

// ------------------------------------------------------------------
// The lines format.
// ------------------------------------------------------------------
/// The name a file is listed under; a file-less record is listed as the
/// original listed it.
pub open spec fn filename_spec(f: FileModel) -> Seq<char> {
    match f.file {
        Some(p) => p,
        None => "NO FILE"@,
    }
}

/// One line of the lines format: path, 1-indexed row and column, capture
/// name, matched text.
pub open spec fn line_of(fname: Seq<char>, m: MatchModel) -> Seq<char> {
    fname + ":"@ + dec_spec(m.start_row + 1) + ":"@ + dec_spec(m.start_col + 1) + ":"@ + m.name
        + ":"@ + m.text + "\n"@
}

/// The lines of one file's matches, in order.
pub open spec fn lines_of_matches(fname: Seq<char>, ms: Seq<MatchModel>) -> Seq<char>
    decreases ms.len(),
{
    if ms.len() == 0 {
        Seq::empty()
    } else {
        lines_of_matches(fname, ms.drop_last()) + line_of(fname, ms.last())
    }
}

pub open spec fn lines_of_file(f: FileModel) -> Seq<char> {
    lines_of_matches(filename_spec(f), f.matches)
}

/// The whole lines output: each file's lines, in order.
pub open spec fn lines_of(fs: Seq<FileModel>) -> Seq<char>
    decreases fs.len(),
{
    if fs.len() == 0 {
        Seq::empty()
    } else {
        lines_of(fs.drop_last()) + lines_of_file(fs.last())
    }
}

// ------------------------------------------------------------------
// JSON escaping.
// ------------------------------------------------------------------
/// The lower-case hexadecimal digit characters.
pub open spec fn hex_char(d: int) -> char {
    if d < 10 {
        text::digit_char(d)
    } else if d == 10 {
        'a'
    } else if d == 11 {
        'b'
    } else if d == 12 {
        'c'
    } else if d == 13 {
        'd'
    } else if d == 14 {
        'e'
    } else {
        'f'
    }
}

/// How one character appears inside a JSON string.
pub open spec fn esc_char(c: char) -> Seq<char> {
    if c == '"' {
        seq!['\\', '"']
    } else if c == '\\' {
        seq!['\\', '\\']
    } else if c == '\u{8}' {
        seq!['\\', 'b']
    } else if c == '\u{c}' {
        seq!['\\', 'f']
    } else if c == '\n' {
        seq!['\\', 'n']
    } else if c == '\r' {
        seq!['\\', 'r']
    } else if c == '\t' {
        seq!['\\', 't']
    } else if (c as u32) < 0x20 {
        seq!['\\', 'u', '0', '0', hex_char((c as u32) as int / 16), hex_char((c as u32) as int % 16)]
    } else {
        seq![c]
    }
}

/// A string's characters escaped for JSON.
pub open spec fn esc_str(s: Seq<char>) -> Seq<char>
    decreases s.len(),
{
    if s.len() == 0 {
        Seq::empty()
    } else {
        esc_str(s.drop_last()) + esc_char(s.last())
    }
}

/// A JSON string literal.
pub open spec fn jstr(s: Seq<char>) -> Seq<char> {
    "\""@ + esc_str(s) + "\""@
}

// ------------------------------------------------------------------
// Compact JSON.
// ------------------------------------------------------------------
/// A position serialized 1-indexed.
pub open spec fn json_of_point(row: int, col: int) -> Seq<char> {
    "{\"row\":"@ + dec_spec(row + 1) + ",\"column\":"@ + dec_spec(col + 1) + "}"@
}

pub open spec fn json_of_match(m: MatchModel) -> Seq<char> {
    "{\"kind\":"@ + jstr(m.kind) + ",\"name\":"@ + jstr(m.name) + ",\"text\":"@ + jstr(m.text)
        + ",\"start\":"@ + json_of_point(m.start_row, m.start_col) + ",\"end\":"@ + json_of_point(
        m.end_row,
        m.end_col,
    ) + "}"@
}

pub open spec fn json_match_join(ms: Seq<MatchModel>) -> Seq<char>
    decreases ms.len(),
{
    if ms.len() == 0 {
        Seq::empty()
    } else if ms.len() == 1 {
        json_of_match(ms[0])
    } else {
        json_match_join(ms.drop_last()) + ","@ + json_of_match(ms.last())
    }
}

pub open spec fn json_of_opt_file(file: Option<Seq<char>>) -> Seq<char> {
    match file {
        Some(p) => jstr(p),
        None => "null"@,
    }
}

pub open spec fn json_of_file(f: FileModel) -> Seq<char> {
    "{\"file\":"@ + json_of_opt_file(f.file) + ",\"file_type\":"@ + jstr(f.file_type)
        + ",\"matches\":["@ + json_match_join(f.matches) + "]}"@
}

pub open spec fn json_join(fs: Seq<FileModel>) -> Seq<char>
    decreases fs.len(),
{
    if fs.len() == 0 {
        Seq::empty()
    } else if fs.len() == 1 {
        json_of_file(fs[0])
    } else {
        json_join(fs.drop_last()) + ","@ + json_of_file(fs.last())
    }
}

/// The whole compact JSON output: one array of file records.
pub open spec fn json_of(fs: Seq<FileModel>) -> Seq<char> {
    "["@ + json_join(fs) + "]"@
}

/// The JSON-lines output: each file's compact record on its own line.
pub open spec fn json_lines_of(fs: Seq<FileModel>) -> Seq<char>
    decreases fs.len(),
{
    if fs.len() == 0 {
        Seq::empty()
    } else {
        json_lines_of(fs.drop_last()) + json_of_file(fs.last()) + "\n"@
    }
}

// ------------------------------------------------------------------
// Pretty JSON: two-space indentation, one value per line, a space after
// each key's colon; empty arrays stay on one line.
// ------------------------------------------------------------------
pub open spec fn pretty_of_point(indent: Seq<char>, row: int, col: int) -> Seq<char> {
    "{\n"@ + indent + "  \"row\": "@ + dec_spec(row + 1) + ",\n"@ + indent + "  \"column\": "@
        + dec_spec(col + 1) + "\n"@ + indent + "}"@
}

pub open spec fn pretty_of_match(m: MatchModel) -> Seq<char> {
    "{\n        \"kind\": "@ + jstr(m.kind) + ",\n        \"name\": "@ + jstr(m.name)
        + ",\n        \"text\": "@ + jstr(m.text) + ",\n        \"start\": "@ + pretty_of_point(
        "        "@,
        m.start_row,
        m.start_col,
    ) + ",\n        \"end\": "@ + pretty_of_point("        "@, m.end_row, m.end_col)
        + "\n      }"@
}

pub open spec fn pretty_match_join(ms: Seq<MatchModel>) -> Seq<char>
    decreases ms.len(),
{
    if ms.len() == 0 {
        Seq::empty()
    } else if ms.len() == 1 {
        "\n      "@ + pretty_of_match(ms[0])
    } else {
        pretty_match_join(ms.drop_last()) + ",\n      "@ + pretty_of_match(ms.last())
    }
}

pub open spec fn pretty_of_matches(ms: Seq<MatchModel>) -> Seq<char> {
    if ms.len() == 0 {
        "[]"@
    } else {
        "["@ + pretty_match_join(ms) + "\n    ]"@
    }
}

pub open spec fn pretty_of_file(f: FileModel) -> Seq<char> {
    "{\n    \"file\": "@ + json_of_opt_file(f.file) + ",\n    \"file_type\": "@ + jstr(f.file_type)
        + ",\n    \"matches\": "@ + pretty_of_matches(f.matches) + "\n  }"@
}

pub open spec fn pretty_join(fs: Seq<FileModel>) -> Seq<char>
    decreases fs.len(),
{
    if fs.len() == 0 {
        Seq::empty()
    } else if fs.len() == 1 {
        "\n  "@ + pretty_of_file(fs[0])
    } else {
        pretty_join(fs.drop_last()) + ",\n  "@ + pretty_of_file(fs.last())
    }
}

/// The whole pretty JSON output.
pub open spec fn pretty_json_of(fs: Seq<FileModel>) -> Seq<char> {
    if fs.len() == 0 {
        "[]"@
    } else {
        "["@ + pretty_join(fs) + "\n]"@
    }
}

// ------------------------------------------------------------------
// The executable renderers.
// ------------------------------------------------------------------
fn push_hex(out: &mut Vec<char>, d: usize)
    requires
        d < 16,
    ensures
        final(out)@ == old(out)@ + seq![hex_char(d as int)],
{
    if d < 10 {
        out.push(text::digit_char_exec(d));
    } else if d == 10 {
        out.push('a');
    } else if d == 11 {
        out.push('b');
    } else if d == 12 {
        out.push('c');
    } else if d == 13 {
        out.push('d');
    } else if d == 14 {
        out.push('e');
    } else {
        out.push('f');
    }
    proof {
        assert(final(out)@ =~= old(out)@ + seq![hex_char(d as int)]);
    }
}

/// Append one string, escaped for JSON.
fn push_escaped(out: &mut Vec<char>, s: &str)
    ensures
        final(out)@ == old(out)@ + esc_str(s@),
{
    let n = s.unicode_len();
    let mut i: usize = 0;
    while i < n
        invariant
            i <= n,
            n == s@.len(),
            out@ == old(out)@ + esc_str(s@.take(i as int)),
        decreases n - i,
    {
        let c = s.get_char(i);
        proof {
            assert(s@.take(i + 1).drop_last() =~= s@.take(i as int));
            assert(s@.take(i + 1).last() == s@[i as int]);
        }
        let ghost mid = out@;
        if c == '"' {
            out.push('\\');
            out.push('"');
        } else if c == '\\' {
            out.push('\\');
            out.push('\\');
        } else if c == '\u{8}' {
            out.push('\\');
            out.push('b');
        } else if c == '\u{c}' {
            out.push('\\');
            out.push('f');
        } else if c == '\n' {
            out.push('\\');
            out.push('n');
        } else if c == '\r' {
            out.push('\\');
            out.push('r');
        } else if c == '\t' {
            out.push('\\');
            out.push('t');
        } else if (c as u32) < 0x20 {
            let v = (c as u32) as usize;
            out.push('\\');
            out.push('u');
            out.push('0');
            out.push('0');
            push_hex(out, v / 16);
            push_hex(out, v % 16);
        } else {
            out.push(c);
        }
        proof {
            assert(out@ =~= mid + esc_char(s@[i as int]));
            assert(out@ =~= old(out)@ + esc_str(s@.take(i + 1)));
        }
        i = i + 1;
    }
    proof {
        assert(s@.take(n as int) =~= s@);
    }
}

/// Append a JSON string literal.
fn push_jstr(out: &mut Vec<char>, s: &String)
    ensures
        final(out)@ == old(out)@ + jstr(s@),
{
    text::push_str_chars(out, "\"");
    push_escaped(out, s.as_str());
    text::push_str_chars(out, "\"");
}

/// Append a position, 1-indexed, in compact JSON.
fn push_point(out: &mut Vec<char>, row: usize, col: usize)
    requires
        row < usize::MAX,
        col < usize::MAX,
    ensures
        final(out)@ == old(out)@ + json_of_point(row as int, col as int),
{
    text::push_str_chars(out, "{\"row\":");
    text::push_dec(out, row + 1);
    text::push_str_chars(out, ",\"column\":");
    text::push_dec(out, col + 1);
    text::push_str_chars(out, "}");
}

/// Append one match in compact JSON.
fn push_match(out: &mut Vec<char>, m: &ExtractedMatch)
    requires
        m.start.row < usize::MAX,
        m.start.column < usize::MAX,
        m.end.row < usize::MAX,
        m.end.column < usize::MAX,
    ensures
        final(out)@ == old(out)@ + json_of_match(m@),
{
    text::push_str_chars(out, "{\"kind\":");
    push_jstr(out, &m.kind);
    text::push_str_chars(out, ",\"name\":");
    push_jstr(out, &m.name);
    text::push_str_chars(out, ",\"text\":");
    push_jstr(out, &m.text);
    text::push_str_chars(out, ",\"start\":");
    push_point(out, m.start.row, m.start.column);
    text::push_str_chars(out, ",\"end\":");
    push_point(out, m.end.row, m.end.column);
    text::push_str_chars(out, "}");
}

/// Append one file record in compact JSON.
fn push_file(out: &mut Vec<char>, f: &ExtractedFile)
    requires
        renderable(f@),
    ensures
        final(out)@ == old(out)@ + json_of_file(f@),
{
    text::push_str_chars(out, "{\"file\":");
    match &f.file {
        Some(p) => push_jstr(out, p),
        None => text::push_str_chars(out, "null"),
    }
    text::push_str_chars(out, ",\"file_type\":");
    push_jstr(out, &f.file_type);
    text::push_str_chars(out, ",\"matches\":[");
    let n = f.matches.len();
    let ghost ms = f@.matches;
    let mut i: usize = 0;
    while i < n
        invariant
            i <= n,
            n == f.matches@.len(),
            ms == f@.matches,
            renderable(f@),
            out@ == old(out)@ + "{\"file\":"@ + json_of_opt_file(f@.file) + ",\"file_type\":"@
                + jstr(f@.file_type) + ",\"matches\":["@ + json_match_join(ms.take(i as int)),
        decreases n - i,
    {
        if i > 0 {
            text::push_str_chars(out, ",");
        }
        proof {
            assert(ms[i as int] == f.matches@[i as int]@);
            assert(ms.take(i + 1).drop_last() =~= ms.take(i as int));
            assert(ms.take(i + 1).last() == ms[i as int]);
            if i == 0 {
                assert(json_match_join(ms.take(1)) == json_of_match(ms.take(1)[0]));
            }
        }
        push_match(out, &f.matches[i]);
        i = i + 1;
    }
    proof {
        assert(ms.take(n as int) =~= ms);
    }
    text::push_str_chars(out, "]}");
    proof {
        assert(final(out)@ =~= old(out)@ + json_of_file(f@));
    }
}

/// Render the compact JSON array of all file records.
pub fn render_json(files: &Vec<ExtractedFile>) -> (r: String)
    requires
        all_renderable(files_deep(files@)),
    ensures
        r@ == json_of(files_deep(files@)),
{
    let ghost fs = files_deep(files@);
    let mut out: Vec<char> = Vec::new();
    text::push_str_chars(&mut out, "[");
    let n = files.len();
    let mut i: usize = 0;
    while i < n
        invariant
            i <= n,
            n == files@.len(),
            fs == files_deep(files@),
            all_renderable(fs),
            out@ == "["@ + json_join(fs.take(i as int)),
        decreases n - i,
    {
        if i > 0 {
            text::push_str_chars(&mut out, ",");
        }
        proof {
            assert(fs[i as int] == files@[i as int]@);
            assert(fs.take(i + 1).drop_last() =~= fs.take(i as int));
            assert(fs.take(i + 1).last() == fs[i as int]);
            if i == 0 {
                assert(json_join(fs.take(1)) == json_of_file(fs.take(1)[0]));
            }
        }
        push_file(&mut out, &files[i]);
        i = i + 1;
    }
    proof {
        assert(fs.take(n as int) =~= fs);
    }
    text::push_str_chars(&mut out, "]");
    engine::chars_to_string(&out)
}

/// Render each file record as one line of compact JSON.
pub fn render_json_lines(files: &Vec<ExtractedFile>) -> (r: String)
    requires
        all_renderable(files_deep(files@)),
    ensures
        r@ == json_lines_of(files_deep(files@)),
{
    let ghost fs = files_deep(files@);
    let mut out: Vec<char> = Vec::new();
    let n = files.len();
    let mut i: usize = 0;
    while i < n
        invariant
            i <= n,
            n == files@.len(),
            fs == files_deep(files@),
            all_renderable(fs),
            out@ == json_lines_of(fs.take(i as int)),
        decreases n - i,
    {
        proof {
            assert(fs[i as int] == files@[i as int]@);
            assert(fs.take(i + 1).drop_last() =~= fs.take(i as int));
            assert(fs.take(i + 1).last() == fs[i as int]);
        }
        push_file(&mut out, &files[i]);
        text::push_str_chars(&mut out, "\n");
        i = i + 1;
    }
    proof {
        assert(fs.take(n as int) =~= fs);
    }
    engine::chars_to_string(&out)
}

/// Append one line of the lines format.
fn push_line(out: &mut Vec<char>, fname: &str, m: &ExtractedMatch)
    requires
        m.start.row < usize::MAX,
        m.start.column < usize::MAX,
    ensures
        final(out)@ == old(out)@ + line_of(fname@, m@),
{
    text::push_str_chars(out, fname);
    text::push_str_chars(out, ":");
    text::push_dec(out, m.start.row + 1);
    text::push_str_chars(out, ":");
    text::push_dec(out, m.start.column + 1);
    text::push_str_chars(out, ":");
    text::push_string(out, &m.name);
    text::push_str_chars(out, ":");
    text::push_string(out, &m.text);
    text::push_str_chars(out, "\n");
}

/// Render the lines format: one line per match, grouped by file.
pub fn render_lines(files: &Vec<ExtractedFile>) -> (r: String)
    requires
        all_renderable(files_deep(files@)),
    ensures
        r@ == lines_of(files_deep(files@)),
{
    let ghost fs = files_deep(files@);
    let mut out: Vec<char> = Vec::new();
    let n = files.len();
    let mut i: usize = 0;
    while i < n
        invariant
            i <= n,
            n == files@.len(),
            fs == files_deep(files@),
            all_renderable(fs),
            out@ == lines_of(fs.take(i as int)),
        decreases n - i,
    {
        let f = &files[i];
        proof {
            assert(fs[i as int] == files@[i as int]@);
            assert(fs.take(i + 1).drop_last() =~= fs.take(i as int));
            assert(fs.take(i + 1).last() == fs[i as int]);
        }
        let fname: &str = match &f.file {
            Some(p) => p.as_str(),
            None => "NO FILE",
        };
        proof {
            assert(fname@ == filename_spec(fs[i as int]));
        }
        let m = f.matches.len();
        let ghost ms = f@.matches;
        let ghost base = out@;
        let mut j: usize = 0;
        while j < m
            invariant
                j <= m,
                m == f.matches@.len(),
                ms == f@.matches,
                renderable(f@),
                fname@ == filename_spec(f@),
                out@ == base + lines_of_matches(fname@, ms.take(j as int)),
            decreases m - j,
        {
            proof {
                assert(ms[j as int] == f.matches@[j as int]@);
                assert(ms.take(j + 1).drop_last() =~= ms.take(j as int));
                assert(ms.take(j + 1).last() == ms[j as int]);
            }
            push_line(&mut out, fname, &f.matches[j]);
            j = j + 1;
        }
        proof {
            assert(ms.take(m as int) =~= ms);
            assert(out@ == lines_of(fs.take(i + 1)));
        }
        i = i + 1;
    }
    proof {
        assert(fs.take(n as int) =~= fs);
    }
    engine::chars_to_string(&out)
}

/// Append a position, 1-indexed, in pretty JSON at the given indentation.
fn push_pretty_point(out: &mut Vec<char>, indent: &str, row: usize, col: usize)
    requires
        row < usize::MAX,
        col < usize::MAX,
    ensures
        final(out)@ == old(out)@ + pretty_of_point(indent@, row as int, col as int),
{
    text::push_str_chars(out, "{\n");
    text::push_str_chars(out, indent);
    text::push_str_chars(out, "  \"row\": ");
    text::push_dec(out, row + 1);
    text::push_str_chars(out, ",\n");
    text::push_str_chars(out, indent);
    text::push_str_chars(out, "  \"column\": ");
    text::push_dec(out, col + 1);
    text::push_str_chars(out, "\n");
    text::push_str_chars(out, indent);
    text::push_str_chars(out, "}");
}

/// Append one match in pretty JSON.
fn push_pretty_match(out: &mut Vec<char>, m: &ExtractedMatch)
    requires
        m.start.row < usize::MAX,
        m.start.column < usize::MAX,
        m.end.row < usize::MAX,
        m.end.column < usize::MAX,
    ensures
        final(out)@ == old(out)@ + pretty_of_match(m@),
{
    text::push_str_chars(out, "{\n        \"kind\": ");
    push_jstr(out, &m.kind);
    text::push_str_chars(out, ",\n        \"name\": ");
    push_jstr(out, &m.name);
    text::push_str_chars(out, ",\n        \"text\": ");
    push_jstr(out, &m.text);
    text::push_str_chars(out, ",\n        \"start\": ");
    push_pretty_point(out, "        ", m.start.row, m.start.column);
    text::push_str_chars(out, ",\n        \"end\": ");
    push_pretty_point(out, "        ", m.end.row, m.end.column);
    text::push_str_chars(out, "\n      }");
}

/// Append one file record in pretty JSON.
#[verifier::rlimit(60)]
fn push_pretty_file(out: &mut Vec<char>, f: &ExtractedFile)
    requires
        renderable(f@),
    ensures
        final(out)@ == old(out)@ + pretty_of_file(f@),
{
    text::push_str_chars(out, "{\n    \"file\": ");
    match &f.file {
        Some(p) => push_jstr(out, p),
        None => text::push_str_chars(out, "null"),
    }
    text::push_str_chars(out, ",\n    \"file_type\": ");
    push_jstr(out, &f.file_type);
    text::push_str_chars(out, ",\n    \"matches\": ");
    let n = f.matches.len();
    let ghost ms = f@.matches;
    if n == 0 {
        text::push_str_chars(out, "[]");
    } else {
        text::push_str_chars(out, "[");
        let ghost base = out@;
        let mut i: usize = 0;
        while i < n
            invariant
                i <= n,
                n == f.matches@.len(),
                ms == f@.matches,
                renderable(f@),
                out@ == base + pretty_match_join(ms.take(i as int)),
            decreases n - i,
        {
            if i > 0 {
                text::push_str_chars(out, ",\n      ");
            } else {
                text::push_str_chars(out, "\n      ");
            }
            proof {
                assert(ms[i as int] == f.matches@[i as int]@);
                assert(ms.take(i + 1).drop_last() =~= ms.take(i as int));
                assert(ms.take(i + 1).last() == ms[i as int]);
                if i == 0 {
                    assert(pretty_match_join(ms.take(1)) == "\n      "@ + pretty_of_match(
                        ms.take(1)[0],
                    ));
                }
            }
            push_pretty_match(out, &f.matches[i]);
            i = i + 1;
        }
        proof {
            assert(ms.take(n as int) =~= ms);
        }
        text::push_str_chars(out, "\n    ]");
    }
    text::push_str_chars(out, "\n  }");
    proof {
        assert(final(out)@ =~= old(out)@ + pretty_of_file(f@));
    }
}

/// Render the pretty JSON array of all file records.
pub fn render_pretty_json(files: &Vec<ExtractedFile>) -> (r: String)
    requires
        all_renderable(files_deep(files@)),
    ensures
        r@ == pretty_json_of(files_deep(files@)),
{
    let ghost fs = files_deep(files@);
    let mut out: Vec<char> = Vec::new();
    let n = files.len();
    if n == 0 {
        text::push_str_chars(&mut out, "[]");
        return engine::chars_to_string(&out);
    }
    text::push_str_chars(&mut out, "[");
    let mut i: usize = 0;
    while i < n
        invariant
            i <= n,
            n == files@.len(),
            fs == files_deep(files@),
            all_renderable(fs),
            out@ == "["@ + pretty_join(fs.take(i as int)),
        decreases n - i,
    {
        if i > 0 {
            text::push_str_chars(&mut out, ",\n  ");
        } else {
            text::push_str_chars(&mut out, "\n  ");
        }
        proof {
            assert(fs[i as int] == files@[i as int]@);
            assert(fs.take(i + 1).drop_last() =~= fs.take(i as int));
            assert(fs.take(i + 1).last() == fs[i as int]);
            if i == 0 {
                assert(pretty_join(fs.take(1)) == "\n  "@ + pretty_of_file(fs.take(1)[0]));
            }
        }
        push_pretty_file(&mut out, &files[i]);
        i = i + 1;
    }
    proof {
        assert(fs.take(n as int) =~= fs);
    }
    text::push_str_chars(&mut out, "\n]");
    engine::chars_to_string(&out)
}

// ------------------------------------------------------------------
// The formats are mutually derivable.
// ------------------------------------------------------------------
/// No newline appears in this character sequence.
pub open spec fn no_newline(s: Seq<char>) -> bool {
    forall|i: int| 0 <= i < s.len() ==> s[i] != '\n'
}

proof fn lemma_nn_dec(n: int)
    requires
        n >= 0,
    ensures
        no_newline(dec_spec(n)),
    decreases n,
{
    if n >= 10 {
        lemma_nn_dec(n / 10);
    }
}

proof fn lemma_nn_esc(s: Seq<char>)
    ensures
        no_newline(esc_str(s)),
    decreases s.len(),
{
    if s.len() > 0 {
        lemma_nn_esc(s.drop_last());
    }
}

proof fn lemma_nn_point(row: int, col: int)
    requires
        row >= 0,
        col >= 0,
    ensures
        no_newline(json_of_point(row, col)),
{
    reveal_strlit("{\"row\":");
    reveal_strlit(",\"column\":");
    reveal_strlit("}");
    lemma_nn_dec(row + 1);
    lemma_nn_dec(col + 1);
}

proof fn lemma_nn_match(m: MatchModel)
    requires
        m.start_row >= 0,
        m.start_col >= 0,
        m.end_row >= 0,
        m.end_col >= 0,
    ensures
        no_newline(json_of_match(m)),
{
    reveal_strlit("{\"kind\":");
    reveal_strlit(",\"name\":");
    reveal_strlit(",\"text\":");
    reveal_strlit(",\"start\":");
    reveal_strlit(",\"end\":");
    reveal_strlit("}");
    reveal_strlit("\"");
    lemma_nn_esc(m.kind);
    lemma_nn_esc(m.name);
    lemma_nn_esc(m.text);
    lemma_nn_point(m.start_row, m.start_col);
    lemma_nn_point(m.end_row, m.end_col);
}

proof fn lemma_nn_match_join(ms: Seq<MatchModel>)
    requires
        forall|i: int|
            0 <= i < ms.len() ==> (#[trigger] ms[i]).start_row >= 0 && ms[i].start_col >= 0
                && ms[i].end_row >= 0 && ms[i].end_col >= 0,
    ensures
        no_newline(json_match_join(ms)),
    decreases ms.len(),
{
    reveal_strlit(",");
    if ms.len() == 1 {
        lemma_nn_match(ms[0]);
    } else if ms.len() > 1 {
        lemma_nn_match_join(ms.drop_last());
        lemma_nn_match(ms.last());
    }
}

/// A file record's compact JSON holds no newline: everything a string could
/// contribute is escaped.
pub proof fn lemma_nn_file(f: FileModel)
    requires
        renderable(f),
    ensures
        no_newline(json_of_file(f)),
{
    reveal_strlit("{\"file\":");
    reveal_strlit(",\"file_type\":");
    reveal_strlit(",\"matches\":[");
    reveal_strlit("]}");
    reveal_strlit("null");
    reveal_strlit("\"");
    match f.file {
        Some(p) => lemma_nn_esc(p),
        None => {},
    }
    lemma_nn_esc(f.file_type);
    lemma_nn_match_join(f.matches);
}

/// The formats are mutually derivable from one match set: the compact JSON
/// output is exactly the file records joined with commas inside one array;
/// the JSON-lines output is exactly those same records, each followed by one
/// newline; and no record contains a newline, so reading the JSON-lines
/// output line by line recovers exactly the JSON array's elements.
pub proof fn lemma_json_lines_match_json_elements(fs: Seq<FileModel>)
    requires
        all_renderable(fs),
    ensures
        json_of(fs) == "["@ + json_join(fs) + "]"@,
        fs.len() > 0 ==> json_lines_of(fs) == json_lines_of(fs.drop_last()) + json_of_file(
            fs.last(),
        ) + "\n"@,
        forall|i: int| 0 <= i < fs.len() ==> no_newline(json_of_file(#[trigger] fs[i])),
{
    assert forall|i: int| 0 <= i < fs.len() implies no_newline(json_of_file(#[trigger] fs[i])) by {
        assert(renderable(fs[i]));
        lemma_nn_file(fs[i]);
    }
}

} // verus!
