//! The opt-in stable sort over extracted files, by each record's natural
//! total order: file path, then file type, then the match fields in order.

use vstd::prelude::*;

use crate::extract::ExtractedFile;
use crate::extract::ExtractedMatch;
use crate::extract::FileModel;
use crate::extract::MatchModel;
use crate::render::files_deep;

verus! {

/// Three-way comparison of integers.
pub open spec fn cmp2(x: int, y: int) -> int {
    if x < y {
        -1
    } else if x > y {
        1
    } else {
        0
    }
}

/// Three-way lexicographic comparison of character sequences, by scalar
/// value; a proper prefix orders first.
pub open spec fn cmp_chars(a: Seq<char>, b: Seq<char>) -> int
    decreases a.len(),
{
    if a.len() == 0 && b.len() == 0 {
        0
    } else if a.len() == 0 {
        -1
    } else if b.len() == 0 {
        1
    } else if (a[0] as u32) < (b[0] as u32) {
        -1
    } else if (a[0] as u32) > (b[0] as u32) {
        1
    } else {
        cmp_chars(a.drop_first(), b.drop_first())
    }
}

/// An absent path orders before any present path.
pub open spec fn cmp_opt(a: Option<Seq<char>>, b: Option<Seq<char>>) -> int {
    match (a, b) {
        (None, None) => 0,
        (None, Some(_)) => -1,
        (Some(_), None) => 1,
        (Some(x), Some(y)) => cmp_chars(x, y),
    }
}

/// Three-way comparison of matches: kind, name, text, then positions.
pub open spec fn cmp_match(a: MatchModel, b: MatchModel) -> int {
    if cmp_chars(a.kind, b.kind) != 0 {
        cmp_chars(a.kind, b.kind)
    } else if cmp_chars(a.name, b.name) != 0 {
        cmp_chars(a.name, b.name)
    } else if cmp_chars(a.text, b.text) != 0 {
        cmp_chars(a.text, b.text)
    } else if cmp2(a.start_row, b.start_row) != 0 {
        cmp2(a.start_row, b.start_row)
    } else if cmp2(a.start_col, b.start_col) != 0 {
        cmp2(a.start_col, b.start_col)
    } else if cmp2(a.end_row, b.end_row) != 0 {
        cmp2(a.end_row, b.end_row)
    } else {
        cmp2(a.end_col, b.end_col)
    }
}

/// Three-way lexicographic comparison of match lists.
pub open spec fn cmp_matches(a: Seq<MatchModel>, b: Seq<MatchModel>) -> int
    decreases a.len(),
{
    if a.len() == 0 && b.len() == 0 {
        0
    } else if a.len() == 0 {
        -1
    } else if b.len() == 0 {
        1
    } else if cmp_match(a[0], b[0]) != 0 {
        cmp_match(a[0], b[0])
    } else {
        cmp_matches(a.drop_first(), b.drop_first())
    }
}

/// The natural total order of file records: path, then file type, then the
/// matches.
pub open spec fn cmp_file(a: FileModel, b: FileModel) -> int {
    if cmp_opt(a.file, b.file) != 0 {
        cmp_opt(a.file, b.file)
    } else if cmp_chars(a.file_type, b.file_type) != 0 {
        cmp_chars(a.file_type, b.file_type)
    } else {
        cmp_matches(a.matches, b.matches)
    }
}

proof fn lemma_cmp_chars_props(a: Seq<char>, b: Seq<char>, c: Seq<char>)
    ensures
        cmp_chars(a, b) == -cmp_chars(b, a),
        cmp_chars(a, a) == 0,
        cmp_chars(a, b) <= 0 && cmp_chars(b, c) <= 0 ==> cmp_chars(a, c) <= 0,
        cmp_chars(a, b) <= 0 && cmp_chars(b, c) <= 0 && (cmp_chars(a, b) < 0 || cmp_chars(b, c)
            < 0) ==> cmp_chars(a, c) < 0,
        cmp_chars(a, b) == 0 && cmp_chars(b, c) == 0 ==> cmp_chars(a, c) == 0,
    decreases a.len() + b.len() + c.len(),
{
    if a.len() > 0 || b.len() > 0 || c.len() > 0 {
        let a1 = if a.len() > 0 {
            a.drop_first()
        } else {
            a
        };
        let b1 = if b.len() > 0 {
            b.drop_first()
        } else {
            b
        };
        let c1 = if c.len() > 0 {
            c.drop_first()
        } else {
            c
        };
        lemma_cmp_chars_props(a1, b1, c1);
    }
}

proof fn lemma_cmp_match_props(a: MatchModel, b: MatchModel, c: MatchModel)
    ensures
        cmp_match(a, b) == -cmp_match(b, a),
        cmp_match(a, a) == 0,
        cmp_match(a, b) <= 0 && cmp_match(b, c) <= 0 ==> cmp_match(a, c) <= 0,
        cmp_match(a, b) <= 0 && cmp_match(b, c) <= 0 && (cmp_match(a, b) < 0 || cmp_match(b, c)
            < 0) ==> cmp_match(a, c) < 0,
        cmp_match(a, b) == 0 && cmp_match(b, c) == 0 ==> cmp_match(a, c) == 0,
{
    lemma_cmp_chars_props(a.kind, b.kind, c.kind);
    lemma_cmp_chars_props(a.name, b.name, c.name);
    lemma_cmp_chars_props(a.text, b.text, c.text);
    lemma_cmp_chars_props(a.kind, a.kind, a.kind);
    lemma_cmp_chars_props(a.name, a.name, a.name);
    lemma_cmp_chars_props(a.text, a.text, a.text);
}

proof fn lemma_cmp_matches_props(a: Seq<MatchModel>, b: Seq<MatchModel>, c: Seq<MatchModel>)
    ensures
        cmp_matches(a, b) == -cmp_matches(b, a),
        cmp_matches(a, a) == 0,
        cmp_matches(a, b) <= 0 && cmp_matches(b, c) <= 0 ==> cmp_matches(a, c) <= 0,
        cmp_matches(a, b) <= 0 && cmp_matches(b, c) <= 0 && (cmp_matches(a, b) < 0 || cmp_matches(
            b,
            c,
        ) < 0) ==> cmp_matches(a, c) < 0,
        cmp_matches(a, b) == 0 && cmp_matches(b, c) == 0 ==> cmp_matches(a, c) == 0,
    decreases a.len() + b.len() + c.len(),
{
    if a.len() > 0 || b.len() > 0 || c.len() > 0 {
        let a1 = if a.len() > 0 {
            a.drop_first()
        } else {
            a
        };
        let b1 = if b.len() > 0 {
            b.drop_first()
        } else {
            b
        };
        let c1 = if c.len() > 0 {
            c.drop_first()
        } else {
            c
        };
        lemma_cmp_matches_props(a1, b1, c1);
        if a.len() > 0 && b.len() > 0 && c.len() > 0 {
            lemma_cmp_match_props(a[0], b[0], c[0]);
        } else if a.len() > 0 && b.len() > 0 {
            lemma_cmp_match_props(a[0], b[0], b[0]);
        } else if b.len() > 0 && c.len() > 0 {
            lemma_cmp_match_props(b[0], c[0], c[0]);
        } else if a.len() > 0 && c.len() > 0 {
            lemma_cmp_match_props(a[0], c[0], c[0]);
        } else if a.len() > 0 {
            lemma_cmp_match_props(a[0], a[0], a[0]);
        }
    }
}

proof fn lemma_cmp_opt_props(a: Option<Seq<char>>, b: Option<Seq<char>>, c: Option<Seq<char>>)
    ensures
        cmp_opt(a, b) == -cmp_opt(b, a),
        cmp_opt(a, a) == 0,
        cmp_opt(a, b) <= 0 && cmp_opt(b, c) <= 0 ==> cmp_opt(a, c) <= 0,
        cmp_opt(a, b) <= 0 && cmp_opt(b, c) <= 0 && (cmp_opt(a, b) < 0 || cmp_opt(b, c) < 0)
            ==> cmp_opt(a, c) < 0,
        cmp_opt(a, b) == 0 && cmp_opt(b, c) == 0 ==> cmp_opt(a, c) == 0,
{
    let ax = match a {
        Some(x) => x,
        None => Seq::empty(),
    };
    let bx = match b {
        Some(x) => x,
        None => Seq::empty(),
    };
    let cx = match c {
        Some(x) => x,
        None => Seq::empty(),
    };
    lemma_cmp_chars_props(ax, bx, cx);
}

/// The properties that make `cmp_file` a total order.
pub proof fn lemma_cmp_file_props(a: FileModel, b: FileModel, c: FileModel)
    ensures
        cmp_file(a, b) == -cmp_file(b, a),
        cmp_file(a, a) == 0,
        cmp_file(a, b) <= 0 && cmp_file(b, c) <= 0 ==> cmp_file(a, c) <= 0,
        cmp_file(a, b) <= 0 && cmp_file(b, c) <= 0 && (cmp_file(a, b) < 0 || cmp_file(b, c) < 0)
            ==> cmp_file(a, c) < 0,
        cmp_file(a, b) == 0 && cmp_file(b, c) == 0 ==> cmp_file(a, c) == 0,
{
    lemma_cmp_opt_props(a.file, b.file, c.file);
    lemma_cmp_chars_props(a.file_type, b.file_type, c.file_type);
    lemma_cmp_matches_props(a.matches, b.matches, c.matches);
    lemma_cmp_opt_props(a.file, a.file, a.file);
    lemma_cmp_chars_props(a.file_type, a.file_type, a.file_type);
    lemma_cmp_matches_props(a.matches, a.matches, a.matches);
}

// ------------------------------------------------------------------
// Executable comparators.
// ------------------------------------------------------------------
fn cmp_str_exec(a: &str, b: &str) -> (r: i8)
    ensures
        r as int == cmp_chars(a@, b@),
{
    let la = a.unicode_len();
    let lb = b.unicode_len();
    proof {
        assert(a@.skip(0) =~= a@);
        assert(b@.skip(0) =~= b@);
    }
    let mut i: usize = 0;
    while i < la && i < lb
        invariant
            i <= la,
            i <= lb,
            la == a@.len(),
            lb == b@.len(),
            cmp_chars(a@, b@) == cmp_chars(a@.skip(i as int), b@.skip(i as int)),
        decreases la - i,
    {
        let ca = a.get_char(i) as u32;
        let cb = b.get_char(i) as u32;
        proof {
            assert(a@.skip(i as int)[0] == a@[i as int]);
            assert(b@.skip(i as int)[0] == b@[i as int]);
            assert(a@.skip(i as int).drop_first() =~= a@.skip(i + 1));
            assert(b@.skip(i as int).drop_first() =~= b@.skip(i + 1));
        }
        if ca < cb {
            return -1;
        }
        if ca > cb {
            return 1;
        }
        i = i + 1;
    }
    proof {
        if i == la {
            assert(a@.skip(i as int) =~= Seq::<char>::empty());
        }
        if i == lb {
            assert(b@.skip(i as int) =~= Seq::<char>::empty());
        }
    }
    if la == lb {
        0
    } else if la < lb {
        -1
    } else {
        1
    }
}

fn cmp_usize_exec(x: usize, y: usize) -> (r: i8)
    ensures
        r as int == cmp2(x as int, y as int),
{
    if x < y {
        -1
    } else if x > y {
        1
    } else {
        0
    }
}

fn cmp_match_exec(a: &ExtractedMatch, b: &ExtractedMatch) -> (r: i8)
    ensures
        r as int == cmp_match(a@, b@),
{
    let c = cmp_str_exec(a.kind.as_str(), b.kind.as_str());
    if c != 0 {
        return c;
    }
    let c = cmp_str_exec(a.name.as_str(), b.name.as_str());
    if c != 0 {
        return c;
    }
    let c = cmp_str_exec(a.text.as_str(), b.text.as_str());
    if c != 0 {
        return c;
    }
    let c = cmp_usize_exec(a.start.row, b.start.row);
    if c != 0 {
        return c;
    }
    let c = cmp_usize_exec(a.start.column, b.start.column);
    if c != 0 {
        return c;
    }
    let c = cmp_usize_exec(a.end.row, b.end.row);
    if c != 0 {
        return c;
    }
    cmp_usize_exec(a.end.column, b.end.column)
}

fn cmp_matches_exec(a: &Vec<ExtractedMatch>, b: &Vec<ExtractedMatch>) -> (r: i8)
    ensures
        r as int == cmp_matches(
            a@.map_values(|m: ExtractedMatch| m@),
            b@.map_values(|m: ExtractedMatch| m@),
        ),
{
    let ghost da = a@.map_values(|m: ExtractedMatch| m@);
    let ghost db = b@.map_values(|m: ExtractedMatch| m@);
    let la = a.len();
    let lb = b.len();
    proof {
        assert(da.skip(0) =~= da);
        assert(db.skip(0) =~= db);
    }
    let mut i: usize = 0;
    while i < la && i < lb
        invariant
            i <= la,
            i <= lb,
            la == da.len(),
            lb == db.len(),
            da == a@.map_values(|m: ExtractedMatch| m@),
            db == b@.map_values(|m: ExtractedMatch| m@),
            cmp_matches(da, db) == cmp_matches(da.skip(i as int), db.skip(i as int)),
        decreases la - i,
    {
        proof {
            assert(da.skip(i as int)[0] == da[i as int]);
            assert(db.skip(i as int)[0] == db[i as int]);
            assert(da.skip(i as int).drop_first() =~= da.skip(i + 1));
            assert(db.skip(i as int).drop_first() =~= db.skip(i + 1));
        }
        let c = cmp_match_exec(&a[i], &b[i]);
        if c != 0 {
            return c;
        }
        i = i + 1;
    }
    proof {
        if i == la {
            assert(da.skip(i as int) =~= Seq::<MatchModel>::empty());
        }
        if i == lb {
            assert(db.skip(i as int) =~= Seq::<MatchModel>::empty());
        }
    }
    if la == lb {
        0
    } else if la < lb {
        -1
    } else {
        1
    }
}

fn cmp_file_exec(a: &ExtractedFile, b: &ExtractedFile) -> (r: i8)
    ensures
        r as int == cmp_file(a@, b@),
{
    let c: i8 = match (&a.file, &b.file) {
        (None, None) => 0,
        (None, Some(_)) => -1,
        (Some(_), None) => 1,
        (Some(x), Some(y)) => cmp_str_exec(x.as_str(), y.as_str()),
    };
    if c != 0 {
        return c;
    }
    let c = cmp_str_exec(a.file_type.as_str(), b.file_type.as_str());
    if c != 0 {
        return c;
    }
    cmp_matches_exec(&a.matches, &b.matches)
}

// ------------------------------------------------------------------
// The stable sort.
// ------------------------------------------------------------------
/// The strict order the sort arranges by: the record's total order, with the
/// original index breaking ties, which is exactly what makes the sort stable.
pub open spec fn pair_lt(a: (FileModel, int), b: (FileModel, int)) -> bool {
    cmp_file(a.0, b.0) < 0 || (cmp_file(a.0, b.0) == 0 && a.1 < b.1)
}

/// The deep view of tagged files.
pub open spec fn pairs_model(s: Seq<(ExtractedFile, usize)>) -> Seq<(FileModel, int)> {
    s.map_values(|p: (ExtractedFile, usize)| (p.0@, p.1 as int))
}

fn pair_lt_exec(a: &(ExtractedFile, usize), b: &(ExtractedFile, usize)) -> (r: bool)
    ensures
        r == pair_lt((a.0@, a.1 as int), (b.0@, b.1 as int)),
{
    let c = cmp_file_exec(&a.0, &b.0);
    c < 0 || (c == 0 && a.1 < b.1)
}

/// The position before the first element the new pair orders before.
fn find_insert_pos(sorted: &Vec<(ExtractedFile, usize)>, x: &(ExtractedFile, usize)) -> (r: usize)
    ensures
        r <= sorted@.len(),
        forall|k: int| 0 <= k < r ==> !pair_lt((x.0@, x.1 as int), #[trigger] pairs_model(sorted@)[k]),
        (r as int) < sorted@.len() ==> pair_lt((x.0@, x.1 as int), pairs_model(sorted@)[r as int]),
{
    let n = sorted.len();
    let mut j: usize = 0;
    while j < n
        invariant
            j <= n,
            n == sorted@.len(),
            forall|k: int|
                0 <= k < j ==> !pair_lt((x.0@, x.1 as int), #[trigger] pairs_model(sorted@)[k]),
        decreases n - j,
    {
        if pair_lt_exec(x, &sorted[j]) {
            proof {
                assert(pairs_model(sorted@)[j as int] == (sorted@[j as int].0@, sorted@[j as int].1 as int));
            }
            return j;
        }
        proof {
            assert(pairs_model(sorted@)[j as int] == (sorted@[j as int].0@, sorted@[j as int].1 as int));
        }
        j = j + 1;
    }
    n
}

/// What the sort promises: the output is the input rearranged by an index
/// map `perm`; it is ordered by the records' total order; and records that
/// compare equal keep their original relative order (stability).
pub open spec fn sorted_stably(fs: Seq<FileModel>, rs: Seq<FileModel>, perm: Seq<int>) -> bool {
    &&& perm.len() == fs.len()
    &&& rs.len() == fs.len()
    &&& (forall|i: int| 0 <= i < perm.len() ==> 0 <= #[trigger] perm[i] < fs.len())
    &&& (forall|i: int| 0 <= i < perm.len() ==> rs[i] == fs[#[trigger] perm[i]])
    &&& (forall|i: int, j: int| 0 <= i < j < perm.len() ==> #[trigger] perm[i] != #[trigger] perm[j])
    &&& (forall|i: int, j: int| 0 <= i < j < rs.len() ==> cmp_file(#[trigger] rs[i], #[trigger] rs[j]) <= 0)
    &&& (forall|i: int, j: int|
        0 <= i < j < rs.len() && cmp_file(#[trigger] rs[i], #[trigger] rs[j]) == 0 ==> perm[i]
            < perm[j])
}

/// Each tagged pair carries a source index and that source record.
spec fn pairs_valid(ps: Seq<(FileModel, int)>, fs: Seq<FileModel>) -> bool {
    forall|k: int|
        0 <= k < ps.len() ==> 0 <= (#[trigger] ps[k]).1 < fs.len() && ps[k].0 == fs[ps[k].1]
}

/// All tags distinct within one list.
spec fn tags_distinct(ps: Seq<(FileModel, int)>) -> bool {
    forall|k1: int, k2: int| 0 <= k1 < k2 < ps.len() ==> (#[trigger] ps[k1]).1 != (#[trigger] ps[k2]).1
}

/// No tag shared between two lists.
spec fn tags_disjoint(ps: Seq<(FileModel, int)>, qs: Seq<(FileModel, int)>) -> bool {
    forall|k1: int, k2: int|
        0 <= k1 < ps.len() && 0 <= k2 < qs.len() ==> (#[trigger] ps[k1]).1 != (#[trigger] qs[k2]).1
}

/// Strictly ordered by the tie-broken order.
spec fn pairs_sorted(ps: Seq<(FileModel, int)>) -> bool {
    forall|k1: int, k2: int| 0 <= k1 < k2 < ps.len() ==> pair_lt(#[trigger] ps[k1], #[trigger] ps[k2])
}

/// Sort the extracted files stably by their natural total order.
pub fn sort_files(files: Vec<ExtractedFile>) -> (r: Vec<ExtractedFile>)
    ensures
        exists|perm: Seq<int>|
            #[trigger] sorted_stably(files_deep(files@), files_deep(r@), perm),
{
    let ghost fs = files_deep(files@);
    let n = files.len();
    let mut input = files;
    let mut pairs: Vec<(ExtractedFile, usize)> = Vec::new();
    while input.len() > 0
        invariant
            input@.len() + pairs@.len() == n,
            n == fs.len(),
            forall|k: int| 0 <= k < input@.len() ==> #[trigger] input@[k]@ == fs[k],
            forall|k: int|
                0 <= k < pairs@.len() ==> (#[trigger] pairs@[k]).1 as int == n - 1 - k
                    && pairs@[k].0@ == fs[n - 1 - k],
        decreases input@.len(),
    {
        let x = input.pop().unwrap();
        let tag = input.len();
        pairs.push((x, tag));
    }
    proof {
        assert forall|k: int| 0 <= k < pairs@.len() implies 0 <= (#[trigger] pairs_model(
            pairs@,
        )[k]).1 < fs.len() && pairs_model(pairs@)[k].0 == fs[pairs_model(pairs@)[k].1] by {
            assert(pairs_model(pairs@)[k] == (pairs@[k].0@, pairs@[k].1 as int));
        }
        assert(pairs_valid(pairs_model(pairs@), fs));
        assert forall|k1: int, k2: int| 0 <= k1 < k2 < pairs@.len() implies (#[trigger] pairs_model(
            pairs@,
        )[k1]).1 != (#[trigger] pairs_model(pairs@)[k2]).1 by {
            assert(pairs_model(pairs@)[k1] == (pairs@[k1].0@, pairs@[k1].1 as int));
            assert(pairs_model(pairs@)[k2] == (pairs@[k2].0@, pairs@[k2].1 as int));
        }
        assert(tags_distinct(pairs_model(pairs@)));
    }
    let mut sorted: Vec<(ExtractedFile, usize)> = Vec::new();
    while pairs.len() > 0
        invariant
            sorted@.len() + pairs@.len() == n,
            n == fs.len(),
            pairs_valid(pairs_model(pairs@), fs),
            pairs_valid(pairs_model(sorted@), fs),
            tags_distinct(pairs_model(pairs@)),
            tags_distinct(pairs_model(sorted@)),
            tags_disjoint(pairs_model(pairs@), pairs_model(sorted@)),
            pairs_sorted(pairs_model(sorted@)),
        decreases pairs@.len(),
    {
        let ghost old_pairs = pairs_model(pairs@);
        let ghost old_sorted = pairs_model(sorted@);
        let x = pairs.pop().unwrap();
        let ghost xm = (x.0@, x.1 as int);
        proof {
            assert(old_pairs.last() == xm);
            assert(pairs_model(pairs@) =~= old_pairs.drop_last());
        }
        let slen = sorted.len();
        let j = find_insert_pos(&sorted, &x);
        proof {
            assert(0 <= xm.1 < fs.len() && xm.0 == fs[xm.1]) by {
                assert(old_pairs[old_pairs.len() - 1] == xm);
            }
            assert forall|k: int| 0 <= k < j implies pair_lt(#[trigger] old_sorted[k], xm) by {
                lemma_cmp_file_props(old_sorted[k].0, xm.0, xm.0);
                assert(old_pairs[old_pairs.len() - 1].1 != old_sorted[k].1);
                assert(old_sorted[k].1 != xm.1);
            }
            if j < slen {
                assert(pair_lt(xm, old_sorted[j as int]));
                assert forall|k: int| j <= k < slen implies pair_lt(xm, #[trigger] old_sorted[k]) by {
                    if k > j {
                        lemma_cmp_file_props(xm.0, old_sorted[j as int].0, old_sorted[k].0);
                        assert(pair_lt(old_sorted[j as int], old_sorted[k]));
                    }
                }
            }
        }
        sorted.insert(j, x);
        proof {
            assert(pairs_model(sorted@) =~= old_sorted.insert(j as int, xm));
            let ns = pairs_model(sorted@);
            assert forall|k1: int, k2: int| 0 <= k1 < k2 < ns.len() implies pair_lt(
                #[trigger] ns[k1],
                #[trigger] ns[k2],
            ) by {
                if k1 < j && k2 == j {
                    assert(ns[k1] == old_sorted[k1]);
                    assert(ns[k2] == xm);
                } else if k1 == j {
                    assert(ns[k2] == old_sorted[k2 - 1]);
                } else if k1 < j && k2 > j {
                    assert(ns[k1] == old_sorted[k1] && ns[k2] == old_sorted[k2 - 1]);
                } else if k1 > j {
                    assert(ns[k1] == old_sorted[k1 - 1] && ns[k2] == old_sorted[k2 - 1]);
                } else {
                    assert(ns[k1] == old_sorted[k1] && ns[k2] == old_sorted[k2]);
                }
            }
            assert forall|k: int| 0 <= k < ns.len() implies 0 <= (#[trigger] ns[k]).1 < fs.len()
                && ns[k].0 == fs[ns[k].1] by {
                if k < j {
                    assert(ns[k] == old_sorted[k]);
                } else if k == j {
                    assert(ns[k] == xm);
                } else {
                    assert(ns[k] == old_sorted[k - 1]);
                }
            }
            assert forall|k1: int, k2: int| 0 <= k1 < k2 < ns.len() implies (#[trigger] ns[k1]).1
                != (#[trigger] ns[k2]).1 by {
                let a = if k1 < j {
                    old_sorted[k1]
                } else if k1 == j {
                    xm
                } else {
                    old_sorted[k1 - 1]
                };
                let b = if k2 < j {
                    old_sorted[k2]
                } else if k2 == j {
                    xm
                } else {
                    old_sorted[k2 - 1]
                };
                assert(ns[k1] == a && ns[k2] == b);
                if k1 == j || k2 == j {
                    assert(old_pairs[old_pairs.len() - 1] == xm);
                }
            }
            let np = pairs_model(pairs@);
            assert forall|k1: int, k2: int|
                0 <= k1 < np.len() && 0 <= k2 < ns.len() implies (#[trigger] np[k1]).1
                != (#[trigger] ns[k2]).1 by {
                assert(np[k1] == old_pairs[k1]);
                if k2 < j {
                    assert(ns[k2] == old_sorted[k2]);
                } else if k2 == j {
                    assert(ns[k2] == xm);
                    assert(old_pairs[old_pairs.len() - 1] == xm);
                } else {
                    assert(ns[k2] == old_sorted[k2 - 1]);
                }
            }
        }
    }
    let ghost sp = pairs_model(sorted@);
    let mut out: Vec<ExtractedFile> = Vec::new();
    while sorted.len() > 0
        invariant
            out@.len() + sorted@.len() == n,
            n == sp.len(),
            n == fs.len(),
            pairs_sorted(sp),
            pairs_valid(sp, fs),
            forall|k: int| 0 <= k < out@.len() ==> (#[trigger] out@[k])@ == sp[k].0,
            forall|k: int|
                0 <= k < sorted@.len() ==> (#[trigger] pairs_model(sorted@)[k]) == sp[out@.len()
                    + k],
        decreases sorted@.len(),
    {
        let ghost before = pairs_model(sorted@);
        let ghost old_out_len = out@.len() as int;
        let ghost old_out = out@;
        let (f, t) = sorted.remove(0);
        proof {
            assert(before[0] == sp[old_out_len]);
            assert(before[0] == (f@, t as int));
            assert(pairs_model(sorted@) =~= before.drop_first());
        }
        out.push(f);
        proof {
            assert(out@ =~= old_out.push(f));
            assert forall|k: int| 0 <= k < out@.len() implies (#[trigger] out@[k])@ == sp[k].0 by {
                if k < old_out_len {
                    assert(out@[k] == old_out[k]);
                } else {
                    assert(out@[k] == f);
                    assert(sp[k] == before[0]);
                }
            }
            assert forall|k: int| 0 <= k < sorted@.len() implies (#[trigger] pairs_model(
                sorted@,
            )[k]) == sp[out@.len() + k] by {
                assert(pairs_model(sorted@)[k] == before[k + 1]);
            }
        }
    }
    proof {
        let rs = files_deep(out@);
        let perm = Seq::new(n as nat, |i: int| sp[i].1);
        assert(rs.len() == n);
        assert forall|k: int| 0 <= k < n implies #[trigger] rs[k] == sp[k].0 && perm[k]
            == sp[k].1 by {
            assert(out@[k]@ == sp[k].0);
        }
        assert forall|i: int, j: int| 0 <= i < j < n implies cmp_file(
            #[trigger] rs[i],
            #[trigger] rs[j],
        ) <= 0 && (cmp_file(rs[i], rs[j]) == 0 ==> perm[i] < perm[j]) by {
            assert(rs[i] == sp[i].0 && perm[i] == sp[i].1);
            assert(rs[j] == sp[j].0 && perm[j] == sp[j].1);
            assert(pair_lt(sp[i], sp[j]));
        }
        assert forall|i: int, j: int| 0 <= i < j < n implies #[trigger] perm[i] != #[trigger] perm[j] by {
            assert(rs[i] == sp[i].0 && perm[i] == sp[i].1);
            assert(rs[j] == sp[j].0 && perm[j] == sp[j].1);
            assert(pair_lt(sp[i], sp[j]));
            assert(sp[i].0 == fs[sp[i].1] && sp[j].0 == fs[sp[j].1]);
            if sp[i].1 == sp[j].1 {
                lemma_cmp_file_props(sp[i].0, sp[j].0, sp[j].0);
                assert(false);
            }
        }
        assert(sorted_stably(fs, files_deep(out@), perm));
    }
    out
}

} // verus!
