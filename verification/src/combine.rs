//! The query combiner: resolves each (language, query) pair from the command
//! line, validates the query on its own, pads it with a synthetic capture if
//! it declares none, concatenates same-language queries into one composite
//! query per language, compiles each composite once, and rejects composites
//! that carry engine-level predicates.

use vstd::prelude::*;

use crate::engine;
use crate::error::GrepError;
use crate::extract::Extractor;
use crate::language;
use crate::language::Lang;

verus! {

/// The deep view of the raw (language name, query text) pairs.
pub open spec fn pairs_deep(s: Seq<(String, String)>) -> Seq<(Seq<char>, Seq<char>)> {
    s.map_values(|p: (String, String)| (p.0@, p.1@))
}

/// The deep view of the per-language composite texts under construction.
pub open spec fn groups_deep(s: Seq<(Lang, String)>) -> Seq<(Lang, Seq<char>)> {
    s.map_values(|g: (Lang, String)| (g.0, g.1@))
}

/// The language a name resolves to, where it resolves at all.
pub open spec fn rlang(p: Seq<char>) -> Lang {
    match language::resolve_spec(p) {
        Some(l) => l,
        None => Lang::C,
    }
}

/// The pairs with their language names resolved.
pub open spec fn resolved_pairs(pd: Seq<(Seq<char>, Seq<char>)>) -> Seq<(Lang, Seq<char>)> {
    pd.map_values(|p: (Seq<char>, Seq<char>)| (rlang(p.0), p.1))
}

/// One query text as it enters the composite: a query that declares no
/// capture gets a synthetic universal capture appended, so each of its
/// matches is still addressable in output.
pub open spec fn processed_spec(l: Lang, q: Seq<char>) -> Seq<char> {
    if engine::ts_capture_names(l.tag(), q).len() == 0 {
        q + "@query"@
    } else {
        q
    }
}

/// The index of the group holding this language, or -1 when none does.
pub open spec fn idx_of(gs: Seq<(Lang, Seq<char>)>, l: Lang) -> int
    decreases gs.len(),
{
    if gs.len() == 0 {
        -1
    } else if gs[0].0 == l {
        0
    } else {
        let r = idx_of(gs.drop_first(), l);
        if r < 0 {
            -1
        } else {
            r + 1
        }
    }
}

pub proof fn lemma_idx_of_props(gs: Seq<(Lang, Seq<char>)>, l: Lang)
    ensures
        -1 <= idx_of(gs, l) < gs.len(),
        idx_of(gs, l) >= 0 ==> gs[idx_of(gs, l)].0 == l,
        idx_of(gs, l) == -1 ==> forall|i: int| 0 <= i < gs.len() ==> (#[trigger] gs[i]).0 != l,
    decreases gs.len(),
{
    if gs.len() > 0 && gs[0].0 != l {
        lemma_idx_of_props(gs.drop_first(), l);
        if idx_of(gs, l) == -1 {
            assert forall|i: int| 0 <= i < gs.len() implies (#[trigger] gs[i]).0 != l by {
                if i > 0 {
                    assert(gs.drop_first()[i - 1] == gs[i]);
                }
            }
        }
    }
}

pub proof fn lemma_idx_of_at(gs: Seq<(Lang, Seq<char>)>, l: Lang, k: int)
    requires
        0 <= k < gs.len(),
        gs[k].0 == l,
        forall|j: int| 0 <= j < k ==> (#[trigger] gs[j]).0 != l,
    ensures
        idx_of(gs, l) == k,
    decreases gs.len(),
{
    if k > 0 {
        assert(forall|i: int|
            0 <= i < gs.drop_first().len() ==> #[trigger] gs.drop_first()[i] == gs[i + 1]);
        lemma_idx_of_at(gs.drop_first(), l, k - 1);
    }
}

/// The per-language composite queries built from resolved pairs, in order of
/// each language's first appearance; same-language texts are concatenated in
/// arrival order.
pub open spec fn combine_spec(rp: Seq<(Lang, Seq<char>)>) -> Seq<(Lang, Seq<char>)>
    decreases rp.len(),
{
    if rp.len() == 0 {
        Seq::empty()
    } else {
        let prev = combine_spec(rp.drop_last());
        let l = rp.last().0;
        let p = processed_spec(l, rp.last().1);
        let i = idx_of(prev, l);
        if i >= 0 {
            prev.update(i, (l, prev[i].1 + p))
        } else {
            prev.push((l, p))
        }
    }
}

/// A pair passes the first stage when its language resolves and its query
/// text compiles on its own.
pub open spec fn pair_stage_ok(p: (Seq<char>, Seq<char>)) -> bool {
    &&& language::resolve_spec(p.0) is Some
    &&& engine::ts_query_ok(rlang(p.0).tag(), p.1)
}

pub open spec fn stage1_ok_upto(pd: Seq<(Seq<char>, Seq<char>)>, n: int) -> bool {
    forall|j: int| 0 <= j < n ==> pair_stage_ok(#[trigger] pd[j])
}

/// No pattern of this composite carries a general predicate.
pub open spec fn group_pred_free(l: Lang, q: Seq<char>) -> bool {
    forall|p: int|
        0 <= p < engine::ts_pattern_count(l.tag(), q) ==> (#[trigger] engine::ts_predicate_ops(
            l.tag(),
            q,
            p,
        )).len() == 0
}

/// A composite passes the second stage when it compiles and carries no
/// general predicate.
pub open spec fn group_ok(g: (Lang, Seq<char>)) -> bool {
    &&& engine::ts_query_ok(g.0.tag(), g.1)
    &&& group_pred_free(g.0, g.1)
}

pub open spec fn groups_ok_upto(gs: Seq<(Lang, Seq<char>)>, n: int) -> bool {
    forall|j: int| 0 <= j < n ==> group_ok(#[trigger] gs[j])
}

/// When the combiner succeeds: every pair resolves and compiles, and every
/// composite compiles predicate-free.
pub open spec fn combine_ok(pd: Seq<(Seq<char>, Seq<char>)>) -> bool {
    &&& stage1_ok_upto(pd, pd.len() as int)
    &&& groups_ok_upto(
        combine_spec(resolved_pairs(pd)),
        combine_spec(resolved_pairs(pd)).len() as int,
    )
}

/// Which error the combiner reports: the first failure in processing order.
pub open spec fn combine_err_spec(pd: Seq<(Seq<char>, Seq<char>)>, e: GrepError) -> bool {
    let gs = combine_spec(resolved_pairs(pd));
    ||| (exists|i: int|
        0 <= i < pd.len() && stage1_ok_upto(pd, i) && language::resolve_spec(
            (#[trigger] pd[i]).0,
        ) is None && (e matches GrepError::UnknownLanguage { name } && name@ == pd[i].0))
    ||| (exists|i: int|
        0 <= i < pd.len() && stage1_ok_upto(pd, i) && language::resolve_spec(
            (#[trigger] pd[i]).0,
        ) is Some && !engine::ts_query_ok(rlang(pd[i].0).tag(), pd[i].1) && (
        e matches GrepError::QueryParse { message } && message@ == engine::ts_query_err(
            rlang(pd[i].0).tag(),
            pd[i].1,
        )))
    ||| (stage1_ok_upto(pd, pd.len() as int) && exists|k: int|
        0 <= k < gs.len() && groups_ok_upto(gs, k) && ((!engine::ts_query_ok(
            (#[trigger] gs[k]).0.tag(),
            gs[k].1,
        ) && (e matches GrepError::QueryParse { message } && message@ == engine::ts_query_err(
            gs[k].0.tag(),
            gs[k].1,
        ))) || (engine::ts_query_ok(gs[k].0.tag(), gs[k].1) && (exists|p: int|
            0 <= p < engine::ts_pattern_count(gs[k].0.tag(), gs[k].1) && (forall|q: int|
                0 <= q < p ==> (#[trigger] engine::ts_predicate_ops(gs[k].0.tag(), gs[k].1, q)).len()
                    == 0) && engine::ts_predicate_ops(gs[k].0.tag(), gs[k].1, p).len() > 0 && (
            e matches GrepError::UnsupportedPredicate { operator } && operator@
                == engine::ts_predicate_ops(gs[k].0.tag(), gs[k].1, p)[0])))))
}

/// Find the group already holding this language.
fn find_group(groups: &Vec<(Lang, String)>, l: Lang) -> (r: Option<usize>)
    ensures
        r matches Some(g) ==> idx_of(groups_deep(groups@), l) == g as int && (g as int) < groups@.len(),
        r is None ==> idx_of(groups_deep(groups@), l) == -1,
{
    let n = groups.len();
    let mut j: usize = 0;
    while j < n
        invariant
            j <= n,
            n == groups@.len(),
            forall|t: int| 0 <= t < j ==> (#[trigger] groups_deep(groups@)[t]).0 != l,
        decreases n - j,
    {
        if groups[j].0 == l {
            proof {
                lemma_idx_of_at(groups_deep(groups@), l, j as int);
            }
            return Some(j);
        }
        proof {
            assert(groups_deep(groups@)[j as int].0 == groups@[j as int].0);
        }
        j = j + 1;
    }
    proof {
        lemma_idx_of_props(groups_deep(groups@), l);
        if idx_of(groups_deep(groups@), l) >= 0 {
            assert(groups_deep(groups@)[idx_of(groups_deep(groups@), l)].0 == l);
        }
    }
    None
}

/// Pair up a flat list of values, as repeated two-valued flags arrive; a
/// trailing odd value is dropped.
pub fn pair_up(values: &Vec<String>) -> (r: Vec<(String, String)>)
    ensures
        r@.len() == values@.len() / 2,
        forall|i: int|
            0 <= i < r@.len() ==> (#[trigger] r@[i]).0@ == values@[2 * i]@ && r@[i].1@ == values@[2
                * i + 1]@,
{
    let mut out: Vec<(String, String)> = Vec::new();
    let total = values.len();
    let count = total - total % 2;
    let mut j: usize = 0;
    while j < count
        invariant
            j % 2 == 0,
            count % 2 == 0,
            j <= count,
            count == total - total % 2,
            total == values@.len(),
            out@.len() == j / 2,
            forall|i: int|
                0 <= i < out@.len() ==> (#[trigger] out@[i]).0@ == values@[2 * i]@ && out@[i].1@
                    == values@[2 * i + 1]@,
        decreases count - j,
    {
        out.push((values[j].clone(), values[j + 1].clone()));
        j = j + 2;
    }
    out
}

/// Build one extractor per distinct requested language, each holding that
/// language's composite query, validated and predicate-free.
pub fn extractors(pairs: &Vec<(String, String)>) -> (r: Result<Vec<Extractor>, GrepError>)
    ensures
        r.is_ok() == combine_ok(pairs_deep(pairs@)),
        r matches Ok(v) ==> {
            let gs = combine_spec(resolved_pairs(pairs_deep(pairs@)));
            &&& v@.len() == gs.len()
            &&& forall|i: int|
                0 <= i < gs.len() ==> (#[trigger] v@[i]).lang_spec() == gs[i].0
                    && v@[i].query_text() == gs[i].1 && v@[i].wf()
        },
        r matches Err(e) ==> combine_err_spec(pairs_deep(pairs@), e),
{
    let ghost pd = pairs_deep(pairs@);
    let mut groups: Vec<(Lang, String)> = Vec::new();
    let n = pairs.len();
    let mut i: usize = 0;
    while i < n
        invariant
            i <= n,
            n == pd.len(),
            pd == pairs_deep(pairs@),
            stage1_ok_upto(pd, i as int),
            groups_deep(groups@) == combine_spec(resolved_pairs(pd.take(i as int))),
        decreases n - i,
    {
        let p = &pairs[i];
        proof {
            assert(pd[i as int] == (p.0@, p.1@));
        }
        let lang = match Lang::from_str(p.0.as_str()) {
            Ok(l) => l,
            Err(e) => {
                proof {
                    assert(language::resolve_spec(pd[i as int].0) is None);
                    assert(!pair_stage_ok(pd[i as int]));
                }
                return Err(e);
            },
        };
        proof {
            assert(language::resolve_spec(pd[i as int].0) == Some(lang));
            assert(rlang(pd[i as int].0) == lang);
        }
        let parsed = match lang.parse_query(p.1.as_str()) {
            Ok(q) => q,
            Err(e) => {
                proof {
                    assert(!pair_stage_ok(pd[i as int]));
                }
                return Err(e);
            },
        };
        let no_caps = parsed.captures().len() == 0;
        let mut processed: String = p.1.clone();
        if no_caps {
            processed.append("@query");
        }
        proof {
            assert(processed@ == processed_spec(lang, pd[i as int].1));
        }
        let ghost old_groups = groups_deep(groups@);
        match find_group(&groups, lang) {
            Some(g) => {
                let (gl, mut gtext) = groups.remove(g);
                gtext.append(processed.as_str());
                groups.insert(g, (gl, gtext));
                proof {
                    lemma_idx_of_props(old_groups, lang);
                    assert(groups_deep(groups@) =~= old_groups.update(
                        g as int,
                        (lang, old_groups[g as int].1 + processed_spec(lang, pd[i as int].1)),
                    ));
                }
            },
            None => {
                groups.push((lang, processed));
                proof {
                    assert(groups_deep(groups@) =~= old_groups.push(
                        (lang, processed_spec(lang, pd[i as int].1)),
                    ));
                }
            },
        }
        proof {
            let rp1 = resolved_pairs(pd.take(i + 1));
            assert(rp1.drop_last() =~= resolved_pairs(pd.take(i as int)));
            assert(rp1.last() == (lang, pd[i as int].1));
            assert(groups_deep(groups@) =~= combine_spec(rp1));
        }
        i = i + 1;
    }
    proof {
        assert(pd.take(n as int) =~= pd);
    }
    let ghost gs = combine_spec(resolved_pairs(pd));
    let m = groups.len();
    let mut out: Vec<Extractor> = Vec::new();
    let mut k: usize = 0;
    while k < m
        invariant
            k <= m,
            m == gs.len(),
            gs == combine_spec(resolved_pairs(pd)),
            pd == pairs_deep(pairs@),
            stage1_ok_upto(pd, pd.len() as int),
            groups_deep(groups@) == gs,
            groups_ok_upto(gs, k as int),
            out@.len() == k,
            forall|t: int|
                0 <= t < k ==> (#[trigger] out@[t]).lang_spec() == gs[t].0 && out@[t].query_text()
                    == gs[t].1 && out@[t].wf(),
        decreases m - k,
    {
        let glang = groups[k].0;
        proof {
            assert(groups_deep(groups@)[k as int] == (groups@[k as int].0, groups@[k as int].1@));
            assert(glang == gs[k as int].0);
            assert(groups@[k as int].1@ == gs[k as int].1);
        }
        let compiled = match glang.parse_query(groups[k].1.as_str()) {
            Ok(q) => q,
            Err(e) => {
                proof {
                    assert(!group_ok(gs[k as int]));
                    assert(!combine_ok(pd));
                }
                return Err(e);
            },
        };
        let pc = engine::pattern_count(&compiled);
        let mut pi: usize = 0;
        while pi < pc
            invariant
                pi <= pc,
                pc as int == engine::ts_pattern_count(gs[k as int].0.tag(), gs[k as int].1),
                compiled.wf(),
                compiled.lang_spec() == gs[k as int].0,
                compiled.text_spec() == gs[k as int].1,
                gs == combine_spec(resolved_pairs(pd)),
                pd == pairs_deep(pairs@),
                stage1_ok_upto(pd, pd.len() as int),
                groups_ok_upto(gs, k as int),
                0 <= k < gs.len(),
                forall|q: int|
                    0 <= q < pi ==> (#[trigger] engine::ts_predicate_ops(
                        gs[k as int].0.tag(),
                        gs[k as int].1,
                        q,
                    )).len() == 0,
            decreases pc - pi,
        {
            let ops = engine::predicate_ops(&compiled, pi);
            if ops.len() > 0 {
                proof {
                    assert(engine::ts_predicate_ops(
                        gs[k as int].0.tag(),
                        gs[k as int].1,
                        pi as int,
                    ).len() > 0);
                    assert(!group_pred_free(gs[k as int].0, gs[k as int].1));
                    assert(!group_ok(gs[k as int]));
                    assert(!combine_ok(pd));
                    assert(ops@[0]@ == engine::ts_predicate_ops(
                        gs[k as int].0.tag(),
                        gs[k as int].1,
                        pi as int,
                    )[0]);
                }
                return Err(GrepError::UnsupportedPredicate { operator: ops[0].clone() });
            }
            pi = pi + 1;
        }
        proof {
            assert(group_pred_free(gs[k as int].0, gs[k as int].1));
            assert(group_ok(gs[k as int]));
        }
        out.push(Extractor::new(glang, compiled));
        k = k + 1;
    }
    Ok(out)
}

/// Submitting the same query twice for one language keeps both copies in the
/// composite: the per-language text is the processed query written twice, so
/// duplicate capture emission is the documented behaviour, never silently
/// deduplicated — while the composite still holds the same pattern, so the
/// set of nodes it can match is unchanged.
pub proof fn lemma_duplicate_query_kept(l: Lang, q: Seq<char>)
    ensures
        combine_spec(seq![(l, q)]) =~= seq![(l, processed_spec(l, q))],
        combine_spec(seq![(l, q), (l, q)]) =~= seq![
            (l, processed_spec(l, q) + processed_spec(l, q)),
        ],
{
    let one = seq![(l, q)];
    let two = seq![(l, q), (l, q)];
    assert(one.drop_last() =~= Seq::<(Lang, Seq<char>)>::empty());
    assert(combine_spec(one.drop_last()) =~= Seq::<(Lang, Seq<char>)>::empty());
    assert(combine_spec(one) =~= seq![(l, processed_spec(l, q))]);
    assert(two.drop_last() =~= one);
    assert(two.drop_last() == one);
    let prev = combine_spec(one);
    assert(idx_of(prev, l) == 0);
    assert(combine_spec(two) =~= prev.update(0, (l, prev[0].1 + processed_spec(l, q))));
}

} // verus!
