//! Laws of the index: properties that hold of every build and every query,
//! stated over the specification functions the public contracts use.

use vstd::prelude::*;

use crate::exact::{exact_result, lemma_exact_result_at};
use crate::fuzzy::{
    first_max_idx, is_exact, lemma_candidates_complete, lemma_candidates_membership,
    lemma_first_max_unique, lemma_rank_all_contains, lemma_rank_all_len, lemma_rank_all_sorted,
    rank_all, ranks_geq, score_val, spec_annotate, spec_candidates, spec_fuzzy_results, spec_keep,
};
use crate::package::{display_name, Package};
use crate::store::distinct_attributes;
use crate::text::eq_ci;

verus! {

/// Round trip: a record with a store path, inserted by a successful build,
/// comes back from an exact lookup of its attribute exactly as it was
/// stored, the transient query fields untouched.
pub proof fn lemma_round_trip(rs: Seq<Package>, i: int)
    requires
        distinct_attributes(rs),
        0 <= i < rs.len(),
        rs[i].store_path is Some,
    ensures
        exact_result(rs, rs[i].attribute@) == Some(rs[i]),
{
    lemma_exact_result_at(rs, rs[i].attribute@, i);
}

/// Exclusion: a built record without a store path is never a result — an
/// exact lookup of its attribute comes back empty, and no fuzzy result
/// carries its attribute.
pub proof fn lemma_exclusion(
    rs: Seq<Package>,
    i: int,
    q: Seq<char>,
    limit: int,
    filter_built: bool,
    flags: Seq<bool>,
)
    requires
        distinct_attributes(rs),
        flags.len() == rs.len(),
        limit >= 0,
        0 <= i < rs.len(),
        rs[i].store_path is None,
    ensures
        exact_result(rs, rs[i].attribute@) is None,
        forall|j: int|
            0 <= j < spec_fuzzy_results(rs, q, limit, filter_built, flags).len() ==> (
            #[trigger] spec_fuzzy_results(rs, q, limit, filter_built, flags)[j]).attribute@
                != rs[i].attribute@,
{
    lemma_exact_result_at(rs, rs[i].attribute@, i);
    let cands = spec_candidates(rs, q, flags, filter_built);
    let ranked = rank_all(cands, q);
    let results = spec_fuzzy_results(rs, q, limit, filter_built, flags);
    lemma_rank_all_len(cands, q);
    assert forall|j: int| 0 <= j < results.len() implies (#[trigger] results[j]).attribute@
        != rs[i].attribute@ by {
        assert(results[j] == ranked[j]);
        assert(ranked.contains(results[j]));
        lemma_rank_all_contains(cands, q, results[j]);
        lemma_candidates_membership(rs, q, flags, filter_built, results[j]);
        let k = choose|k: int|
            0 <= k < rs.len() && #[trigger] crate::fuzzy::spec_keep(rs[k], filter_built, flags[k])
                && results[j] == crate::fuzzy::spec_annotate(rs[k], q, filter_built, flags[k]);
        if results[j].attribute@ == rs[i].attribute@ {
            assert(rs[k].attribute@ == rs[i].attribute@);
            assert(k != i);
            assert(false);
        }
    }
}

/// Limit bound: a fuzzy query returns at most `limit` results — exactly
/// `limit` whenever at least that many candidates survive filtering — and
/// what it returns are the highest-ranked candidates: every candidate left
/// out ranks no higher than any candidate returned.
pub proof fn lemma_limit_bound(
    rs: Seq<Package>,
    q: Seq<char>,
    limit: int,
    filter_built: bool,
    flags: Seq<bool>,
)
    requires
        flags.len() == rs.len(),
        limit >= 0,
    ensures
        spec_fuzzy_results(rs, q, limit, filter_built, flags).len() <= limit,
        limit < spec_candidates(rs, q, flags, filter_built).len() ==> spec_fuzzy_results(
            rs,
            q,
            limit,
            filter_built,
            flags,
        ).len() == limit,
        limit >= spec_candidates(rs, q, flags, filter_built).len() ==> spec_fuzzy_results(
            rs,
            q,
            limit,
            filter_built,
            flags,
        ).len() == spec_candidates(rs, q, flags, filter_built).len(),
        forall|x: Package, j: int|
            #![trigger spec_candidates(rs, q, flags, filter_built).contains(x), spec_fuzzy_results(rs, q, limit, filter_built, flags)[j]]
            spec_candidates(rs, q, flags, filter_built).contains(x) && !spec_fuzzy_results(
                rs,
                q,
                limit,
                filter_built,
                flags,
            ).contains(x) && 0 <= j < spec_fuzzy_results(rs, q, limit, filter_built, flags).len()
                ==> ranks_geq(spec_fuzzy_results(rs, q, limit, filter_built, flags)[j], x, q),
{
    let cands = spec_candidates(rs, q, flags, filter_built);
    let ranked = rank_all(cands, q);
    let results = spec_fuzzy_results(rs, q, limit, filter_built, flags);
    lemma_rank_all_len(cands, q);
    lemma_rank_all_sorted(cands, q);
    assert forall|x: Package, j: int|
        #![trigger cands.contains(x), results[j]]
        cands.contains(x) && !results.contains(x) && 0 <= j < results.len() implies ranks_geq(
        results[j],
        x,
        q,
    ) by {
        lemma_rank_all_contains(cands, q, x);
        let m = choose|m: int| 0 <= m < ranked.len() && ranked[m] == x;
        if m < results.len() {
            assert(results[m] == x);
            assert(false);
        }
        assert(results[j] == ranked[j]);
        assert(ranks_geq(ranked[j], ranked[m], q));
    }
}

/// Every fuzzy result is the annotation of some kept store row: its source
/// row carries a store path, passes the presence filter when one is on,
/// and contributes its attribute, name, and descriptions unchanged.
pub proof fn lemma_results_from_candidates(
    rs: Seq<Package>,
    q: Seq<char>,
    limit: int,
    filter_built: bool,
    flags: Seq<bool>,
    j: int,
)
    requires
        flags.len() == rs.len(),
        limit >= 0,
        0 <= j < spec_fuzzy_results(rs, q, limit, filter_built, flags).len(),
    ensures
        exists|k: int|
            0 <= k < rs.len() && #[trigger] spec_keep(rs[k], filter_built, flags[k])
                && spec_fuzzy_results(rs, q, limit, filter_built, flags)[j] == spec_annotate(
                rs[k],
                q,
                filter_built,
                flags[k],
            ),
{
    let cands = spec_candidates(rs, q, flags, filter_built);
    let ranked = rank_all(cands, q);
    let results = spec_fuzzy_results(rs, q, limit, filter_built, flags);
    lemma_rank_all_len(cands, q);
    assert(results[j] == ranked[j]);
    assert(ranked.contains(results[j]));
    lemma_rank_all_contains(cands, q, results[j]);
    lemma_candidates_membership(rs, q, flags, filter_built, results[j]);
}

/// Exact-match short-circuit: when some candidate's name equals the query
/// up to ASCII case, the top fuzzy result is such a record and carries the
/// maximum representable score, and every exact match ranks strictly above
/// every non-identical match.
pub proof fn lemma_exact_match_first(
    rs: Seq<Package>,
    q: Seq<char>,
    limit: int,
    filter_built: bool,
    flags: Seq<bool>,
)
    requires
        flags.len() == rs.len(),
        limit >= 1,
        exists|k: int|
            0 <= k < rs.len() && #[trigger] spec_keep(rs[k], filter_built, flags[k]) && eq_ci(
                display_name(rs[k]),
                q,
            ),
    ensures
        spec_fuzzy_results(rs, q, limit, filter_built, flags).len() >= 1,
        is_exact(spec_fuzzy_results(rs, q, limit, filter_built, flags)[0], q),
        spec_fuzzy_results(rs, q, limit, filter_built, flags)[0].score == Some(i64::MAX),
        forall|j1: int, j2: int|
            #![trigger spec_fuzzy_results(rs, q, limit, filter_built, flags)[j1], spec_fuzzy_results(rs, q, limit, filter_built, flags)[j2]]
            0 <= j1 < spec_fuzzy_results(rs, q, limit, filter_built, flags).len() && 0 <= j2
                < spec_fuzzy_results(rs, q, limit, filter_built, flags).len() && is_exact(
                spec_fuzzy_results(rs, q, limit, filter_built, flags)[j1],
                q,
            ) && !is_exact(spec_fuzzy_results(rs, q, limit, filter_built, flags)[j2], q) ==> j1
                < j2,
{
    let cands = spec_candidates(rs, q, flags, filter_built);
    let ranked = rank_all(cands, q);
    let results = spec_fuzzy_results(rs, q, limit, filter_built, flags);
    lemma_rank_all_len(cands, q);
    lemma_rank_all_sorted(cands, q);
    let k0 = choose|k: int|
        0 <= k < rs.len() && #[trigger] spec_keep(rs[k], filter_built, flags[k]) && eq_ci(
            display_name(rs[k]),
            q,
        );
    let x = spec_annotate(rs[k0], q, filter_built, flags[k0]);
    lemma_candidates_complete(rs, q, flags, filter_built, k0);
    assert(cands.contains(x));
    assert(is_exact(x, q));
    assert(x.score == Some(i64::MAX));
    lemma_rank_all_contains(cands, q, x);
    let m = choose|m: int| 0 <= m < ranked.len() && ranked[m] == x;
    assert(results.len() >= 1);
    assert(results[0] == ranked[0]);
    // Every ranked element is an annotated candidate, so its score is a
    // real `i64` and never exceeds the maximum.
    assert forall|j: int| 0 <= j < ranked.len() implies score_val(#[trigger] ranked[j])
        <= i64::MAX as int && (is_exact(ranked[j], q) ==> ranked[j].score == Some(i64::MAX)) by {
        assert(ranked.contains(ranked[j]));
        lemma_rank_all_contains(cands, q, ranked[j]);
        lemma_candidates_membership(rs, q, flags, filter_built, ranked[j]);
    }
    if m > 0 {
        assert(ranks_geq(ranked[0], ranked[m], q));
        assert(score_val(ranked[0]) == i64::MAX as int);
        assert(is_exact(ranked[0], q));
    }
    assert forall|j1: int, j2: int|
        0 <= j1 < results.len() && 0 <= j2 < results.len() && is_exact(results[j1], q)
            && !is_exact(results[j2], q) implies j1 < j2 by {
        assert(results[j1] == ranked[j1]);
        assert(results[j2] == ranked[j2]);
        if j2 < j1 {
            assert(ranks_geq(ranked[j2], ranked[j1], q));
            assert(false);
        }
    }
}

/// Presence filter: with filtering on, every result's store path is
/// present on the filesystem (its presence flag is set); with it off,
/// every result carries its flag as the `present` annotation, and when
/// the limit admits them, every record with a store path is returned.
pub proof fn lemma_presence_filter(
    rs: Seq<Package>,
    q: Seq<char>,
    limit: int,
    filter_built: bool,
    flags: Seq<bool>,
)
    requires
        flags.len() == rs.len(),
        limit >= 0,
    ensures
        forall|j: int|
            0 <= j < spec_fuzzy_results(rs, q, limit, filter_built, flags).len()
                ==> exists|k: int|
                0 <= k < rs.len() && #[trigger] spec_keep(rs[k], filter_built, flags[k]) && (
                #[trigger] spec_fuzzy_results(rs, q, limit, filter_built, flags)[j])
                    == spec_annotate(rs[k], q, filter_built, flags[k]),
        !filter_built && limit >= spec_candidates(rs, q, flags, false).len() ==> forall|k: int|
            0 <= k < rs.len() && (#[trigger] rs[k]).store_path is Some ==> spec_fuzzy_results(
                rs,
                q,
                limit,
                false,
                flags,
            ).contains(spec_annotate(rs[k], q, false, flags[k])),
{
    let results = spec_fuzzy_results(rs, q, limit, filter_built, flags);
    assert forall|j: int| 0 <= j < results.len() implies exists|k: int|
        0 <= k < rs.len() && #[trigger] spec_keep(rs[k], filter_built, flags[k]) && (
    #[trigger] results[j]) == spec_annotate(rs[k], q, filter_built, flags[k]) by {
        lemma_results_from_candidates(rs, q, limit, filter_built, flags, j);
    }
    if !filter_built && limit >= spec_candidates(rs, q, flags, false).len() {
        let cands = spec_candidates(rs, q, flags, false);
        let ranked = rank_all(cands, q);
        lemma_rank_all_len(cands, q);
        assert forall|k: int|
            0 <= k < rs.len() && (#[trigger] rs[k]).store_path is Some implies spec_fuzzy_results(
            rs,
            q,
            limit,
            false,
            flags,
        ).contains(spec_annotate(rs[k], q, false, flags[k])) by {
            assert(spec_keep(rs[k], false, flags[k]));
            lemma_candidates_complete(rs, q, flags, false, k);
            lemma_rank_all_contains(cands, q, spec_annotate(rs[k], q, false, flags[k]));
        }
    }
}

/// How candidates under two queries that fold to the same characters
/// relate, row by row: the records agree on everything but the score, a
/// row is an exact match for one query exactly when it is for the other,
/// and the rows that are exact matches agree completely.
spec fn pair_ok(a: Package, b: Package, q1: Seq<char>, q2: Seq<char>) -> bool {
    &&& a.score is Some
    &&& b.score is Some
    &&& a.attribute == b.attribute
    &&& a.name == b.name
    &&& a.version == b.version
    &&& a.store_path == b.store_path
    &&& a.description == b.description
    &&& a.long_description == b.long_description
    &&& a.present == b.present
    &&& (is_exact(a, q1) <==> is_exact(b, q2))
    &&& (is_exact(a, q1) ==> a == b)
}

proof fn lemma_candidates_pairwise(
    rs: Seq<Package>,
    q1: Seq<char>,
    q2: Seq<char>,
    flags: Seq<bool>,
    filter_built: bool,
)
    requires
        flags.len() == rs.len(),
        eq_ci(q1, q2),
    ensures
        spec_candidates(rs, q1, flags, filter_built).len() == spec_candidates(
            rs,
            q2,
            flags,
            filter_built,
        ).len(),
        forall|k: int|
            0 <= k < spec_candidates(rs, q1, flags, filter_built).len() ==> pair_ok(
                #[trigger] spec_candidates(rs, q1, flags, filter_built)[k],
                spec_candidates(rs, q2, flags, filter_built)[k],
                q1,
                q2,
            ),
    decreases rs.len(),
{
    if rs.len() > 0 {
        lemma_candidates_pairwise(rs.drop_last(), q1, q2, flags.drop_last(), filter_built);
        let r1 = spec_candidates(rs.drop_last(), q1, flags.drop_last(), filter_built);
        let r2 = spec_candidates(rs.drop_last(), q2, flags.drop_last(), filter_built);
        let c1 = spec_candidates(rs, q1, flags, filter_built);
        let c2 = spec_candidates(rs, q2, flags, filter_built);
        if spec_keep(rs.last(), filter_built, flags.last()) {
            let a = spec_annotate(rs.last(), q1, filter_built, flags.last());
            let b = spec_annotate(rs.last(), q2, filter_built, flags.last());
            assert(is_exact(a, q1) == eq_ci(display_name(rs.last()), q1));
            assert(is_exact(b, q2) == eq_ci(display_name(rs.last()), q2));
            assert(pair_ok(a, b, q1, q2));
            assert forall|k: int| 0 <= k < c1.len() implies pair_ok(
                #[trigger] c1[k],
                c2[k],
                q1,
                q2,
            ) by {
                if k < r1.len() {
                    assert(c1[k] == r1[k] && c2[k] == r2[k]);
                } else {
                    assert(c1[k] == a && c2[k] == b);
                }
            }
        }
    }
}

/// The first exact match among the candidates, in row order.
spec fn first_exact_idx(c: Seq<Package>, q: Seq<char>) -> int
    decreases c.len(),
{
    if c.len() == 0 {
        0
    } else if is_exact(c[0], q) {
        0
    } else {
        1 + first_exact_idx(c.drop_first(), q)
    }
}

proof fn lemma_first_exact(c: Seq<Package>, q: Seq<char>)
    requires
        exists|j: int| 0 <= j < c.len() && is_exact(#[trigger] c[j], q),
    ensures
        0 <= first_exact_idx(c, q) < c.len(),
        is_exact(c[first_exact_idx(c, q)], q),
        forall|j: int| 0 <= j < first_exact_idx(c, q) ==> !is_exact(#[trigger] c[j], q),
    decreases c.len(),
{
    if !is_exact(c[0], q) {
        let j0 = choose|j: int| 0 <= j < c.len() && is_exact(#[trigger] c[j], q);
        assert(c.drop_first()[j0 - 1] == c[j0]);
        lemma_first_exact(c.drop_first(), q);
        assert(forall|j: int| 1 <= j < c.len() ==> c[j] == c.drop_first()[j - 1]);
    }
}

/// Case-insensitivity: two queries that fold to the same characters agree
/// on the top-ranked result whenever a candidate's name matches them
/// exactly up to case — the same record, with the same maximum score.
pub proof fn lemma_case_insensitive(
    rs: Seq<Package>,
    q1: Seq<char>,
    q2: Seq<char>,
    limit: int,
    filter_built: bool,
    flags: Seq<bool>,
)
    requires
        flags.len() == rs.len(),
        limit >= 1,
        eq_ci(q1, q2),
        exists|k: int|
            0 <= k < rs.len() && #[trigger] spec_keep(rs[k], filter_built, flags[k]) && eq_ci(
                display_name(rs[k]),
                q1,
            ),
    ensures
        spec_fuzzy_results(rs, q1, limit, filter_built, flags).len() >= 1,
        spec_fuzzy_results(rs, q2, limit, filter_built, flags).len() >= 1,
        spec_fuzzy_results(rs, q1, limit, filter_built, flags)[0] == spec_fuzzy_results(
            rs,
            q2,
            limit,
            filter_built,
            flags,
        )[0],
        spec_fuzzy_results(rs, q1, limit, filter_built, flags)[0].score == Some(i64::MAX),
{
    let c1 = spec_candidates(rs, q1, flags, filter_built);
    let c2 = spec_candidates(rs, q2, flags, filter_built);
    let r1 = rank_all(c1, q1);
    let r2 = rank_all(c2, q2);
    lemma_rank_all_len(c1, q1);
    lemma_rank_all_len(c2, q2);
    lemma_candidates_pairwise(rs, q1, q2, flags, filter_built);
    // Each candidate's score is a real `i64`, and the exact matches carry
    // the maximum.
    assert forall|j: int| 0 <= j < c1.len() implies score_val(#[trigger] c1[j]) <= i64::MAX as int
        && (is_exact(c1[j], q1) ==> c1[j].score == Some(i64::MAX)) by {
        assert(c1.contains(c1[j]));
        lemma_candidates_membership(rs, q1, flags, filter_built, c1[j]);
    }
    assert forall|j: int| 0 <= j < c2.len() implies score_val(#[trigger] c2[j]) <= i64::MAX as int
        && (is_exact(c2[j], q2) ==> c2[j].score == Some(i64::MAX)) by {
        assert(c2.contains(c2[j]));
        lemma_candidates_membership(rs, q2, flags, filter_built, c2[j]);
    }
    // Some candidate is an exact match for the first query.
    let k0 = choose|k: int|
        0 <= k < rs.len() && #[trigger] spec_keep(rs[k], filter_built, flags[k]) && eq_ci(
            display_name(rs[k]),
            q1,
        );
    let x = spec_annotate(rs[k0], q1, filter_built, flags[k0]);
    lemma_candidates_complete(rs, q1, flags, filter_built, k0);
    let mx = choose|m: int| 0 <= m < c1.len() && c1[m] == x;
    assert(is_exact(c1[mx], q1));
    // The earliest exact match heads the ranking, under either query.
    let e = first_exact_idx(c1, q1);
    lemma_first_exact(c1, q1);
    assert forall|j: int| 0 <= j < c1.len() implies ranks_geq(c1[e], c1[j], q1) by {}
    lemma_first_max_unique(c1, q1, e);
    assert(is_exact(c2[e], q2));
    assert forall|j: int| 0 <= j < e implies !is_exact(#[trigger] c2[j], q2) by {
        assert(pair_ok(c1[j], c2[j], q1, q2));
    }
    assert forall|j: int| 0 <= j < c2.len() implies ranks_geq(c2[e], c2[j], q2) by {}
    lemma_first_max_unique(c2, q2, e);
    assert(r1[0] == c1[e]);
    assert(r2[0] == c2[e]);
    assert(c1[e] == c2[e]);
    assert(spec_fuzzy_results(rs, q1, limit, filter_built, flags)[0] == r1[0]);
    assert(spec_fuzzy_results(rs, q2, limit, filter_built, flags)[0] == r2[0]);
}

} // verus!
