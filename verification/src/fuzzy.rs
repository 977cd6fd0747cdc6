//! Ranked fuzzy name search.
//!
//! A candidate's name is scored against the query by a subsequence matching
//! heuristic, except that a name equal to the query up to ASCII case
//! short-circuits to the maximum representable score, so an exact match
//! always ranks first.  Results are ordered by descending score; a tie is
//! broken in favour of an exact match, then by the store's row order.

use vstd::prelude::*;
use fuzzy_matcher::FuzzyMatcher;

use crate::package::{clone_opt_string, display_name, Package};
use crate::store::IndexStore;
use crate::text::{chars_eq_ci, eq_ci};

verus! {

/// The score that `SkimMatcherV2::fuzzy_match`, configured to ignore case,
/// gives `pattern` against the text `choice`; `None` when they do not match.
pub uninterp spec fn skim_match(choice: Seq<char>, pattern: Seq<char>) -> Option<i64>;

/// Relies on fuzzy_matcher's `SkimMatcherV2::fuzzy_match` with the
/// `ignore_case` configuration: the score is a function of the two strings
/// alone.
#[verifier::external_body]
fn skim_fuzzy_match(choice: &str, pattern: &str) -> (r: Option<i64>)
    ensures
        r == skim_match(choice@, pattern@),
{
    fuzzy_matcher::skim::SkimMatcherV2::default().ignore_case().fuzzy_match(choice, pattern)
}

/// The rank of `choice` against the query `pattern`: the maximum `i64` when
/// the two are equal up to ASCII case, otherwise the subsequence matching
/// score, with a failed match ranked lowest as zero.
pub open spec fn spec_fuzzy_score(choice: Seq<char>, pattern: Seq<char>) -> i64 {
    if eq_ci(choice, pattern) {
        i64::MAX
    } else {
        match skim_match(choice, pattern) {
            Some(s) => s,
            None => 0,
        }
    }
}

/// The scalar scoring function of the query engine.
pub fn scalar_fuzzy_score(choice: &str, pattern: &str) -> (score: i64)
    ensures
        score == spec_fuzzy_score(choice@, pattern@),
{
    if chars_eq_ci(choice, pattern) {
        return i64::MAX;
    }
    match skim_fuzzy_match(choice, pattern) {
        Some(s) => s,
        None => 0,
    }
}

// ---------------------------------------------------------------------------
// The ranking order.
// ---------------------------------------------------------------------------
/// The rank a candidate's score annotation gives it; a missing annotation
/// ranks below every real score (candidates are always annotated).
pub open spec fn score_val(p: Package) -> int {
    match p.score {
        Some(s) => s as int,
        None => i64::MIN - 1,
    }
}

/// Whether the candidate's name equals the query up to ASCII case.
pub open spec fn is_exact(p: Package, q: Seq<char>) -> bool {
    eq_ci(display_name(p), q)
}

/// `a` ranks at least as high as `b`: a higher score ranks first, and an
/// exact match wins a tie on score.
pub open spec fn ranks_geq(a: Package, b: Package, q: Seq<char>) -> bool {
    ||| score_val(a) > score_val(b)
    ||| (score_val(a) == score_val(b) && (is_exact(a, q) || !is_exact(b, q)))
}

proof fn lemma_ranks_geq_total(a: Package, b: Package, q: Seq<char>)
    ensures
        ranks_geq(a, b, q) || ranks_geq(b, a, q),
{
}

proof fn lemma_ranks_geq_trans(a: Package, b: Package, c: Package, q: Seq<char>)
    requires
        ranks_geq(a, b, q),
        ranks_geq(b, c, q),
    ensures
        ranks_geq(a, c, q),
{
}

/// The index of the highest-ranked element; the earliest such index on a
/// tie, so that the store's row order breaks ties deterministically.
pub open spec fn first_max_idx(s: Seq<Package>, q: Seq<char>) -> int
    decreases s.len(),
{
    if s.len() <= 1 {
        0
    } else {
        let rest = 1 + first_max_idx(s.drop_first(), q);
        if ranks_geq(s[0], s[rest], q) {
            0
        } else {
            rest
        }
    }
}

pub(crate) proof fn lemma_first_max(s: Seq<Package>, q: Seq<char>)
    requires
        s.len() > 0,
    ensures
        0 <= first_max_idx(s, q) < s.len(),
        forall|j: int| 0 <= j < s.len() ==> ranks_geq(s[first_max_idx(s, q)], s[j], q),
        forall|j: int| 0 <= j < first_max_idx(s, q) ==> !ranks_geq(s[j], s[first_max_idx(s, q)], q),
    decreases s.len(),
{
    if s.len() > 1 {
        let t = s.drop_first();
        lemma_first_max(t, q);
        let mt = first_max_idx(t, q);
        let rest = 1 + mt;
        let m = first_max_idx(s, q);
        assert(forall|j: int| 1 <= j < s.len() ==> s[j] == t[j - 1]);
        if ranks_geq(s[0], s[rest], q) {
            assert(m == 0);
            assert forall|j: int| 0 <= j < s.len() implies ranks_geq(s[m], s[j], q) by {
                if j >= 1 {
                    assert(ranks_geq(t[mt], t[j - 1], q));
                    lemma_ranks_geq_trans(s[0], s[rest], s[j], q);
                }
            }
        } else {
            assert(m == rest);
            lemma_ranks_geq_total(s[0], s[rest], q);
            assert forall|j: int| 0 <= j < s.len() implies ranks_geq(s[m], s[j], q) by {
                if j >= 1 {
                    assert(ranks_geq(t[mt], t[j - 1], q));
                }
            }
            assert forall|j: int| 0 <= j < m implies !ranks_geq(s[j], s[m], q) by {
                if j >= 1 {
                    assert(!ranks_geq(t[j - 1], t[mt], q));
                }
            }
        }
    }
}

pub(crate) proof fn lemma_first_max_unique(s: Seq<Package>, q: Seq<char>, i: int)
    requires
        0 <= i < s.len(),
        forall|j: int| 0 <= j < s.len() ==> ranks_geq(s[i], s[j], q),
        forall|j: int| 0 <= j < i ==> !ranks_geq(s[j], s[i], q),
    ensures
        i == first_max_idx(s, q),
{
    let m = first_max_idx(s, q);
    lemma_first_max(s, q);
    if i < m {
        assert(ranks_geq(s[i], s[m], q));
        assert(false);
    }
    if m < i {
        assert(ranks_geq(s[m], s[i], q));
        assert(false);
    }
}

/// Every candidate, ranked: the highest rank first, and the earliest row
/// first among candidates of equal rank.
pub open spec fn rank_all(s: Seq<Package>, q: Seq<char>) -> Seq<Package>
    decreases s.len(),
    via rank_all_decreases
{
    if s.len() == 0 {
        Seq::empty()
    } else {
        let i = first_max_idx(s, q);
        Seq::empty().push(s[i]) + rank_all(s.remove(i), q)
    }
}

#[via_fn]
proof fn rank_all_decreases(s: Seq<Package>, q: Seq<char>) {
    if s.len() > 0 {
        lemma_first_max(s, q);
    }
}

/// Ranking permutes the candidates, so it keeps their number.
pub proof fn lemma_rank_all_len(s: Seq<Package>, q: Seq<char>)
    ensures
        rank_all(s, q).len() == s.len(),
    decreases s.len(),
{
    if s.len() > 0 {
        lemma_first_max(s, q);
        lemma_rank_all_len(s.remove(first_max_idx(s, q)), q);
    }
}

proof fn lemma_remove_contains(s: Seq<Package>, i: int, x: Package)
    requires
        0 <= i < s.len(),
        s.remove(i).contains(x),
    ensures
        s.contains(x),
{
    let k = choose|k: int| 0 <= k < s.remove(i).len() && s.remove(i)[k] == x;
    if k < i {
        assert(s[k] == x);
    } else {
        assert(s[k + 1] == x);
    }
}

/// Ranking permutes the candidates, so it keeps exactly their values.
pub proof fn lemma_rank_all_contains(s: Seq<Package>, q: Seq<char>, x: Package)
    ensures
        rank_all(s, q).contains(x) <==> s.contains(x),
    decreases s.len(),
{
    if s.len() > 0 {
        lemma_first_max(s, q);
        let i = first_max_idx(s, q);
        lemma_rank_all_contains(s.remove(i), q, x);
        if rank_all(s, q).contains(x) {
            let k = choose|k: int| 0 <= k < rank_all(s, q).len() && rank_all(s, q)[k] == x;
            if k == 0 {
                assert(s[i] == x);
            } else {
                assert(rank_all(s.remove(i), q)[k - 1] == x);
                assert(rank_all(s.remove(i), q).contains(x));
                lemma_remove_contains(s, i, x);
            }
        }
        if s.contains(x) {
            let k = choose|k: int| 0 <= k < s.len() && s[k] == x;
            if x == s[i] {
                assert(rank_all(s, q)[0] == x);
            } else {
                if k < i {
                    assert(s.remove(i)[k] == x);
                } else {
                    assert(s.remove(i)[k - 1] == x);
                }
                assert(s.remove(i).contains(x));
                lemma_rank_all_len(s.remove(i), q);
                let k2 = choose|k2: int|
                    0 <= k2 < rank_all(s.remove(i), q).len() && rank_all(s.remove(i), q)[k2] == x;
                assert(rank_all(s, q)[k2 + 1] == x);
            }
        }
    }
}

/// The ranked sequence is ordered: every element ranks at least as high as
/// every element after it.
pub proof fn lemma_rank_all_sorted(s: Seq<Package>, q: Seq<char>)
    ensures
        forall|i: int, j: int|
            0 <= i < j < rank_all(s, q).len() ==> ranks_geq(
                rank_all(s, q)[i],
                rank_all(s, q)[j],
                q,
            ),
    decreases s.len(),
{
    if s.len() > 0 {
        lemma_first_max(s, q);
        let im = first_max_idx(s, q);
        let rest = s.remove(im);
        lemma_rank_all_sorted(rest, q);
        lemma_rank_all_len(rest, q);
        assert forall|i: int, j: int|
            0 <= i < j < rank_all(s, q).len() implies ranks_geq(
            rank_all(s, q)[i],
            rank_all(s, q)[j],
            q,
        ) by {
            let y = rank_all(s, q)[j];
            assert(rank_all(rest, q)[j - 1] == y);
            if i == 0 {
                assert(rank_all(rest, q).contains(y));
                lemma_rank_all_contains(rest, q, y);
                lemma_remove_contains(s, im, y);
                let k = choose|k: int| 0 <= k < s.len() && s[k] == y;
                assert(ranks_geq(s[im], s[k], q));
            } else {
                assert(rank_all(rest, q)[i - 1] == rank_all(s, q)[i]);
            }
        }
    }
}

// ---------------------------------------------------------------------------
// Candidate selection and annotation.
// ---------------------------------------------------------------------------
/// `p` with the transient query fields filled in.
pub open spec fn spec_annotate_fields(p: Package, score: i64, present: Option<bool>) -> Package {
    Package {
        attribute: p.attribute,
        name: p.name,
        version: p.version,
        store_path: p.store_path,
        description: p.description,
        long_description: p.long_description,
        score: Some(score),
        present,
    }
}

/// `p` annotated for a fuzzy result: its score against the query, and —
/// unless presence filtering already guarantees it — whether its store
/// path is present on the local filesystem.
pub open spec fn spec_annotate(p: Package, q: Seq<char>, filter_built: bool, flag: bool) -> Package {
    spec_annotate_fields(
        p,
        spec_fuzzy_score(display_name(p), q),
        if filter_built {
            None
        } else {
            Some(flag)
        },
    )
}

/// Whether a stored record is a candidate at all: records without a store
/// path are always excluded, and with presence filtering on, so are records
/// whose store path is absent from the filesystem (`flag` false).
pub open spec fn spec_keep(p: Package, filter_built: bool, flag: bool) -> bool {
    p.store_path is Some && (!filter_built || flag)
}

/// The candidates of a query over the rows `rs`, in row order, annotated;
/// `flags[i]` tells whether the store path of `rs[i]` is present on the
/// filesystem.
pub open spec fn spec_candidates(
    rs: Seq<Package>,
    q: Seq<char>,
    flags: Seq<bool>,
    filter_built: bool,
) -> Seq<Package>
    decreases rs.len(),
{
    if rs.len() == 0 {
        Seq::empty()
    } else {
        let rest = spec_candidates(rs.drop_last(), q, flags.drop_last(), filter_built);
        if spec_keep(rs.last(), filter_built, flags.last()) {
            rest.push(spec_annotate(rs.last(), q, filter_built, flags.last()))
        } else {
            rest
        }
    }
}

/// Every candidate is the annotation of some kept store row.
pub proof fn lemma_candidates_membership(
    rs: Seq<Package>,
    q: Seq<char>,
    flags: Seq<bool>,
    filter_built: bool,
    x: Package,
)
    requires
        flags.len() == rs.len(),
        spec_candidates(rs, q, flags, filter_built).contains(x),
    ensures
        exists|k: int|
            0 <= k < rs.len() && #[trigger] spec_keep(rs[k], filter_built, flags[k]) && x
                == spec_annotate(rs[k], q, filter_built, flags[k]),
    decreases rs.len(),
{
    let cands = spec_candidates(rs, q, flags, filter_built);
    let rest = spec_candidates(rs.drop_last(), q, flags.drop_last(), filter_built);
    let last = rs.len() - 1;
    if spec_keep(rs[last], filter_built, flags[last]) && x == spec_annotate(
        rs[last],
        q,
        filter_built,
        flags[last],
    ) {
        assert(spec_keep(rs[last], filter_built, flags[last]));
    } else {
        assert(rest.contains(x)) by {
            let m = choose|m: int| 0 <= m < cands.len() && cands[m] == x;
            if spec_keep(rs.last(), filter_built, flags.last()) {
                assert(m < rest.len());
                assert(rest[m] == x);
            } else {
                assert(rest[m] == x);
            }
        }
        lemma_candidates_membership(rs.drop_last(), q, flags.drop_last(), filter_built, x);
        let k = choose|k: int|
            0 <= k < rs.drop_last().len() && #[trigger] spec_keep(
                rs.drop_last()[k],
                filter_built,
                flags.drop_last()[k],
            ) && x == spec_annotate(rs.drop_last()[k], q, filter_built, flags.drop_last()[k]);
        assert(rs.drop_last()[k] == rs[k] && flags.drop_last()[k] == flags[k]);
        assert(spec_keep(rs[k], filter_built, flags[k]));
    }
}

/// Every kept store row's annotation is among the candidates.
pub proof fn lemma_candidates_complete(
    rs: Seq<Package>,
    q: Seq<char>,
    flags: Seq<bool>,
    filter_built: bool,
    k: int,
)
    requires
        flags.len() == rs.len(),
        0 <= k < rs.len(),
        spec_keep(rs[k], filter_built, flags[k]),
    ensures
        spec_candidates(rs, q, flags, filter_built).contains(
            spec_annotate(rs[k], q, filter_built, flags[k]),
        ),
    decreases rs.len(),
{
    let cands = spec_candidates(rs, q, flags, filter_built);
    let rest = spec_candidates(rs.drop_last(), q, flags.drop_last(), filter_built);
    let x = spec_annotate(rs[k], q, filter_built, flags[k]);
    if k == rs.len() - 1 {
        assert(cands[rest.len() as int] == x);
    } else {
        assert(rs.drop_last()[k] == rs[k] && flags.drop_last()[k] == flags[k]);
        lemma_candidates_complete(rs.drop_last(), q, flags.drop_last(), filter_built, k);
        let m = choose|m: int| 0 <= m < rest.len() && rest[m] == x;
        assert(cands[m] == x);
    }
}

/// What a fuzzy query returns: the ranked candidates, capped at `limit`
/// after filtering and ordering, so that filtering can only reduce the
/// result set below the cap, never starve it.
pub open spec fn spec_fuzzy_results(
    rs: Seq<Package>,
    q: Seq<char>,
    limit: int,
    filter_built: bool,
    flags: Seq<bool>,
) -> Seq<Package> {
    let ranked = rank_all(spec_candidates(rs, q, flags, filter_built), q);
    if limit < ranked.len() {
        ranked.take(limit)
    } else {
        ranked
    }
}

struct RankedCandidate {
    pkg: Package,
    score: i64,
    exact: bool,
}

impl RankedCandidate {
    spec fn inv(self, q: Seq<char>) -> bool {
        self.pkg.score == Some(self.score) && self.exact == is_exact(self.pkg, q)
    }
}

spec fn cand_pkgs(s: Seq<RankedCandidate>) -> Seq<Package> {
    s.map_values(|c: RankedCandidate| c.pkg)
}

fn cand_geq(a: &RankedCandidate, b: &RankedCandidate, Ghost(q): Ghost<Seq<char>>) -> (r: bool)
    requires
        a.inv(q),
        b.inv(q),
    ensures
        r == ranks_geq(a.pkg, b.pkg, q),
{
    a.score > b.score || (a.score == b.score && (a.exact || !b.exact))
}

fn annotate(p: &Package, score: i64, present: Option<bool>) -> (r: Package)
    ensures
        r == spec_annotate_fields(*p, score, present),
{
    Package {
        attribute: p.attribute.clone(),
        name: clone_opt_string(&p.name),
        version: clone_opt_string(&p.version),
        store_path: clone_opt_string(&p.store_path),
        description: clone_opt_string(&p.description),
        long_description: clone_opt_string(&p.long_description),
        score: Some(score),
        present,
    }
}

/// Ranked fuzzy search over the store.
///
/// `present_flags[i]` reports whether the store path of row `i` exists on
/// the local filesystem; with `filter_built` set, rows whose path is absent
/// are excluded, and with it clear, every kept result carries its flag as
/// the `present` annotation.  At most `num_results` results come back,
/// capped only after filtering and ordering.
pub fn search(
    query_str: &str,
    store: &IndexStore,
    num_results: u32,
    filter_built: bool,
    present_flags: &Vec<bool>,
) -> (results: Vec<Package>)
    requires
        present_flags@.len() == store@.len(),
    ensures
        results@ == spec_fuzzy_results(
            store@,
            query_str@,
            num_results as int,
            filter_built,
            present_flags@,
        ),
{
    let records = store.records();
    let n = records.len();
    let mut cands: Vec<RankedCandidate> = Vec::new();
    let mut i: usize = 0;
    while i < n
        invariant
            n == store@.len(),
            records@ == store@,
            present_flags@.len() == store@.len(),
            0 <= i <= n,
            cand_pkgs(cands@) == spec_candidates(
                store@.take(i as int),
                query_str@,
                present_flags@.take(i as int),
                filter_built,
            ),
            forall|k: int| 0 <= k < cands@.len() ==> (#[trigger] cands@[k]).inv(query_str@),
        decreases n - i,
    {
        proof {
            assert(store@.take(i + 1).drop_last() =~= store@.take(i as int));
            assert(present_flags@.take(i + 1).drop_last() =~= present_flags@.take(i as int));
            assert(store@.take(i + 1).last() == store@[i as int]);
            assert(present_flags@.take(i + 1).last() == present_flags@[i as int]);
        }
        let rec = &records[i];
        if rec.store_path.is_some() && (!filter_built || present_flags[i]) {
            let name = rec.display_name();
            let score = scalar_fuzzy_score(name.as_str(), query_str);
            let exact = chars_eq_ci(name.as_str(), query_str);
            let present: Option<bool> = if filter_built {
                None
            } else {
                Some(present_flags[i])
            };
            let pkg = annotate(rec, score, present);
            proof {
                assert(display_name(pkg) == display_name(store@[i as int]));
                assert(pkg == spec_annotate(
                    store@[i as int],
                    query_str@,
                    filter_built,
                    present_flags@[i as int],
                ));
            }
            cands.push(RankedCandidate { pkg, score, exact });
            proof {
                assert(cand_pkgs(cands@) =~= cand_pkgs(cands@.drop_last()).push(
                    cands@.last().pkg,
                ));
            }
        }
        i = i + 1;
    }
    proof {
        assert(store@.take(n as int) =~= store@);
        assert(present_flags@.take(n as int) =~= present_flags@);
    }
    let ghost cands0 = cand_pkgs(cands@);
    let limit = num_results as usize;
    let mut out: Vec<Package> = Vec::new();
    while cands.len() > 0 && out.len() < limit
        invariant
            forall|k: int| 0 <= k < cands@.len() ==> (#[trigger] cands@[k]).inv(query_str@),
            out@.len() <= limit,
            out@.len() + cands@.len() == cands0.len(),
            rank_all(cands0, query_str@) == out@ + rank_all(cand_pkgs(cands@), query_str@),
        decreases cands@.len(),
    {
        let ghost pre = cand_pkgs(cands@);
        let mut best: usize = 0;
        let mut k: usize = 1;
        while k < cands.len()
            invariant
                forall|k2: int| 0 <= k2 < cands@.len() ==> (#[trigger] cands@[k2]).inv(query_str@),
                cands@.len() > 0,
                0 <= best < k <= cands@.len(),
                forall|j: int| 0 <= j < k ==> ranks_geq(
                    cand_pkgs(cands@)[best as int],
                    cand_pkgs(cands@)[j],
                    query_str@,
                ),
                forall|j: int| 0 <= j < best ==> !ranks_geq(
                    cand_pkgs(cands@)[j],
                    cand_pkgs(cands@)[best as int],
                    query_str@,
                ),
            decreases cands@.len() - k,
        {
            if !cand_geq(&cands[best], &cands[k], Ghost(query_str@)) {
                proof {
                    lemma_ranks_geq_total(
                        cand_pkgs(cands@)[best as int],
                        cand_pkgs(cands@)[k as int],
                        query_str@,
                    );
                    assert forall|j: int| 0 <= j < k implies !ranks_geq(
                        cand_pkgs(cands@)[j],
                        cand_pkgs(cands@)[k as int],
                        query_str@,
                    ) by {
                        if ranks_geq(cand_pkgs(cands@)[j], cand_pkgs(cands@)[k as int], query_str@) {
                            lemma_ranks_geq_trans(
                                cand_pkgs(cands@)[best as int],
                                cand_pkgs(cands@)[j],
                                cand_pkgs(cands@)[k as int],
                                query_str@,
                            );
                        }
                    }
                }
                best = k;
            }
            k = k + 1;
        }
        proof {
            lemma_first_max_unique(cand_pkgs(cands@), query_str@, best as int);
        }
        let chosen = cands.remove(best);
        out.push(chosen.pkg);
        proof {
            assert(cand_pkgs(cands@) =~= pre.remove(best as int));
            assert(out@ =~= out@.drop_last() + Seq::empty().push(chosen.pkg));
            assert(out@.drop_last() + (Seq::empty().push(chosen.pkg) + rank_all(
                pre.remove(best as int),
                query_str@,
            )) =~= (out@.drop_last() + Seq::empty().push(chosen.pkg)) + rank_all(
                pre.remove(best as int),
                query_str@,
            ));
        }
    }
    proof {
        lemma_rank_all_len(cands0, query_str@);
        if cands@.len() == 0 {
            assert(cand_pkgs(cands@) =~= Seq::<Package>::empty());
            assert(rank_all(cand_pkgs(cands@), query_str@) =~= Seq::<Package>::empty());
            assert(out@ =~= out@ + rank_all(cand_pkgs(cands@), query_str@));
            assert(out@ == rank_all(cands0, query_str@));
            assert(out@ =~= spec_fuzzy_results(
                store@,
                query_str@,
                num_results as int,
                filter_built,
                present_flags@,
            ));
        } else {
            assert(out@.len() == limit);
            lemma_rank_all_len(cand_pkgs(cands@), query_str@);
            assert(out@ =~= (out@ + rank_all(cand_pkgs(cands@), query_str@)).take(limit as int));
            assert(out@ =~= spec_fuzzy_results(
                store@,
                query_str@,
                num_results as int,
                filter_built,
                present_flags@,
            ));
        }
    }
    out
}

} // verus!
