//! Exact lookup by attribute key.

use vstd::prelude::*;
use vstd::string::StringExecFns;

use crate::package::Package;
use crate::store::IndexStore;

verus! {

/// What an exact lookup returns: the first record filed under the query
/// attribute, unless it has no store path — such attributes stand for
/// non-installable packages and are defined as non-results even though they
/// may physically sit in a store built under an older policy.
pub open spec fn exact_result(s: Seq<Package>, q: Seq<char>) -> Option<Package>
    decreases s.len(),
{
    if s.len() == 0 {
        None
    } else if s[0].attribute@ == q {
        if s[0].store_path is Some {
            Some(s[0])
        } else {
            None
        }
    } else {
        exact_result(s.drop_first(), q)
    }
}

pub proof fn lemma_exact_result_at(s: Seq<Package>, q: Seq<char>, i: int)
    requires
        0 <= i < s.len(),
        s[i].attribute@ == q,
        forall|j: int| 0 <= j < i ==> s[j].attribute@ != q,
    ensures
        exact_result(s, q) == if s[i].store_path is Some {
            Some(s[i])
        } else {
            None::<Package>
        },
    decreases i,
{
    if i > 0 {
        lemma_exact_result_at(s.drop_first(), q, i - 1);
    }
}

pub proof fn lemma_exact_result_none(s: Seq<Package>, q: Seq<char>)
    requires
        forall|j: int| 0 <= j < s.len() ==> s[j].attribute@ != q,
    ensures
        exact_result(s, q) is None,
    decreases s.len(),
{
    if s.len() > 0 {
        lemma_exact_result_none(s.drop_first(), q);
    }
}

/// Looks the query up as an attribute key.  Returns the matching record as
/// stored, with the transient query fields untouched; a missing key and a
/// key whose record has no store path both come back empty.
pub fn search(query_str: &str, store: &IndexStore) -> (r: Option<Package>)
    ensures
        r == exact_result(store@, query_str@),
{
    let q = String::from_str(query_str);
    let records = store.records();
    let n = records.len();
    let mut i: usize = 0;
    while i < n
        invariant
            q@ == query_str@,
            n == store@.len(),
            records@ == store@,
            0 <= i <= n,
            forall|j: int| 0 <= j < i ==> store@[j].attribute@ != query_str@,
        decreases n - i,
    {
        if records[i].attribute == q {
            proof {
                lemma_exact_result_at(store@, query_str@, i as int);
            }
            if records[i].store_path.is_some() {
                return Some(records[i].clone());
            } else {
                return None;
            }
        }
        i = i + 1;
    }
    proof {
        lemma_exact_result_none(store@, query_str@);
    }
    None
}

} // verus!
