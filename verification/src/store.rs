//! The store of package records an index build produces and queries run
//! against.
//!
//! A build is all-or-nothing: either every record is inserted and the store
//! holds exactly the given records in the given order, or a record collides
//! on the primary key, the whole build is abandoned, and no store exists —
//! a caller's previous index is left untouched.

use vstd::prelude::*;

use crate::errors::IndexError;
use crate::package::Package;

verus! {

/// Whether no two records share an attribute key.
pub open spec fn distinct_attributes(s: Seq<Package>) -> bool {
    forall|i: int, j: int| 0 <= i < j < s.len() ==> s[i].attribute@ != s[j].attribute@
}

/// Whether some record before `j` already claimed the attribute of `s[j]`,
/// so that inserting `s[j]` would violate the primary key.
pub open spec fn collides_at(s: Seq<Package>, j: int) -> bool {
    exists|i: int| 0 <= i < j && s[i].attribute@ == s[j].attribute@
}

/// An index of package records, keyed by attribute.
#[derive(Debug)]
pub struct IndexStore {
    records: Vec<Package>,
}

impl View for IndexStore {
    type V = Seq<Package>;

    closed spec fn view(&self) -> Seq<Package> {
        self.records@
    }
}

impl IndexStore {
    /// The attribute keys of a built store are unique.
    pub open spec fn wf(&self) -> bool {
        distinct_attributes(self@)
    }

    /// Inserts every record into a fresh store, in order, inside a single
    /// all-or-nothing step.  The first record whose attribute collides with
    /// an earlier one aborts the whole build, and no store is produced.
    pub fn build(records: Vec<Package>) -> (r: Result<IndexStore, IndexError>)
        ensures
            match r {
                Ok(s) => distinct_attributes(records@) && s@ == records@,
                Err(e) => !distinct_attributes(records@) && exists|j: int|
                    {
                        &&& 0 <= j < records@.len()
                        &&& #[trigger] collides_at(records@, j)
                        &&& forall|j2: int| 0 <= j2 < j ==> !collides_at(records@, j2)
                        &&& e == (IndexError::RowInsertError {
                            attribute: records@[j].attribute,
                        })
                    },
            },
    {
        let n = records.len();
        let mut j: usize = 0;
        while j < n
            invariant
                n == records@.len(),
                0 <= j <= n,
                forall|j2: int| 0 <= j2 < j ==> !collides_at(records@, j2),
            decreases n - j,
        {
            let mut i: usize = 0;
            while i < j
                invariant
                    n == records@.len(),
                    0 <= i <= j < n,
                    forall|j2: int| 0 <= j2 < j ==> !collides_at(records@, j2),
                    forall|i2: int|
                        0 <= i2 < i ==> records@[i2].attribute@ != records@[j as int].attribute@,
                decreases j - i,
            {
                if records[i].attribute == records[j].attribute {
                    proof {
                        assert(0 <= i < j < records@.len());
                        assert(records@[i as int].attribute@ == records@[j as int].attribute@);
                        assert(collides_at(records@, j as int));
                        assert(!distinct_attributes(records@));
                    }
                    return Err(
                        IndexError::RowInsertError { attribute: records[j].attribute.clone() },
                    );
                }
                i = i + 1;
            }
            assert(!collides_at(records@, j as int));
            j = j + 1;
        }
        assert(distinct_attributes(records@)) by {
            assert forall|i: int, j2: int|
                0 <= i < j2 < records@.len() implies records@[i].attribute@
                != records@[j2].attribute@ by {
                assert(!collides_at(records@, j2));
            }
        }
        Ok(IndexStore { records })
    }

    /// The stored records, in row order.
    pub fn records(&self) -> (r: &Vec<Package>)
        ensures
            r@ == self@,
    {
        &self.records
    }

    /// How many records the store holds.
    pub fn len(&self) -> (n: usize)
        ensures
            n == self@.len(),
    {
        self.records.len()
    }
}

} // verus!
