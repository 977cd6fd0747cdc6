//! The canonical package record and its persistent schema.

use vstd::prelude::*;

verus! {

/// A normalized package record.
///
/// `attribute` is the unique registry key and the primary key of the index.
/// `store_path` is the primary installable output path; a record without one
/// stands for a non-installable attribute and is never returned by a query.
/// `score` and `present` are transient query-time annotations: they are never
/// persisted, and the index build leaves them unset.
#[derive(Debug, PartialEq, Eq)]
pub struct Package {
    pub attribute: String,
    pub name: Option<String>,
    pub version: Option<String>,
    pub store_path: Option<String>,
    pub description: Option<String>,
    pub long_description: Option<String>,
    pub score: Option<i64>,
    pub present: Option<bool>,
}

/// The name a fuzzy query is matched against: the record's reported name
/// when one is present, otherwise its attribute key.
pub open spec fn display_name(p: Package) -> Seq<char> {
    match p.name {
        Some(n) => n@,
        None => p.attribute@,
    }
}

pub(crate) fn clone_opt_string(s: &Option<String>) -> (r: Option<String>)
    ensures
        r == *s,
{
    match s {
        Some(v) => Some(v.clone()),
        None => None,
    }
}

impl Clone for Package {
    fn clone(&self) -> (r: Self)
        ensures
            r == *self,
    {
        Package {
            attribute: self.attribute.clone(),
            name: clone_opt_string(&self.name),
            version: clone_opt_string(&self.version),
            store_path: clone_opt_string(&self.store_path),
            description: clone_opt_string(&self.description),
            long_description: clone_opt_string(&self.long_description),
            score: self.score,
            present: self.present,
        }
    }
}

impl Package {
    /// The exec counterpart of [`display_name`].
    pub fn display_name(&self) -> (r: &String)
        ensures
            r@ == display_name(*self),
    {
        match &self.name {
            Some(n) => n,
            None => &self.attribute,
        }
    }

    /// The statement creating the `packages` table.  This column set is the
    /// durable file-format contract: every column is text, every column but
    /// the primary key is nullable, and the transient query-time fields have
    /// no column at all.
    pub fn create_table() -> (r: &'static str)
        ensures
            r@ == ("CREATE TABLE packages (\n    attribute TEXT NOT NULL,\n    store_path TEXT,\n    name TEXT,\n    version TEXT,\n    description TEXT,\n    long_description TEXT,\n    PRIMARY KEY (attribute)\n)")@,
    {
        "CREATE TABLE packages (\n    attribute TEXT NOT NULL,\n    store_path TEXT,\n    name TEXT,\n    version TEXT,\n    description TEXT,\n    long_description TEXT,\n    PRIMARY KEY (attribute)\n)"
    }
}

} // verus!
