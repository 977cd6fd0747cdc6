//! Raw registry entries and their normalization into canonical records.
//!
//! A raw entry is the loosely-typed description a registry evaluation
//! yields for one attribute.  Normalization is a pure function from a raw
//! entry and its attribute key to a [`Package`]; a build skips entries
//! whose outputs hold no primary `out` path, since such attributes are not
//! installable.

use vstd::prelude::*;
use vstd::string::StringExecFns;

use crate::errors::IndexError;
use crate::package::Package;

verus! {

/// A raw field that may arrive either as a single value or as a list.
#[derive(Debug)]
pub enum OneOrList<T> {
    One(T),
    List(Vec<T>),
}

impl<T> OneOrList<T> {
    /// The canonical scalar of the field: the value itself, or the first
    /// element of the list, if any.
    pub open spec fn spec_scalar(self) -> Option<T> {
        match self {
            OneOrList::One(t) => Some(t),
            OneOrList::List(v) => if v@.len() > 0 {
                Some(v@[0])
            } else {
                None
            },
        }
    }

    /// Resolves the one-or-many ambiguity once, during normalization.
    pub fn into_scalar(self) -> (r: Option<T>)
        ensures
            r == self.spec_scalar(),
    {
        match self {
            OneOrList::One(t) => Some(t),
            OneOrList::List(v) => {
                let mut v = v;
                if v.len() > 0 {
                    Some(v.remove(0))
                } else {
                    None
                }
            },
        }
    }
}

/// An opaque license value, carried through from the raw registry without
/// ever being inspected.
#[verifier::external_type_specification]
#[verifier::external_body]
pub struct ExValue(serde_json::Value);

/// The metadata block of a raw registry entry.  Every field may be absent.
#[derive(Debug)]
pub struct PackageMeta {
    pub available: Option<bool>,
    pub broken: bool,
    pub description: Option<String>,
    pub homepage: Option<OneOrList<String>>,
    pub insecure: bool,
    pub license: Option<serde_json::Value>,
    pub long_description: Option<String>,
    pub unfree: bool,
    pub unsupported: bool,
}

/// A raw package description, as one attribute of the registry mapping.
#[derive(Debug)]
pub struct PackageInfo {
    pub pname: Option<String>,
    pub version: Option<String>,
    pub meta: Option<PackageMeta>,
    pub store_paths: Option<Vec<(String, String)>>,
}

/// The first path registered under the output name `out`, if any.
pub open spec fn spec_lookup_out(outs: Seq<(String, String)>) -> Option<String>
    decreases outs.len(),
{
    if outs.len() == 0 {
        None
    } else if outs[0].0@ == ("out")@ {
        Some(outs[0].1)
    } else {
        spec_lookup_out(outs.drop_first())
    }
}

/// The canonical record for the raw entry `info` filed under `attribute`.
pub open spec fn spec_normalize(info: PackageInfo, attribute: String) -> Package {
    Package {
        name: match info.pname {
            Some(n) => if n@.len() > 0 {
                Some(n)
            } else {
                Some(attribute)
            },
            None => Some(attribute),
        },
        version: info.version,
        store_path: match info.store_paths {
            Some(outs) => spec_lookup_out(outs@),
            None => None,
        },
        description: match info.meta {
            Some(m) => m.description,
            None => None,
        },
        long_description: match info.meta {
            Some(m) => m.long_description,
            None => None,
        },
        attribute,
        score: None,
        present: None,
    }
}

proof fn lemma_lookup_out_at(outs: Seq<(String, String)>, i: int)
    requires
        0 <= i < outs.len(),
        outs[i].0@ == ("out")@,
        forall|j: int| 0 <= j < i ==> outs[j].0@ != ("out")@,
    ensures
        spec_lookup_out(outs) == Some(outs[i].1),
    decreases i,
{
    if i > 0 {
        lemma_lookup_out_at(outs.drop_first(), i - 1);
    }
}

proof fn lemma_lookup_out_none(outs: Seq<(String, String)>)
    requires
        forall|j: int| 0 <= j < outs.len() ==> outs[j].0@ != ("out")@,
    ensures
        spec_lookup_out(outs) is None,
    decreases outs.len(),
{
    if outs.len() > 0 {
        lemma_lookup_out_none(outs.drop_first());
    }
}

fn lookup_out(outs: Vec<(String, String)>) -> (r: Option<String>)
    ensures
        r == spec_lookup_out(outs@),
{
    let key = String::from_str("out");
    let mut rest = outs;
    let mut i: usize = 0;
    while i < rest.len()
        invariant
            key@ == ("out")@,
            rest@ == outs@,
            0 <= i <= rest@.len(),
            forall|j: int| 0 <= j < i ==> rest@[j].0@ != ("out")@,
        decreases rest@.len() - i,
    {
        if rest[i].0 == key {
            proof {
                lemma_lookup_out_at(outs@, i as int);
            }
            let pair = rest.remove(i);
            return Some(pair.1);
        }
        i = i + 1;
    }
    proof {
        lemma_lookup_out_none(outs@);
    }
    None
}

impl PackageInfo {
    /// Normalizes this raw entry into the canonical record for `attribute`:
    /// the name falls back to the attribute key when no name is reported or
    /// the reported one is empty, the primary `out` output becomes the store
    /// path, the descriptions are copied verbatim, and the transient query
    /// fields are left unset.  Defaulting absorbs every missing field, so
    /// normalization never fails.
    pub fn into_rippkgs_package(self, attribute: String) -> (r: Package)
        ensures
            r == spec_normalize(self, attribute),
    {
        let name = match self.pname {
            Some(n) => if n.as_str().is_empty() {
                Some(attribute.clone())
            } else {
                Some(n)
            },
            None => Some(attribute.clone()),
        };
        let store_path = match self.store_paths {
            Some(outs) => lookup_out(outs),
            None => None,
        };
        let (description, long_description) = match self.meta {
            Some(m) => (m.description, m.long_description),
            None => (None, None),
        };
        Package {
            attribute,
            name,
            version: self.version,
            store_path,
            description,
            long_description,
            score: None,
            present: None,
        }
    }
}

/// The records a registry normalizes to, in registry order, with the
/// non-installable entries (no `out` output) skipped.
pub open spec fn spec_normalize_registry(entries: Seq<(String, PackageInfo)>) -> Seq<Package>
    decreases entries.len(),
{
    if entries.len() == 0 {
        Seq::empty()
    } else {
        let rest = spec_normalize_registry(entries.drop_last());
        let p = spec_normalize(entries.last().1, entries.last().0);
        if p.store_path is Some {
            rest.push(p)
        } else {
            rest
        }
    }
}

/// Normalizes a whole registry, skipping entries without an `out` output.
pub fn normalize_registry(entries: Vec<(String, PackageInfo)>) -> (r: Vec<Package>)
    ensures
        r@ == spec_normalize_registry(entries@),
{
    let ghost all = entries@;
    proof {
        assert(all.len() == entries.len());
    }
    let mut rest = entries;
    let mut out: Vec<Package> = Vec::new();
    let mut i: usize = 0;
    while rest.len() > 0
        invariant
            all.len() <= usize::MAX,
            0 <= i <= all.len(),
            rest@ == all.skip(i as int),
            out@ == spec_normalize_registry(all.take(i as int)),
        decreases rest@.len(),
    {
        let (attribute, info) = rest.remove(0);
        let p = info.into_rippkgs_package(attribute);
        proof {
            assert(all.take(i + 1).drop_last() =~= all.take(i as int));
            assert(all.take(i + 1).last() == all[i as int]);
        }
        if p.store_path.is_some() {
            out.push(p);
        }
        i = i + 1;
        proof {
            assert(rest@ =~= all.skip(i as int));
        }
    }
    proof {
        assert(all.take(i as int) =~= all);
    }
    out
}

/// Where the raw registry comes from.
#[derive(Debug, PartialEq, Eq)]
pub enum RegistrySource {
    /// Evaluate the registry from the live source `nixpkgs`, optionally
    /// caching the raw bytes at `cache`.
    Evaluate { nixpkgs: String, cache: Option<String> },
    /// Read a previously cached raw dump verbatim.
    Cached { path: String },
}

/// Decides where the raw registry is read from: a live source wins, a cached
/// dump serves as fallback, and with neither the build cannot proceed.
pub fn select_source(nixpkgs: Option<String>, registry: Option<String>) -> (r: Result<
    RegistrySource,
    IndexError,
>)
    ensures
        nixpkgs is Some ==> r == Ok::<RegistrySource, IndexError>(
            RegistrySource::Evaluate { nixpkgs: nixpkgs.unwrap(), cache: registry },
        ),
        nixpkgs is None && registry is Some ==> r == Ok::<RegistrySource, IndexError>(
            RegistrySource::Cached { path: registry.unwrap() },
        ),
        nixpkgs is None && registry is None ==> r == Err::<RegistrySource, IndexError>(
            IndexError::MissingSource,
        ),
{
    match nixpkgs {
        Some(n) => Ok(RegistrySource::Evaluate { nixpkgs: n, cache: registry }),
        None => match registry {
            Some(p) => Ok(RegistrySource::Cached { path: p }),
            None => Err(IndexError::MissingSource),
        },
    }
}

/// The arguments the registry evaluator is invoked with: they select JSON
/// output and impure evaluation, put the source on the search path, and
/// apply the registry-generating expression to a package set imported with
/// the given configuration (`{}` when none is given).
pub fn eval_args(nixpkgs: &str, registry_expr: &str, nixpkgs_config: Option<&str>) -> (args: Vec<
    String,
>)
    ensures
        args@.len() == 9,
        args@[0]@ == ("eval")@,
        args@[1]@ == ("--impure")@,
        args@[2]@ == ("--json")@,
        args@[3]@ == ("-I")@,
        args@[4]@ == ("nixpkgs=")@ + nixpkgs@,
        args@[5]@ == ("--expr")@,
        args@[6]@ == registry_expr@,
        args@[7]@ == ("--apply")@,
        args@[8]@ == ("genRegistry:\n\nlet pkgs = import <nixpkgs> { config = ")@ + (match nixpkgs_config {
            Some(c) => c@,
            None => ("{}")@,
        }) + ("; };\n    genRegistry' = genRegistry pkgs;\nin genRegistry' pkgs\n")@,
{
    let config: &str = match nixpkgs_config {
        Some(c) => c,
        None => "{}",
    };
    let apply_arg = String::from_str("genRegistry:\n\nlet pkgs = import <nixpkgs> { config = ")
        .concat(config)
        .concat("; };\n    genRegistry' = genRegistry pkgs;\nin genRegistry' pkgs\n");
    let include_arg = String::from_str("nixpkgs=").concat(nixpkgs);
    let mut args: Vec<String> = Vec::new();
    args.push(String::from_str("eval"));
    args.push(String::from_str("--impure"));
    args.push(String::from_str("--json"));
    args.push(String::from_str("-I"));
    args.push(include_arg);
    args.push(String::from_str("--expr"));
    args.push(String::from_str(registry_expr));
    args.push(String::from_str("--apply"));
    args.push(apply_arg);
    args
}

} // verus!
