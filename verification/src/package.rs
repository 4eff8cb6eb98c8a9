//! The package model: an immutable record per package, with the subpackage
//! tree flattened to the versioned leaves. A package with no version is a
//! container whose children are resolved in its place.

use vstd::prelude::*;

use crate::config::opt_view;

verus! {

/// One package: its directory, optional current version, optional ecosystem
/// kind, optional custom hook path and optional name, and the subpackages its
/// configuration names.
pub struct Package {
    pub subpackages: Vec<Package>,
    pub version: Option<String>,
    pub language: Option<String>,
    pub custom: Option<String>,
    pub name: Option<String>,
    pub location: String,
}

/// The record a package stands for: what every caller reads of it.
#[verifier::ext_equal]
pub ghost struct PkgInfo {
    pub version: Option<Seq<char>>,
    pub language: Option<Seq<char>>,
    pub custom: Option<Seq<char>>,
    pub name: Option<Seq<char>>,
    pub location: Seq<char>,
}

/// The record of one package.
pub open spec fn info(p: Package) -> PkgInfo {
    PkgInfo {
        version: opt_view(p.version),
        language: opt_view(p.language),
        custom: opt_view(p.custom),
        name: opt_view(p.name),
        location: p.location@,
    }
}

/// The records of the versioned leaves under a package, in discovery order:
/// a package with a version stands for itself, a container for its children.
pub open spec fn spec_flatten(p: Package) -> Seq<PkgInfo>
    decreases p,
{
    if p.version is Some {
        seq![info(p)]
    } else {
        spec_flatten_list(p.subpackages@)
    }
}

/// The records of the versioned leaves of a list of packages, in order.
pub open spec fn spec_flatten_list(ps: Seq<Package>) -> Seq<PkgInfo>
    decreases ps,
{
    if ps.len() == 0 {
        Seq::empty()
    } else {
        spec_flatten(ps[0]) + spec_flatten_list(ps.skip(1))
    }
}

pub(crate) fn clone_pkg(p: &Package) -> (r: Package)
    ensures
        info(r) == info(*p),
    decreases *p,
{
    let mut subs: Vec<Package> = Vec::new();
    let mut i: usize = 0;
    while i < p.subpackages.len()
        invariant
            0 <= i <= p.subpackages@.len(),
        decreases p.subpackages@.len() - i,
    {
        let c = clone_pkg(&p.subpackages[i]);
        subs.push(c);
        i = i + 1;
    }
    let r = Package {
        subpackages: subs,
        version: match &p.version {
            Some(s) => Some(s.clone()),
            None => None,
        },
        language: match &p.language {
            Some(s) => Some(s.clone()),
            None => None,
        },
        custom: match &p.custom {
            Some(s) => Some(s.clone()),
            None => None,
        },
        name: match &p.name {
            Some(s) => Some(s.clone()),
            None => None,
        },
        location: p.location.clone(),
    };
    proof {
        assert(info(r) =~~= info(*p));
    }
    r
}

impl Clone for Package {
    /// A clone stands for the same record as the original.
    fn clone(&self) -> (r: Self)
        ensures
            info(r) == info(*self),
    {
        clone_pkg(self)
    }
}

fn flatten_ref(p: &Package) -> (r: Vec<Package>)
    ensures
        r@.map_values(|q: Package| info(q)) == spec_flatten(*p),
    decreases *p,
{
    if p.version.is_some() {
        let mut out: Vec<Package> = Vec::new();
        out.push(clone_pkg(p));
        proof {
            assert(out@.map_values(|q: Package| info(q)) =~= seq![info(*p)]);
        }
        out
    } else {
        let mut out: Vec<Package> = Vec::new();
        let n = p.subpackages.len();
        let mut i: usize = 0;
        proof {
            assert(p.subpackages@.skip(0) =~= p.subpackages@);
            assert(out@.map_values(|q: Package| info(q)) + spec_flatten_list(p.subpackages@)
                =~= spec_flatten_list(p.subpackages@));
        }
        while i < n
            invariant
                0 <= i <= n,
                n == p.subpackages@.len(),
                out@.map_values(|q: Package| info(q)) + spec_flatten_list(
                    p.subpackages@.skip(i as int),
                ) == spec_flatten_list(p.subpackages@),
            decreases n - i,
        {
            let mut leaves = flatten_ref(&p.subpackages[i]);
            let ghost pre = out@.map_values(|q: Package| info(q));
            let ghost lv = leaves@.map_values(|q: Package| info(q));
            out.append(&mut leaves);
            proof {
                let tail = p.subpackages@.skip(i as int);
                assert(tail[0] == p.subpackages@[i as int]);
                assert(tail.skip(1) =~= p.subpackages@.skip(i + 1));
                assert(out@.map_values(|q: Package| info(q)) =~= pre + lv);
                assert((pre + lv) + spec_flatten_list(p.subpackages@.skip(i + 1)) =~= pre + (lv
                    + spec_flatten_list(p.subpackages@.skip(i + 1))));
            }
            i = i + 1;
        }
        proof {
            assert(p.subpackages@.skip(n as int) =~= Seq::<Package>::empty());
            assert(out@.map_values(|q: Package| info(q)) + Seq::<PkgInfo>::empty() =~= out@.map_values(
                |q: Package| info(q),
            ));
        }
        out
    }
}

impl Package {
    /// The versioned leaves under this package, in discovery order.
    pub fn flatten(self) -> (r: Vec<Package>)
        ensures
            r@.map_values(|q: Package| info(q)) == spec_flatten(self),
    {
        flatten_ref(&self)
    }
}

} // verus!
