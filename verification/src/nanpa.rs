//! The resolution engine: the package set of one invocation, target
//! selection, the review gate's decision, the first line of a new
//! change-request document, and the pure resolution pipeline from classified
//! changes to the next version and its rendered changelog section.

use vstd::prelude::*;
use vstd::string::StrSliceExecFns;
use vstd::string::StringExecFns;

use crate::changelog::{empty_buckets, spec_push, spec_section, Buckets, Changelog};
use crate::changeset::{severities_of, spec_mag_of, Change};
use crate::cli::SemverVersionAdd;
use crate::error::Error;
use crate::package::{clone_pkg, info, spec_flatten, Package, PkgInfo};
use crate::strutil::{all_ws, is_blank, str_eq};
use crate::version::{
    parse_version, parsed_version_matches, render_version, resolve, resolve_fits,
    spec_render_version, spec_resolve, version_text_ok, Magnitude, Resolution, Version,
};

verus! {

/// The versioned packages of one invocation.
pub struct Nanpa {
    packages: Vec<Package>,
}

impl View for Nanpa {
    type V = Seq<PkgInfo>;

    closed spec fn view(&self) -> Seq<PkgInfo> {
        self.packages@.map_values(|q: Package| info(q))
    }
}

/// The first index whose record sits at `loc`, if any.
pub open spec fn spec_find(s: Seq<PkgInfo>, loc: Seq<char>) -> Option<int>
    decreases s.len(),
{
    if s.len() == 0 {
        None
    } else if s[0].location == loc {
        Some(0)
    } else {
        match spec_find(s.skip(1), loc) {
            Some(i) => Some(i + 1),
            None => None,
        }
    }
}

proof fn lemma_find_found(s: Seq<PkgInfo>, loc: Seq<char>, i: int)
    requires
        0 <= i < s.len(),
        s[i].location == loc,
        forall|j: int| 0 <= j < i ==> s[j].location != loc,
    ensures
        spec_find(s, loc) == Some(i),
    decreases i,
{
    if i > 0 {
        lemma_find_found(s.skip(1), loc, i - 1);
    }
}

proof fn lemma_find_none(s: Seq<PkgInfo>, loc: Seq<char>)
    requires
        forall|j: int| 0 <= j < s.len() ==> s[j].location != loc,
    ensures
        spec_find(s, loc) is None,
    decreases s.len(),
{
    if s.len() > 0 {
        lemma_find_none(s.skip(1), loc);
    }
}

impl Nanpa {
    /// Gathers the versioned leaf packages under the root package.
    pub fn new(root: Package) -> (r: Nanpa)
        ensures
            r@ == spec_flatten(root),
    {
        Nanpa { packages: root.flatten() }
    }

    /// Every package, keyed by its location.
    pub fn packages(&self) -> (r: Vec<(String, Package)>)
        ensures
            r@.len() == self@.len(),
            forall|i: int|
                0 <= i < r@.len() ==> (#[trigger] r@[i]).0@ == self@[i].location && info(r@[i].1)
                    == self@[i],
    {
        let mut out: Vec<(String, Package)> = Vec::new();
        let mut i: usize = 0;
        while i < self.packages.len()
            invariant
                0 <= i <= self.packages@.len(),
                out@.len() == i,
                forall|j: int|
                    0 <= j < i ==> (#[trigger] out@[j]).0@ == self@[j].location && info(out@[j].1)
                        == self@[j],
        decreases self.packages@.len() - i,
        {
            let p = &self.packages[i];
            out.push((p.location.clone(), clone_pkg(p)));
            i = i + 1;
        }
        out
    }

    fn find_index(&self, loc: &String) -> (r: Option<usize>)
        ensures
            match r {
                Some(i) => (i as int) < self@.len() && spec_find(self@, loc@) == Some(i as int)
                    && self@.len() == self.packages@.len(),
                None => spec_find(self@, loc@) is None,
            },
    {
        let mut i: usize = 0;
        while i < self.packages.len()
            invariant
                0 <= i <= self.packages@.len(),
                forall|j: int| 0 <= j < i ==> (#[trigger] self@[j]).location != loc@,
            decreases self.packages@.len() - i,
        {
            if str_eq(self.packages[i].location.as_str(), loc.as_str()) {
                proof {
                    lemma_find_found(self@, loc@, i as int);
                }
                return Some(i);
            }
            i = i + 1;
        }
        proof {
            lemma_find_none(self@, loc@);
        }
        None
    }

    /// Selects the one target package of a manual bump: the requested
    /// location, or the sole package when it sits at the root; anything else
    /// is an error.
    pub fn select_one(&self, requested: &Option<String>, root: &String) -> (r: Result<
        Package,
        Error,
    >)
        ensures
            match requested {
                Some(q) => match spec_find(self@, q@) {
                    Some(i) => r matches Ok(p) && info(p) == self@[i],
                    None => r matches Err(e) && e is PackageNotFound,
                },
                None => if self@.len() == 1 && self@[0].location == root@ {
                    r matches Ok(p) && info(p) == self@[0]
                } else {
                    r matches Err(e) && e is AmbiguousPackage
                },
            },
    {
        match requested {
            Some(q) => match self.find_index(q) {
                Some(i) => {
                    let p = clone_pkg(&self.packages[i]);
                    proof {
                        assert(self@[i as int] == info(self.packages@[i as int]));
                    }
                    Ok(p)
                },
                None => Err(Error::PackageNotFound),
            },
            None => {
                if self.packages.len() == 1 && str_eq(
                    self.packages[0].location.as_str(),
                    root.as_str(),
                ) {
                    let p = clone_pkg(&self.packages[0]);
                    proof {
                        assert(self@[0] == info(self.packages@[0]));
                    }
                    Ok(p)
                } else {
                    proof {
                        assert(self@.len() == self.packages@.len());
                        if self@.len() == 1 {
                            assert(self@[0] == info(self.packages@[0]));
                        }
                    }
                    Err(Error::AmbiguousPackage)
                }
            },
        }
    }

    /// Selects the targets of a changeset resolution: the requested location,
    /// the sole package when it sits at the root, or every package in turn.
    pub fn select_for_changesets(&self, requested: &Option<String>, root: &String) -> (r: Result<
        Vec<Package>,
        Error,
    >)
        ensures
            match requested {
                Some(q) => match spec_find(self@, q@) {
                    Some(i) => r matches Ok(v) && v@.len() == 1 && info(v@[0]) == self@[i],
                    None => r matches Err(e) && e is PackageNotFound,
                },
                None => if self@.len() == 1 && self@[0].location == root@ {
                    r matches Ok(v) && v@.len() == 1 && info(v@[0]) == self@[0]
                } else {
                    r matches Ok(v) && v@.map_values(|q: Package| info(q)) == self@
                },
            },
    {
        match requested {
            Some(q) => match self.find_index(q) {
                Some(i) => {
                    let mut v: Vec<Package> = Vec::new();
                    v.push(clone_pkg(&self.packages[i]));
                    proof {
                        assert(self@[i as int] == info(self.packages@[i as int]));
                    }
                    Ok(v)
                },
                None => Err(Error::PackageNotFound),
            },
            None => {
                if self.packages.len() == 1 && str_eq(
                    self.packages[0].location.as_str(),
                    root.as_str(),
                ) {
                    let mut v: Vec<Package> = Vec::new();
                    v.push(clone_pkg(&self.packages[0]));
                    proof {
                        assert(self@[0] == info(self.packages@[0]));
                    }
                    Ok(v)
                } else {
                    proof {
                        assert(self@.len() == self.packages@.len());
                        if self@.len() == 1 {
                            assert(self@[0] == info(self.packages@[0]));
                        }
                    }
                    let mut v: Vec<Package> = Vec::new();
                    let mut i: usize = 0;
                    while i < self.packages.len()
                        invariant
                            0 <= i <= self.packages@.len(),
                            v@.len() == i,
                            forall|j: int| 0 <= j < i ==> info(#[trigger] v@[j]) == self@[j],
                        decreases self.packages@.len() - i,
                    {
                        v.push(clone_pkg(&self.packages[i]));
                        i = i + 1;
                    }
                    proof {
                        assert(v@.map_values(|q: Package| info(q)) =~= self@);
                    }
                    Ok(v)
                }
            },
        }
    }

    /// The first line of a new change-request document: the severity keyword,
    /// the optional package scope, the category and the message.
    pub fn add(
        &self,
        package: Option<String>,
        bump: SemverVersionAdd,
        change_type: Option<String>,
        message: Option<String>,
    ) -> (r: String)
        ensures
            r@ == spec_initial_changeset(bump, opt_seq(package), opt_seq(change_type), opt_seq(message)),
    {
        let mut s = match bump {
            SemverVersionAdd::Major => String::from_str("major "),
            SemverVersionAdd::Minor => String::from_str("minor "),
            SemverVersionAdd::Patch => String::from_str("patch "),
        };
        match &package {
            Some(p) => {
                s.append("package=\"");
                s.append(p.as_str());
                s.append("\" ");
            },
            None => {},
        }
        s.append("type=\"");
        match &change_type {
            Some(c) => {
                s.append(c.as_str());
            },
            None => {},
        }
        s.append("\" \"");
        match &message {
            Some(m) => {
                s.append(m.as_str());
            },
            None => {},
        }
        s.append("\"");
        proof {
            assert(s@ =~= spec_initial_changeset(
                bump,
                opt_seq(package),
                opt_seq(change_type),
                opt_seq(message),
            ));
        }
        s
    }
}

/// Gathers the versioned leaf packages under the root package.
pub fn new(root: Package) -> (r: Nanpa)
    ensures
        r@ == spec_flatten(root),
{
    Nanpa::new(root)
}

pub open spec fn opt_seq(o: Option<String>) -> Option<Seq<char>> {
    match o {
        Some(s) => Some(s@),
        None => None,
    }
}

/// The first line of a new change-request document.
pub open spec fn spec_initial_changeset(
    bump: SemverVersionAdd,
    package: Option<Seq<char>>,
    change_type: Option<Seq<char>>,
    message: Option<Seq<char>>,
) -> Seq<char> {
    (match bump {
        SemverVersionAdd::Major => "major "@,
        SemverVersionAdd::Minor => "minor "@,
        SemverVersionAdd::Patch => "patch "@,
    }) + (match package {
        Some(p) => "package=\""@ + p + "\" "@,
        None => Seq::empty(),
    }) + "type=\""@ + (match change_type {
        Some(c) => c,
        None => Seq::empty(),
    }) + "\" \""@ + (match message {
        Some(m) => m,
        None => Seq::empty(),
    }) + "\""@
}

/// The review gate's decision: the edited section is committed only when the
/// editor exited cleanly and left more than whitespace. Anything else is a
/// clean no-op: no write, no deletion, no error.
pub fn review_accepts(edited: &str, editor_ok: bool) -> (r: bool)
    ensures
        r == (editor_ok && !all_ws(edited@)),
{
    editor_ok && !is_blank(edited)
}

/// Whether a requested prerelease channel is usable: non-empty, without a
/// dot, so that `<channel>.<counter>` parses back unambiguously.
pub open spec fn channel_ok(ch: Option<String>) -> bool {
    match ch {
        Some(q) => q@.len() > 0 && (forall|i: int| 0 <= i < q@.len() ==> q@[i] != '.'),
        None => true,
    }
}

#[verifier::loop_isolation(false)]
fn channel_ok_exec(ch: &Option<String>) -> (r: bool)
    ensures
        r == channel_ok(*ch),
{
    match ch {
        None => true,
        Some(q) => {
            let s = q.as_str();
            let n = s.unicode_len();
            if n == 0 {
                return false;
            }
            let mut i: usize = 0;
            while i < n
                invariant
                    0 <= i <= n,
                    n >= 1,
                    n == q@.len(),
                    s@ == q@,
                    forall|j: int| 0 <= j < i ==> q@[j] != '.',
                decreases n - i,
            {
                if s.get_char(i) == '.' {
                    return false;
                }
                i = i + 1;
            }
            true
        },
    }
}

fn resolve_fits_exec(v: &Version, mag: Magnitude, ch: &Option<String>) -> (r: bool)
    ensures
        r == resolve_fits(*v, mag, *ch),
{
    let gate = match mag {
        Magnitude::NoBump => false,
        Magnitude::Patch => v.pre.is_some() && ch.is_some(),
        Magnitude::Minor => v.patch == 0 && v.pre.is_some() && ch.is_some(),
        Magnitude::Major => v.minor == 0 && v.patch == 0 && v.pre.is_some() && ch.is_some(),
    };
    if gate {
        match (&v.pre, ch) {
            (Some(p), Some(q)) => {
                if *q == p.channel {
                    p.counter < u64::MAX
                } else {
                    true
                }
            },
            _ => true,
        }
    } else {
        match mag {
            Magnitude::NoBump => true,
            Magnitude::Major => v.major < u64::MAX,
            Magnitude::Minor => v.minor < u64::MAX,
            Magnitude::Patch => v.patch < u64::MAX,
        }
    }
}

/// The buckets of a sequence of classified changes, in order.
pub open spec fn spec_buckets_of(cs: Seq<Change>) -> Buckets
    decreases cs.len(),
{
    if cs.len() == 0 {
        empty_buckets()
    } else {
        spec_push(spec_buckets_of(cs.drop_last()), cs.last().category, cs.last().description@)
    }
}

/// What one resolution decides: nothing to do, or the next version with its
/// rendered text and changelog section.
pub enum Plan {
    NoChangesets,
    Bump { version: Version, rendered: String, section: String },
}

/// The pure resolution pipeline for one package: from the current version
/// text, the classified changes, the optional requested channel and the date,
/// to the decision of `spec_resolve` together with the rendered next version
/// and its changelog section. Fails only on a malformed channel or version
/// text, or a version component already at the machine bound.
pub fn plan_resolution(
    current: &str,
    changes: &Vec<Change>,
    channel: &Option<String>,
    date: &String,
) -> (r: Result<Plan, Error>)
    ensures
        r is Ok ==> channel_ok(*channel) && version_text_ok(current@),
        match r {
            Ok(p) => match p {
                Plan::NoChangesets => exists|v: Version|
                    #[trigger] parsed_version_matches(v, current@) && spec_resolve(
                        v,
                        spec_mag_of(severities_of(changes@)),
                        *channel,
                    ) is None,
                Plan::Bump { version, rendered, section } => {
                    &&& exists|v: Version|
                        #[trigger] parsed_version_matches(v, current@) && resolve_fits(
                            v,
                            spec_mag_of(severities_of(changes@)),
                            *channel,
                        ) && spec_resolve(v, spec_mag_of(severities_of(changes@)), *channel)
                            == Some(version)
                    &&& rendered@ == spec_render_version(version)
                    &&& section@ == spec_section(
                        spec_render_version(version),
                        date@,
                        spec_buckets_of(changes@),
                    )
                },
            },
            Err(e) => {
                &&& e matches Error::VersionFormat(_)
                &&& (!channel_ok(*channel) || !version_text_ok(current@) || exists|v: Version|
                    #[trigger] parsed_version_matches(v, current@) && !resolve_fits(
                        v,
                        spec_mag_of(severities_of(changes@)),
                        *channel,
                    ))
            },
        },
{
    if !channel_ok_exec(channel) {
        return Err(
            Error::VersionFormat(
                String::from_str("prerelease channel must be non-empty and contain no dot"),
            ),
        );
    }
    let v = match parse_version(current) {
        Ok(v) => v,
        Err(e) => {
            return Err(e);
        },
    };
    let mag = crate::changeset::max_severity(changes);
    if !resolve_fits_exec(&v, mag, channel) {
        proof {
            assert(parsed_version_matches(v, current@) && !resolve_fits(
                v,
                spec_mag_of(severities_of(changes@)),
                *channel,
            ));
        }
        return Err(
            Error::VersionFormat(String::from_str("version component too large to bump")),
        );
    }
    match resolve(&v, mag, channel) {
        Resolution::NoChangesets => {
            proof {
                assert(parsed_version_matches(v, current@) && spec_resolve(
                    v,
                    spec_mag_of(severities_of(changes@)),
                    *channel,
                ) is None);
            }
            Ok(Plan::NoChangesets)
        },
        Resolution::Next(w) => {
            let rendered = render_version(&w);
            let mut chl = Changelog::new();
            let mut i: usize = 0;
            while i < changes.len()
                invariant
                    0 <= i <= changes@.len(),
                    chl@ == spec_buckets_of(changes@.subrange(0, i as int)),
                decreases changes@.len() - i,
            {
                proof {
                    assert(changes@.subrange(0, i + 1).drop_last() =~= changes@.subrange(
                        0,
                        i as int,
                    ));
                    assert(changes@.subrange(0, i + 1).last() == changes@[i as int]);
                }
                chl.push(&changes[i]);
                i = i + 1;
            }
            proof {
                assert(changes@.subrange(0, changes@.len() as int) =~= changes@);
            }
            let section = chl.markdown(&rendered, date);
            proof {
                assert(parsed_version_matches(v, current@) && resolve_fits(
                    v,
                    spec_mag_of(severities_of(changes@)),
                    *channel,
                ) && spec_resolve(v, spec_mag_of(severities_of(changes@)), *channel) == Some(w));
            }
            Ok(Plan::Bump { version: w, rendered, section })
        },
    }
}

} // verus!
