//! The semantic-version model and the resolution decision table.
//!
//! A version is `major.minor.patch` with an optional prerelease of the form
//! `<channel>.<counter>`; any other prerelease shape is rejected rather than
//! mis-parsed. Resolution takes the current version, the highest severity
//! seen across matched change-request nodes, and an optional requested
//! prerelease channel, and computes the next version by a pure decision
//! table, including prerelease-channel continuation.

use vstd::prelude::*;
use vstd::string::StrSliceExecFns;
use vstd::string::StringExecFns;

use crate::cli::SemverVersion;
use crate::error::Error;
use crate::strutil::{all_digits, digits_value, parse_u64, push_char, spec_digits, u64_string};

verus! {

/// A prerelease tag: a channel name and a numeric counter, rendered as
/// `<channel>.<counter>`.
#[derive(Debug, PartialEq, Eq)]
pub struct Pre {
    pub channel: String,
    pub counter: u64,
}

impl Clone for Pre {
    fn clone(&self) -> (r: Self)
        ensures
            r == *self,
    {
        Pre { channel: self.channel.clone(), counter: self.counter }
    }
}

/// A semantic version.
#[derive(Debug, PartialEq, Eq)]
pub struct Version {
    pub major: u64,
    pub minor: u64,
    pub patch: u64,
    pub pre: Option<Pre>,
}

impl Clone for Version {
    fn clone(&self) -> (r: Self)
        ensures
            r == *self,
    {
        Version {
            major: self.major,
            minor: self.minor,
            patch: self.patch,
            pre: match &self.pre {
                Some(p) => Some(p.clone()),
                None => None,
            },
        }
    }
}

/// The highest severity seen across the matched change-request nodes.
#[derive(Clone, Copy, PartialEq, Eq, Structural, Debug)]
pub enum Magnitude {
    NoBump,
    Patch,
    Minor,
    Major,
}

/// The outcome of a resolution: either nothing to do, or the next version.
#[derive(Debug, PartialEq, Eq)]
pub enum Resolution {
    NoChangesets,
    Next(Version),
}

/// The continued prerelease: same channel advances the counter, a different
/// channel restarts at zero.
pub open spec fn spec_cont_pre(p: Pre, q: String) -> Pre {
    if q@ == p.channel@ {
        Pre { channel: p.channel, counter: (p.counter + 1) as u64 }
    } else {
        Pre { channel: q, counter: 0 }
    }
}

/// The prerelease of a freshly bumped version: the requested channel at
/// counter zero, or none.
pub open spec fn spec_fresh_pre(ch: Option<String>) -> Option<Pre> {
    match ch {
        Some(q) => Some(Pre { channel: q, counter: 0 }),
        None => None,
    }
}

/// Whether the current version is still inside the initial prerelease window
/// for this magnitude, so that the prerelease counter advances instead of the
/// base version.
pub open spec fn continuation_gate(v: Version, mag: Magnitude, ch: Option<String>) -> bool {
    match mag {
        Magnitude::NoBump => false,
        Magnitude::Patch => v.pre is Some && ch is Some,
        Magnitude::Minor => v.patch == 0 && v.pre is Some && ch is Some,
        Magnitude::Major => v.minor == 0 && v.patch == 0 && v.pre is Some && ch is Some,
    }
}

/// The resolution decision table. `None` means "no changesets found": nothing
/// is written. Callers bound the components (see `resolve_fits`) so the
/// additions below do not wrap.
pub open spec fn spec_resolve(v: Version, mag: Magnitude, ch: Option<String>) -> Option<Version> {
    match mag {
        Magnitude::NoBump => match (v.pre, ch) {
            (Some(p), Some(q)) => if q@ == p.channel@ {
                None
            } else {
                Some(
                    Version {
                        major: v.major,
                        minor: v.minor,
                        patch: v.patch,
                        pre: Some(Pre { channel: q, counter: 0 }),
                    },
                )
            },
            (Some(p), None) => Some(
                Version { major: v.major, minor: v.minor, patch: v.patch, pre: None },
            ),
            (None, _) => None,
        },
        Magnitude::Major => match (v.pre, ch) {
            (Some(p), Some(q)) => if v.minor == 0 && v.patch == 0 {
                Some(
                    Version {
                        major: v.major,
                        minor: v.minor,
                        patch: v.patch,
                        pre: Some(spec_cont_pre(p, q)),
                    },
                )
            } else {
                Some(
                    Version {
                        major: (v.major + 1) as u64,
                        minor: 0,
                        patch: 0,
                        pre: Some(Pre { channel: q, counter: 0 }),
                    },
                )
            },
            _ => Some(
                Version { major: (v.major + 1) as u64, minor: 0, patch: 0, pre: spec_fresh_pre(ch) },
            ),
        },
        Magnitude::Minor => match (v.pre, ch) {
            (Some(p), Some(q)) => if v.patch == 0 {
                Some(
                    Version {
                        major: v.major,
                        minor: v.minor,
                        patch: v.patch,
                        pre: Some(spec_cont_pre(p, q)),
                    },
                )
            } else {
                Some(
                    Version {
                        major: v.major,
                        minor: (v.minor + 1) as u64,
                        patch: 0,
                        pre: Some(Pre { channel: q, counter: 0 }),
                    },
                )
            },
            _ => Some(
                Version {
                    major: v.major,
                    minor: (v.minor + 1) as u64,
                    patch: 0,
                    pre: spec_fresh_pre(ch),
                },
            ),
        },
        Magnitude::Patch => match (v.pre, ch) {
            (Some(p), Some(q)) => Some(
                Version {
                    major: v.major,
                    minor: v.minor,
                    patch: v.patch,
                    pre: Some(spec_cont_pre(p, q)),
                },
            ),
            _ => Some(
                Version {
                    major: v.major,
                    minor: v.minor,
                    patch: (v.patch + 1) as u64,
                    pre: spec_fresh_pre(ch),
                },
            ),
        },
    }
}

/// The machine bounds resolution needs: the component the decision table
/// increments must not already sit at `u64::MAX`.
pub open spec fn resolve_fits(v: Version, mag: Magnitude, ch: Option<String>) -> bool {
    match mag {
        Magnitude::NoBump => true,
        Magnitude::Major => if continuation_gate(v, mag, ch) {
            cont_counter_fits(v, ch)
        } else {
            v.major < u64::MAX
        },
        Magnitude::Minor => if continuation_gate(v, mag, ch) {
            cont_counter_fits(v, ch)
        } else {
            v.minor < u64::MAX
        },
        Magnitude::Patch => if continuation_gate(v, mag, ch) {
            cont_counter_fits(v, ch)
        } else {
            v.patch < u64::MAX
        },
    }
}

/// When continuing the same channel, the counter must not already sit at
/// `u64::MAX`.
pub open spec fn cont_counter_fits(v: Version, ch: Option<String>) -> bool {
    match (v.pre, ch) {
        (Some(p), Some(q)) => q@ == p.channel@ ==> p.counter < u64::MAX,
        _ => true,
    }
}

/// Computes the next version from the current version, the bump magnitude and
/// the optionally requested prerelease channel, by the decision table of
/// `spec_resolve`. Resolution is pure: no effect, same inputs give the same
/// output.
pub fn resolve(v: &Version, mag: Magnitude, ch: &Option<String>) -> (r: Resolution)
    requires
        resolve_fits(*v, mag, *ch),
    ensures
        match spec_resolve(*v, mag, *ch) {
            Some(w) => r == Resolution::Next(w),
            None => r == Resolution::NoChangesets,
        },
{
    match mag {
        Magnitude::NoBump => match (&v.pre, ch) {
            (Some(p), Some(q)) => {
                if *q == p.channel {
                    Resolution::NoChangesets
                } else {
                    Resolution::Next(
                        Version {
                            major: v.major,
                            minor: v.minor,
                            patch: v.patch,
                            pre: Some(Pre { channel: q.clone(), counter: 0 }),
                        },
                    )
                }
            },
            (Some(_), None) => Resolution::Next(
                Version { major: v.major, minor: v.minor, patch: v.patch, pre: None },
            ),
            (None, _) => Resolution::NoChangesets,
        },
        Magnitude::Major => match (&v.pre, ch) {
            (Some(p), Some(q)) => {
                if v.minor == 0 && v.patch == 0 {
                    Resolution::Next(
                        Version {
                            major: v.major,
                            minor: v.minor,
                            patch: v.patch,
                            pre: Some(cont_pre(p, q)),
                        },
                    )
                } else {
                    Resolution::Next(
                        Version {
                            major: v.major + 1,
                            minor: 0,
                            patch: 0,
                            pre: Some(Pre { channel: q.clone(), counter: 0 }),
                        },
                    )
                }
            },
            (_, ch2) => Resolution::Next(
                Version { major: v.major + 1, minor: 0, patch: 0, pre: fresh_pre(ch2) },
            ),
        },
        Magnitude::Minor => match (&v.pre, ch) {
            (Some(p), Some(q)) => {
                if v.patch == 0 {
                    Resolution::Next(
                        Version {
                            major: v.major,
                            minor: v.minor,
                            patch: v.patch,
                            pre: Some(cont_pre(p, q)),
                        },
                    )
                } else {
                    Resolution::Next(
                        Version {
                            major: v.major,
                            minor: v.minor + 1,
                            patch: 0,
                            pre: Some(Pre { channel: q.clone(), counter: 0 }),
                        },
                    )
                }
            },
            (_, ch2) => Resolution::Next(
                Version { major: v.major, minor: v.minor + 1, patch: 0, pre: fresh_pre(ch2) },
            ),
        },
        Magnitude::Patch => match (&v.pre, ch) {
            (Some(p), Some(q)) => Resolution::Next(
                Version {
                    major: v.major,
                    minor: v.minor,
                    patch: v.patch,
                    pre: Some(cont_pre(p, q)),
                },
            ),
            (_, ch2) => Resolution::Next(
                Version { major: v.major, minor: v.minor, patch: v.patch + 1, pre: fresh_pre(ch2) },
            ),
        },
    }
}

fn cont_pre(p: &Pre, q: &String) -> (r: Pre)
    requires
        q@ == p.channel@ ==> p.counter < u64::MAX,
    ensures
        r == spec_cont_pre(*p, *q),
{
    if *q == p.channel {
        Pre { channel: p.channel.clone(), counter: p.counter + 1 }
    } else {
        Pre { channel: q.clone(), counter: 0 }
    }
}

fn fresh_pre(ch: &Option<String>) -> (r: Option<Pre>)
    ensures
        r == spec_fresh_pre(*ch),
{
    match ch {
        Some(q) => Some(Pre { channel: q.clone(), counter: 0 }),
        None => None,
    }
}

/// What `semver::Version::parse` finds in a version text: major, minor and
/// patch numbers and the prerelease text, or nothing when the text is not a
/// valid semantic version. The result depends on the text alone.
pub uninterp spec fn semver_parts(s: Seq<char>) -> Option<(int, int, int, Seq<char>)>;

/// Relies on semver::Version::parse: returns the parsed major, minor and
/// patch numbers and the prerelease text, and None exactly when the text is
/// rejected.
#[verifier::external_body]
fn semver_parse(s: &str) -> (r: Option<(u64, u64, u64, String)>)
    ensures
        match r {
            Some(t) => semver_parts(s@) == Some((t.0 as int, t.1 as int, t.2 as int, t.3@)),
            None => semver_parts(s@) is None,
        },
{
    match semver::Version::parse(s) {
        Ok(v) => Some((v.major, v.minor, v.patch, v.pre.as_str().to_string())),
        Err(_) => None,
    }
}

/// The index of the first `.` in `s`, if any.
pub open spec fn first_dot(s: Seq<char>) -> Option<int>
    decreases s.len(),
{
    if s.len() == 0 {
        None
    } else if s[0] == '.' {
        Some(0)
    } else {
        match first_dot(s.skip(1)) {
            Some(i) => Some(i + 1),
            None => None,
        }
    }
}

proof fn lemma_first_dot_found(s: Seq<char>, i: int)
    requires
        0 <= i < s.len(),
        s[i] == '.',
        forall|j: int| 0 <= j < i ==> s[j] != '.',
    ensures
        first_dot(s) == Some(i),
    decreases i,
{
    if i > 0 {
        lemma_first_dot_found(s.skip(1), i - 1);
    }
}

proof fn lemma_first_dot_none(s: Seq<char>)
    requires
        forall|j: int| 0 <= j < s.len() ==> s[j] != '.',
    ensures
        first_dot(s) is None,
    decreases s.len(),
{
    if s.len() > 0 {
        lemma_first_dot_none(s.skip(1));
    }
}

/// Splits a prerelease text of the form `<channel>.<counter>`: the channel is
/// the non-empty text before the first dot, the counter the non-empty
/// all-digit text after it, small enough for a `u64`. Any other shape gives
/// nothing.
pub open spec fn spec_split_pre(p: Seq<char>) -> Option<(Seq<char>, int)> {
    match first_dot(p) {
        None => None,
        Some(i) => {
            let tail = p.skip(i + 1);
            if i > 0 && tail.len() > 0 && all_digits(tail) && digits_value(tail) <= u64::MAX {
                Some((p.subrange(0, i), digits_value(tail)))
            } else {
                None
            }
        },
    }
}

/// Splits `<channel>.<counter>`, rejecting any other prerelease shape.
fn split_pre(p: &str) -> (r: Option<(String, u64)>)
    ensures
        match r {
            Some(ck) => spec_split_pre(p@) == Some((ck.0@, ck.1 as int)),
            None => spec_split_pre(p@) is None,
        },
{
    let n = p.unicode_len();
    let mut i: usize = 0;
    while i < n && p.get_char(i) != '.'
        invariant
            0 <= i <= n,
            n == p@.len(),
            forall|j: int| 0 <= j < i ==> p@[j] != '.',
        decreases n - i,
    {
        i = i + 1;
    }
    if i == n {
        proof {
            lemma_first_dot_none(p@);
        }
        return None;
    }
    proof {
        lemma_first_dot_found(p@, i as int);
    }
    if i == 0 {
        return None;
    }
    let tail = p.substring_char(i + 1, n);
    proof {
        assert(tail@ =~= p@.skip(i + 1));
    }
    match parse_u64(tail) {
        Some(k) => {
            let channel = p.substring_char(0, i).to_owned();
            Some((channel, k))
        },
        None => None,
    }
}

/// Whether a version text parses: it is a valid semantic version and its
/// prerelease, when present, has the `<channel>.<counter>` shape.
pub open spec fn version_text_ok(s: Seq<char>) -> bool {
    match semver_parts(s) {
        None => false,
        Some(t) => t.3.len() == 0 || spec_split_pre(t.3) is Some,
    }
}

/// What the parsed version must look like, given what the semver parser
/// found.
pub open spec fn parsed_version_matches(v: Version, s: Seq<char>) -> bool {
    match semver_parts(s) {
        None => false,
        Some(t) => v.major == t.0 && v.minor == t.1 && v.patch == t.2 && (if t.3.len() == 0 {
            v.pre is None
        } else {
            match (spec_split_pre(t.3), v.pre) {
                (Some(ck), Some(p)) => p.channel@ == ck.0 && p.counter == ck.1,
                _ => false,
            }
        }),
    }
}

/// Parses a version text. Fails exactly when the text is not a valid
/// semantic version or its prerelease is not `<channel>.<counter>`.
pub fn parse_version(s: &str) -> (r: Result<Version, Error>)
    ensures
        r is Ok <==> version_text_ok(s@),
        match r {
            Ok(v) => parsed_version_matches(v, s@),
            Err(e) => e matches Error::VersionFormat(m) && (m@
                == "package version is not a valid semver version"@ || m@
                == "prerelease is not of the form <channel>.<number>"@),
        },
{
    match semver_parse(s) {
        None => Err(
            Error::VersionFormat(String::from_str("package version is not a valid semver version")),
        ),
        Some((major, minor, patch, pre)) => {
            if pre.as_str().unicode_len() == 0 {
                Ok(Version { major, minor, patch, pre: None })
            } else {
                match split_pre(pre.as_str()) {
                    Some((channel, counter)) => Ok(
                        Version { major, minor, patch, pre: Some(Pre { channel, counter }) },
                    ),
                    None => Err(
                        Error::VersionFormat(
                            String::from_str("prerelease is not of the form <channel>.<number>"),
                        ),
                    ),
                }
            }
        },
    }
}

/// The rendering of a version: `major.minor.patch`, then `-channel.counter`
/// when a prerelease is present.
pub open spec fn spec_render_version(v: Version) -> Seq<char> {
    let base = spec_digits(v.major as nat) + seq!['.'] + spec_digits(v.minor as nat) + seq!['.']
        + spec_digits(v.patch as nat);
    match v.pre {
        Some(p) => base + seq!['-'] + p.channel@ + seq!['.'] + spec_digits(p.counter as nat),
        None => base,
    }
}

/// Renders a version as text.
pub fn render_version(v: &Version) -> (r: String)
    ensures
        r@ == spec_render_version(*v),
{
    let mut s = u64_string(v.major);
    push_char(&mut s, '.');
    let minor = u64_string(v.minor);
    s.append(minor.as_str());
    push_char(&mut s, '.');
    let patch = u64_string(v.patch);
    s.append(patch.as_str());
    match &v.pre {
        Some(p) => {
            push_char(&mut s, '-');
            s.append(p.channel.as_str());
            push_char(&mut s, '.');
            let counter = u64_string(p.counter);
            s.append(counter.as_str());
            proof {
                assert(s@ =~= spec_render_version(*v));
            }
            s
        },
        None => {
            proof {
                assert(s@ =~= spec_render_version(*v));
            }
            s
        },
    }
}

/// Applies a manual bump request to the current version. A requested
/// prerelease tag that is not `<channel>.<counter>` is rejected, and a
/// component already at the machine bound cannot be bumped.
pub fn apply_manual_bump(v: &Version, b: &SemverVersion) -> (r: Result<Version, Error>)
    ensures
        match r {
            Ok(w) => {
                &&& match b {
                    SemverVersion::Major => v.major < u64::MAX && w == (Version {
                        major: (v.major + 1) as u64,
                        minor: 0,
                        patch: 0,
                        pre: None,
                    }),
                    SemverVersion::Minor => v.minor < u64::MAX && w == (Version {
                        major: v.major,
                        minor: (v.minor + 1) as u64,
                        patch: 0,
                        pre: None,
                    }),
                    SemverVersion::Patch => v.patch < u64::MAX && w == (Version {
                        major: v.major,
                        minor: v.minor,
                        patch: (v.patch + 1) as u64,
                        pre: None,
                    }),
                    SemverVersion::Prerelease(p) => w.major == v.major && w.minor == v.minor
                        && w.patch == v.patch && (spec_split_pre(p.version@) matches Some(ck)
                        && (w.pre matches Some(q) && q.channel@ == ck.0 && q.counter == ck.1)),
                }
            },
            Err(e) => {
                &&& e matches Error::VersionFormat(_)
                &&& match b {
                    SemverVersion::Major => v.major == u64::MAX,
                    SemverVersion::Minor => v.minor == u64::MAX,
                    SemverVersion::Patch => v.patch == u64::MAX,
                    SemverVersion::Prerelease(p) => spec_split_pre(p.version@) is None,
                }
            },
        },
{
    match b {
        SemverVersion::Major => {
            if v.major == u64::MAX {
                Err(Error::VersionFormat(String::from_str("version component too large to bump")))
            } else {
                Ok(Version { major: v.major + 1, minor: 0, patch: 0, pre: None })
            }
        },
        SemverVersion::Minor => {
            if v.minor == u64::MAX {
                Err(Error::VersionFormat(String::from_str("version component too large to bump")))
            } else {
                Ok(Version { major: v.major, minor: v.minor + 1, patch: 0, pre: None })
            }
        },
        SemverVersion::Patch => {
            if v.patch == u64::MAX {
                Err(Error::VersionFormat(String::from_str("version component too large to bump")))
            } else {
                Ok(Version { major: v.major, minor: v.minor, patch: v.patch + 1, pre: None })
            }
        },
        SemverVersion::Prerelease(p) => match split_pre(p.version.as_str()) {
            Some((channel, counter)) => Ok(
                Version {
                    major: v.major,
                    minor: v.minor,
                    patch: v.patch,
                    pre: Some(Pre { channel, counter }),
                },
            ),
            None => Err(
                Error::VersionFormat(
                    String::from_str("prerelease is not of the form <channel>.<number>"),
                ),
            ),
        },
    }
}

} // verus!

