//! Error taxonomy for the resolution engine.
//!
//! Every fatal condition is reported through one of these variants; parsing
//! and resolution fail before any effect, never with a partial effect.

use vstd::prelude::*;

verus! {

/// A fatal error raised by the library. Each variant carries the detail a
/// caller needs to report the failure.
#[derive(Debug)]
pub enum Error {
    /// A malformed or unknown directive in a package configuration file.
    Config(String),
    /// A malformed change-request document (unknown severity or category,
    /// missing description, or a non-string value where a string is owed).
    ChangeRequestParse(String),
    /// The current package version is not a usable semantic version, or a
    /// requested prerelease channel is malformed.
    VersionFormat(String),
    /// Interactive review was requested but no editor is configured.
    MissingEditor,
    /// The package declares an ecosystem kind this library does not know.
    UnsupportedEcosystem(String),
    /// No package matched the requested location.
    PackageNotFound,
    /// No package was named and the tree holds more than one package.
    AmbiguousPackage,
}

impl Error {
    /// A human-readable description of the error.
    pub fn message(&self) -> (r: String)
        ensures
            r@ == self.spec_message(),
    {
        match self {
            Error::Config(s) => {
                let mut m = String::new();
                m.append("configuration error: ");
                m.append(s.as_str());
                m
            },
            Error::ChangeRequestParse(s) => {
                let mut m = String::new();
                m.append("changeset error: ");
                m.append(s.as_str());
                m
            },
            Error::VersionFormat(s) => {
                let mut m = String::new();
                m.append("version error: ");
                m.append(s.as_str());
                m
            },
            Error::MissingEditor => {
                let mut m = String::new();
                m.append("EDITOR must be set");
                m
            },
            Error::UnsupportedEcosystem(s) => {
                let mut m = String::new();
                m.append("unsupported language ");
                m.append(s.as_str());
                m
            },
            Error::PackageNotFound => {
                let mut m = String::new();
                m.append("could not find package");
                m
            },
            Error::AmbiguousPackage => {
                let mut m = String::new();
                m.append("no package specified and more than one package in tree");
                m
            },
        }
    }

    /// What `message` returns, variant by variant.
    pub open spec fn spec_message(&self) -> Seq<char> {
        match self {
            Error::Config(s) => "configuration error: "@ + s@,
            Error::ChangeRequestParse(s) => "changeset error: "@ + s@,
            Error::VersionFormat(s) => "version error: "@ + s@,
            Error::MissingEditor => "EDITOR must be set"@,
            Error::UnsupportedEcosystem(s) => "unsupported language "@ + s@,
            Error::PackageNotFound => "could not find package"@,
            Error::AmbiguousPackage => "no package specified and more than one package in tree"@,
        }
    }
}

} // verus!
