//! Plain data types for the command-line surface. Argument parsing itself is
//! I/O and lives outside the library; these types carry the parsed requests.

use vstd::prelude::*;

verus! {

/// A parsed invocation.
pub struct Cli {
    pub command: Command,
}

/// The commands the tool understands.
pub enum Command {
    /// Show current package versions.
    Version,
    /// Bump package versions from changesets and generate changelog entries.
    Changeset { package: Option<String>, pre: Option<String>, yes: bool },
    /// Record a new changeset.
    Add {
        bump: SemverVersionAdd,
        package: Option<String>,
        change_type: Option<String>,
        message: Option<String>,
    },
    /// Manually bump a package version.
    Bump {
        semver_version: Option<SemverVersion>,
        custom_version: Option<String>,
        package: Option<String>,
    },
    /// List supported ecosystem kinds.
    ListLanguages,
}

/// A manual semantic-version bump request.
pub enum SemverVersion {
    Major,
    Minor,
    Patch,
    Prerelease(Prerelease),
}

/// The bump magnitude recorded by a new changeset.
#[derive(Clone, Copy, PartialEq, Eq, Structural, Debug)]
pub enum SemverVersionAdd {
    Major,
    Minor,
    Patch,
}

/// A requested prerelease tag, as written on the command line.
pub struct Prerelease {
    pub version: String,
}

} // verus!
