//! The ecosystem kinds whose native manifests an updater exists for. The
//! updaters themselves rewrite foreign manifest files and live outside the
//! library; this module decides which updater a declared kind names, and
//! rejects unsupported kinds by name.

use vstd::prelude::*;
use vstd::string::StringExecFns;

use crate::error::Error;
use crate::strutil::str_eq;

verus! {

/// A supported ecosystem kind.
#[derive(Clone, Copy, PartialEq, Eq, Structural, Debug)]
pub enum Ecosystem {
    Cargo,
    Node,
}

/// The ecosystem a declared kind names, if any: `cargo`/`rust`, or
/// `node`/`javascript`/`js`/`typescript`/`ts`.
pub open spec fn spec_ecosystem(s: Seq<char>) -> Option<Ecosystem> {
    if s == "cargo"@ || s == "rust"@ {
        Some(Ecosystem::Cargo)
    } else if s == "node"@ || s == "javascript"@ || s == "js"@ || s == "typescript"@ || s == "ts"@ {
        Some(Ecosystem::Node)
    } else {
        None
    }
}

/// Decides which ecosystem updater the declared kind names. An unsupported
/// kind is a fatal error naming the identifier.
pub fn run_language(language: &String) -> (r: Result<Ecosystem, Error>)
    ensures
        match spec_ecosystem(language@) {
            Some(k) => r matches Ok(rk) && rk == k,
            None => r matches Err(e) && e matches Error::UnsupportedEcosystem(m) && m@
                == language@,
        },
{
    let s = language.as_str();
    if str_eq(s, "cargo") || str_eq(s, "rust") {
        Ok(Ecosystem::Cargo)
    } else if str_eq(s, "node") || str_eq(s, "javascript") || str_eq(s, "js") || str_eq(
        s,
        "typescript",
    ) || str_eq(s, "ts") {
        Ok(Ecosystem::Node)
    } else {
        Err(Error::UnsupportedEcosystem(language.clone()))
    }
}

} // verus!
