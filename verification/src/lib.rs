//! Core engine for changeset-driven semantic version resolution.
//!
//! Given a tree of versioned packages, pending change-request documents are
//! gathered and classified, the next semantic version is computed from the
//! highest severity seen (with prerelease-channel continuation), a categorized
//! changelog section is rendered and merged, and the package configuration
//! file is rewritten with the new version.

pub mod changelog;
pub mod changeset;
pub mod cli;
pub mod config;
pub mod error;
pub mod languages;
pub mod laws;
pub mod nanpa;
pub mod package;
pub mod strutil;
pub mod version;
