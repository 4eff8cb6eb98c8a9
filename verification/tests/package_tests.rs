use nanpa::cli::SemverVersionAdd;
use nanpa::error::Error;
use nanpa::languages::{run_language, Ecosystem};
use nanpa::nanpa::Nanpa;
use nanpa::package::Package;

fn leaf(location: &str, version: &str) -> Package {
    Package {
        subpackages: vec![],
        version: Some(version.to_string()),
        language: None,
        custom: None,
        name: None,
        location: location.to_string(),
    }
}

fn container(location: &str, subpackages: Vec<Package>) -> Package {
    Package {
        subpackages,
        version: None,
        language: None,
        custom: None,
        name: None,
        location: location.to_string(),
    }
}

#[test]
fn flatten_keeps_a_versioned_leaf() {
    let p = leaf("/repo", "1.0.0");
    let flat = p.flatten();
    assert_eq!(flat.len(), 1);
    assert_eq!(flat[0].location, "/repo");
    assert_eq!(flat[0].version.as_deref(), Some("1.0.0"));
}

#[test]
fn flatten_resolves_containers_to_their_children() {
    let tree = container(
        "/repo",
        vec![leaf("/repo/a", "1.0.0"), container("/repo/m", vec![leaf("/repo/m/b", "2.0.0")])],
    );
    let flat = tree.flatten();
    assert_eq!(flat.len(), 2);
    assert_eq!(flat[0].location, "/repo/a");
    assert_eq!(flat[1].location, "/repo/m/b");
}

#[test]
fn packages_are_keyed_by_location() {
    let n = Nanpa::new(container("/repo", vec![leaf("/repo/a", "1.0.0"), leaf("/repo/b", "2.0.0")]));
    let pairs = n.packages();
    assert_eq!(pairs.len(), 2);
    assert_eq!(pairs[0].0, "/repo/a");
    assert_eq!(pairs[0].1.version.as_deref(), Some("1.0.0"));
    assert_eq!(pairs[1].0, "/repo/b");
}

#[test]
fn select_one_finds_the_requested_package() {
    let n = Nanpa::new(container("/repo", vec![leaf("/repo/a", "1.0.0"), leaf("/repo/b", "2.0.0")]));
    let p = n.select_one(&Some("/repo/b".to_string()), &"/repo".to_string()).unwrap();
    assert_eq!(p.location, "/repo/b");
    assert_eq!(p.version.as_deref(), Some("2.0.0"));
}

#[test]
fn select_one_rejects_an_unknown_location() {
    let n = Nanpa::new(container("/repo", vec![leaf("/repo/a", "1.0.0")]));
    match n.select_one(&Some("/elsewhere".to_string()), &"/repo".to_string()) {
        Err(Error::PackageNotFound) => {},
        _ => panic!("expected package-not-found"),
    }
}

#[test]
fn select_one_needs_a_name_in_a_multi_package_tree() {
    let n = Nanpa::new(container("/repo", vec![leaf("/repo/a", "1.0.0"), leaf("/repo/b", "2.0.0")]));
    match n.select_one(&None, &"/repo".to_string()) {
        Err(Error::AmbiguousPackage) => {},
        _ => panic!("expected an ambiguity error"),
    }
}

#[test]
fn select_one_takes_the_sole_root_package() {
    let n = Nanpa::new(leaf("/repo", "1.0.0"));
    let p = n.select_one(&None, &"/repo".to_string()).unwrap();
    assert_eq!(p.location, "/repo");
}

#[test]
fn changesets_fall_back_to_every_package() {
    let n = Nanpa::new(container("/repo", vec![leaf("/repo/a", "1.0.0"), leaf("/repo/b", "2.0.0")]));
    let all = n.select_for_changesets(&None, &"/repo".to_string()).unwrap();
    assert_eq!(all.len(), 2);
    assert_eq!(all[0].location, "/repo/a");
    assert_eq!(all[1].location, "/repo/b");
}

#[test]
fn ecosystem_kinds_and_aliases() {
    for kind in ["cargo", "rust"] {
        assert_eq!(run_language(&kind.to_string()).unwrap(), Ecosystem::Cargo);
    }
    for kind in ["node", "javascript", "js", "typescript", "ts"] {
        assert_eq!(run_language(&kind.to_string()).unwrap(), Ecosystem::Node);
    }
}

#[test]
fn unsupported_ecosystem_is_fatal_by_name() {
    match run_language(&"zig".to_string()) {
        Err(Error::UnsupportedEcosystem(m)) => assert_eq!(m, "zig"),
        _ => panic!("expected an unsupported-ecosystem error"),
    }
}

#[test]
fn new_changeset_line_carries_all_fields() {
    let n = Nanpa::new(leaf("/repo", "1.0.0"));
    let line = n.add(
        Some("pkgs/a".to_string()),
        SemverVersionAdd::Major,
        Some("added".to_string()),
        Some("a new thing".to_string()),
    );
    assert_eq!(line, "major package=\"pkgs/a\" type=\"added\" \"a new thing\"");
}

#[test]
fn new_changeset_line_defaults_are_empty() {
    let n = Nanpa::new(leaf("/repo", "1.0.0"));
    let line = n.add(None, SemverVersionAdd::Patch, None, None);
    assert_eq!(line, "patch type=\"\" \"\"");
}

#[test]
fn error_messages_name_their_cause() {
    assert_eq!(Error::MissingEditor.message(), "EDITOR must be set");
    assert_eq!(Error::PackageNotFound.message(), "could not find package");
    assert_eq!(
        Error::AmbiguousPackage.message(),
        "no package specified and more than one package in tree"
    );
    assert_eq!(
        Error::UnsupportedEcosystem("zig".to_string()).message(),
        "unsupported language zig"
    );
}
