use nanpa::changeset::{
    changeset_nodes, package_scopes, parse_changeset, take_all, take_for_target, Category, Change,
    DocFate, Severity,
};
use nanpa::error::Error;
use nanpa::nanpa::plan_resolution;
use nanpa::nanpa::Plan;
use nanpa::version::Magnitude;

#[test]
fn classifies_package_scoped_document() {
    let doc = parse_changeset(
        "major type=\"added\" \"Adds a thing\"\npatch type=\"fixed\" \"Fixes a bug\"\n",
    )
    .unwrap();
    let changes = take_all(&doc).unwrap();
    assert_eq!(changes.len(), 2);
    assert_eq!(changes[0].severity, Severity::Major);
    assert_eq!(changes[0].category, Category::Added);
    assert_eq!(changes[0].description, "Adds a thing");
    assert_eq!(changes[1].severity, Severity::Patch);
    assert_eq!(changes[1].category, Category::Fixed);
}

#[test]
fn node_without_description_is_skipped() {
    let doc = parse_changeset("major type=\"added\"\n").unwrap();
    let changes = take_all(&doc).unwrap();
    assert_eq!(changes.len(), 0);
}

#[test]
fn unknown_severity_is_fatal() {
    let doc = parse_changeset("bogus type=\"added\" \"x\"\n").unwrap();
    match take_all(&doc) {
        Err(Error::ChangeRequestParse(m)) => assert_eq!(m, "unknown keyword bogus"),
        _ => panic!("expected a parse error"),
    }
}

#[test]
fn unknown_category_is_fatal() {
    let doc = parse_changeset("major type=\"wild\" \"x\"\n").unwrap();
    match take_all(&doc) {
        Err(Error::ChangeRequestParse(m)) => assert_eq!(m, "unknown change type wild"),
        _ => panic!("expected a parse error"),
    }
}

#[test]
fn missing_category_is_fatal() {
    let doc = parse_changeset("major \"x\"\n").unwrap();
    match take_all(&doc) {
        Err(Error::ChangeRequestParse(m)) => {
            assert_eq!(m, "change type (added, changed, etc.) must be specified")
        },
        _ => panic!("expected a parse error"),
    }
}

#[test]
fn non_string_description_is_fatal() {
    let doc = parse_changeset("major type=\"fixed\" 5\n").unwrap();
    match take_all(&doc) {
        Err(Error::ChangeRequestParse(m)) => assert_eq!(m, "description must be a string"),
        _ => panic!("expected a parse error"),
    }
}

#[test]
fn non_string_package_scope_is_fatal() {
    let doc = parse_changeset("major package=5 type=\"added\" \"x\"\n").unwrap();
    match package_scopes(&doc) {
        Err(Error::ChangeRequestParse(m)) => assert_eq!(m, "package must be a string"),
        _ => panic!("expected a parse error"),
    }
}

#[test]
fn malformed_document_is_fatal() {
    assert!(parse_changeset("major type=").is_err());
}

fn change(sev: Severity) -> Change {
    Change { severity: sev, category: Category::Added, description: "x".to_string() }
}

#[test]
fn severity_precedence_takes_the_maximum() {
    let cs = vec![change(Severity::Patch), change(Severity::Major), change(Severity::Minor)];
    assert_eq!(nanpa::changeset::max_severity(&cs), Magnitude::Major);
    let cs = vec![change(Severity::Minor), change(Severity::Patch)];
    assert_eq!(nanpa::changeset::max_severity(&cs), Magnitude::Minor);
    let cs = vec![change(Severity::Patch)];
    assert_eq!(nanpa::changeset::max_severity(&cs), Magnitude::Patch);
    let cs: Vec<Change> = vec![];
    assert_eq!(nanpa::changeset::max_severity(&cs), Magnitude::NoBump);
}

#[test]
fn severity_precedence_ignores_order() {
    let cs1 = vec![change(Severity::Patch), change(Severity::Minor), change(Severity::Minor)];
    let cs2 = vec![change(Severity::Minor), change(Severity::Patch)];
    assert_eq!(nanpa::changeset::max_severity(&cs1), nanpa::changeset::max_severity(&cs2));
}

#[test]
fn scoping_takes_only_the_target_nodes() {
    // A root-scoped document with nodes for packages a and b: resolving a
    // strips a's node and keeps b's in the rewritten document; resolving b on
    // the rewritten document consumes it.
    let text = "major package=\"pkgs/a\" type=\"added\" \"for a\"\nminor package=\"pkgs/b\" type=\"fixed\" \"for b\"\n";
    let mut doc = parse_changeset(text).unwrap();
    let canon = package_scopes(&doc).unwrap();
    let target = "pkgs/a".to_string();
    let (changes, fate) = take_for_target(&mut doc, &canon, &target).unwrap();
    assert_eq!(changes.len(), 1);
    assert_eq!(changes[0].description, "for a");
    let rewritten = match fate {
        DocFate::Rewrite(t) => t,
        _ => panic!("expected a rewrite"),
    };
    assert!(rewritten.contains("for b"));
    assert!(!rewritten.contains("for a"));

    let mut doc2 = parse_changeset(&rewritten).unwrap();
    let canon2 = package_scopes(&doc2).unwrap();
    let target2 = "pkgs/b".to_string();
    let (changes2, fate2) = take_for_target(&mut doc2, &canon2, &target2).unwrap();
    assert_eq!(changes2.len(), 1);
    assert_eq!(changes2[0].description, "for b");
    assert_eq!(fate2, DocFate::Delete);
}

#[test]
fn unrelated_document_is_kept_untouched() {
    let text = "major package=\"pkgs/other\" type=\"added\" \"elsewhere\"\n";
    let mut doc = parse_changeset(text).unwrap();
    let canon = package_scopes(&doc).unwrap();
    let target = "pkgs/a".to_string();
    let (changes, fate) = take_for_target(&mut doc, &canon, &target).unwrap();
    assert_eq!(changes.len(), 0);
    assert_eq!(fate, DocFate::Keep);
    assert_eq!(changeset_nodes(&doc).len(), 1);
}

#[test]
fn no_matching_nodes_reports_no_changesets() {
    // With no matching nodes and a plain current version, the resolution is
    // the successful no-op outcome: nothing is written.
    let changes: Vec<Change> = vec![];
    let plan = plan_resolution("1.0.0", &changes, &None, &"2024-01-02".to_string()).unwrap();
    assert!(matches!(plan, Plan::NoChangesets));
}

#[test]
fn bad_current_version_aborts_resolution() {
    let changes = vec![change(Severity::Minor)];
    match plan_resolution("not.a.version", &changes, &None, &"2024-01-02".to_string()) {
        Err(Error::VersionFormat(m)) => {
            assert_eq!(m, "package version is not a valid semver version")
        },
        _ => panic!("expected a version error"),
    }
}

#[test]
fn bad_channel_aborts_resolution() {
    let changes = vec![change(Severity::Minor)];
    let r = plan_resolution("1.0.0", &changes, &Some("a.b".to_string()), &"2024-01-02".to_string());
    assert!(matches!(r, Err(Error::VersionFormat(_))));
    let r = plan_resolution("1.0.0", &changes, &Some(String::new()), &"2024-01-02".to_string());
    assert!(matches!(r, Err(Error::VersionFormat(_))));
}

#[test]
fn version_component_at_bound_aborts_resolution() {
    let changes = vec![change(Severity::Major)];
    let top = "18446744073709551615.0.0";
    match plan_resolution(top, &changes, &None, &"2024-01-02".to_string()) {
        Err(Error::VersionFormat(m)) => assert_eq!(m, "version component too large to bump"),
        _ => panic!("expected a version error"),
    }
}

#[test]
fn plan_renders_version_and_section() {
    let changes = vec![Change {
        severity: Severity::Minor,
        category: Category::Added,
        description: "new flag".to_string(),
    }];
    let plan = plan_resolution("1.0.0", &changes, &None, &"2024-01-02".to_string()).unwrap();
    match plan {
        Plan::Bump { version, rendered, section } => {
            assert_eq!(version.major, 1);
            assert_eq!(version.minor, 1);
            assert_eq!(version.patch, 0);
            assert!(version.pre.is_none());
            assert_eq!(rendered, "1.1.0");
            assert_eq!(section, "## [1.1.0] - 2024-01-02\n\n### Added\n\n- new flag\n\n");
        },
        _ => panic!("expected a bump"),
    }
}

#[test]
fn rewrite_preserves_remaining_node_formatting() {
    let text = "// pending work for b\nminor package=\"pkgs/b\" type=\"fixed\" \"for b\"\nmajor package=\"pkgs/a\" type=\"added\" \"for a\"\n";
    let mut doc = parse_changeset(text).unwrap();
    let canon = package_scopes(&doc).unwrap();
    let (_, fate) = take_for_target(&mut doc, &canon, &"pkgs/a".to_string()).unwrap();
    let rewritten = match fate {
        DocFate::Rewrite(t) => t,
        _ => panic!("expected a rewrite"),
    };
    assert!(rewritten.contains("// pending work for b"));
    assert!(rewritten.contains("minor package=\"pkgs/b\" type=\"fixed\" \"for b\""));
    assert!(!rewritten.contains("for a"));
}

#[test]
fn error_in_a_matching_node_touches_nothing() {
    let text = "bogus package=\"pkgs/a\" type=\"added\" \"x\"\nminor package=\"pkgs/b\" type=\"fixed\" \"y\"\n";
    let mut doc = parse_changeset(text).unwrap();
    let canon = package_scopes(&doc).unwrap();
    let r = take_for_target(&mut doc, &canon, &"pkgs/a".to_string());
    assert!(r.is_err());
    assert_eq!(changeset_nodes(&doc).len(), 2);
}
