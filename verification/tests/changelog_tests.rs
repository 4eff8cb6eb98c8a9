use nanpa::changelog::{merge_changelog, parse_section, Changelog};
use nanpa::changeset::{Category, Change, Severity};
use nanpa::nanpa::review_accepts;

fn change(cat: Category, desc: &str) -> Change {
    Change { severity: Severity::Patch, category: cat, description: desc.to_string() }
}

#[test]
fn renders_dated_section_with_categories_in_order() {
    let mut c = Changelog::new();
    c.push(&change(Category::Security, "tightened"));
    c.push(&change(Category::Added, "one"));
    c.push(&change(Category::Added, "two"));
    let s = c.markdown(&"1.2.0".to_string(), &"2024-01-02".to_string());
    assert_eq!(
        s,
        "## [1.2.0] - 2024-01-02\n\n### Added\n\n- one\n- two\n\n### Security\n\n- tightened\n\n"
    );
}

#[test]
fn empty_categories_are_omitted() {
    let mut c = Changelog::new();
    c.push(&change(Category::Fixed, "patched"));
    let s = c.markdown(&"0.1.1".to_string(), &"2024-01-02".to_string());
    assert!(!s.contains("### Added"));
    assert!(!s.contains("### Changed"));
    assert!(s.contains("### Fixed"));
}

#[test]
fn section_round_trip_recovers_groupings() {
    let mut c = Changelog::new();
    c.push(&change(Category::Added, "one"));
    c.push(&change(Category::Added, "two"));
    c.push(&change(Category::Deprecated, "old knob"));
    c.push(&change(Category::Fixed, "a bug"));
    let s = c.markdown(&"3.0.0".to_string(), &"2024-06-30".to_string());
    let back = parse_section(&s);
    assert_eq!(back.added, vec!["one".to_string(), "two".to_string()]);
    assert_eq!(back.changed, Vec::<String>::new());
    assert_eq!(back.deprecated, vec!["old knob".to_string()]);
    assert_eq!(back.removed, Vec::<String>::new());
    assert_eq!(back.fixed, vec!["a bug".to_string()]);
    assert_eq!(back.security, Vec::<String>::new());
}

#[test]
fn merge_into_missing_changelog_uses_default_title() {
    let section = "## [1.0.0] - 2024-01-02\n\n### Added\n\n- first\n\n".to_string();
    let merged = merge_changelog(&None, &section);
    assert_eq!(merged, "# Changelog\n\n## [1.0.0] - 2024-01-02\n\n### Added\n\n- first\n");
}

#[test]
fn merge_keeps_sections_most_recent_first() {
    let s1 = "## [1.1.0] - 2024-01-02\n\n### Added\n\n- one\n\n".to_string();
    let s2 = "## [1.2.0] - 2024-02-03\n\n### Fixed\n\n- two\n\n".to_string();
    let once = merge_changelog(&None, &s1);
    let twice = merge_changelog(&Some(once), &s2);
    assert!(twice.starts_with("# Changelog\n\n## [1.2.0] - 2024-02-03"));
    let newer = twice.find("## [1.2.0]").unwrap();
    let older = twice.find("## [1.1.0]").unwrap();
    assert!(newer < older);
    assert!(twice.contains("- one"));
    assert!(twice.contains("- two"));
}

#[test]
fn merge_preserves_preamble_verbatim() {
    let existing = "# My project\n\nSome prose before sections.\n\n## [0.1.0] - 2023-01-01\n\n### Added\n\n- old\n".to_string();
    let section = "## [0.2.0] - 2024-01-01\n\n### Fixed\n\n- new\n\n".to_string();
    let merged = merge_changelog(&Some(existing), &section);
    assert!(merged.starts_with("# My project\n\nSome prose before sections.\n\n## [0.2.0]"));
    assert!(merged.contains("## [0.1.0] - 2023-01-01"));
}

#[test]
fn dated_section_carries_todays_header() {
    let mut c = Changelog::new();
    c.push(&change(Category::Added, "x"));
    let s = c.markdown_now(&"0.1.0".to_string());
    assert!(s.starts_with("## [0.1.0] - "));
    assert!(s.contains("### Added\n\n- x\n"));
}

#[test]
fn review_gate_accepts_only_clean_nonblank_edits() {
    assert!(review_accepts("## [1.0.0]\n\n- x\n", true));
    assert!(!review_accepts("", true));
    assert!(!review_accepts(" \t\n\r", true));
    assert!(!review_accepts("## [1.0.0]\n", false));
}
