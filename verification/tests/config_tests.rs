use nanpa::config::{parse_nanparc, rewrite_config, split_lines, split_words};
use nanpa::error::Error;

#[test]
fn parses_leaf_configuration() {
    let d = parse_nanparc("version 1.0.0\nlanguage rust\ncustom ./hook.sh\nname mypkg\n").unwrap();
    assert_eq!(d.version.as_deref(), Some("1.0.0"));
    assert_eq!(d.language.as_deref(), Some("rust"));
    assert_eq!(d.custom.as_deref(), Some("./hook.sh"));
    assert_eq!(d.name.as_deref(), Some("mypkg"));
    assert!(d.subpackages.is_empty());
}

#[test]
fn parses_container_configuration() {
    let d = parse_nanparc("packages pkgs/a pkgs/b\npackages pkgs/c\n").unwrap();
    assert_eq!(d.subpackages, vec!["pkgs/a", "pkgs/b", "pkgs/c"]);
    assert!(d.version.is_none());
}

#[test]
fn ignores_blank_lines_and_comments() {
    let d = parse_nanparc("# a comment\n\n   \nversion 2.0.0\n").unwrap();
    assert_eq!(d.version.as_deref(), Some("2.0.0"));
}

#[test]
fn unknown_keyword_is_fatal() {
    match parse_nanparc("flavour vanilla\nversion 1.0.0\n") {
        Err(Error::Config(m)) => {
            assert_eq!(m, "unknown configuration keyword flavour, refer to nanparc(5)")
        },
        _ => panic!("expected a configuration error"),
    }
}

#[test]
fn keyword_without_value_is_fatal() {
    match parse_nanparc("version\n") {
        Err(Error::Config(m)) => {
            assert_eq!(m, "configuration error, refer to nanparc(5) for more information")
        },
        _ => panic!("expected a configuration error"),
    }
}

#[test]
fn container_must_not_declare_version_or_language() {
    match parse_nanparc("packages a\nversion 1.0.0\n") {
        Err(Error::Config(m)) => assert_eq!(m, "cannot specify version on superpackage"),
        _ => panic!("expected a configuration error"),
    }
    match parse_nanparc("packages a\nlanguage rust\n") {
        Err(Error::Config(m)) => assert_eq!(m, "cannot specify language on superpackage"),
        _ => panic!("expected a configuration error"),
    }
}

#[test]
fn leaf_must_declare_something() {
    match parse_nanparc("# nothing here\n") {
        Err(Error::Config(m)) => assert_eq!(m, "config must have version or packages"),
        _ => panic!("expected a configuration error"),
    }
}

#[test]
fn rewrite_changes_only_the_version_line() {
    let before = "# keep this comment\nversion 1.0.0\nlanguage rust\n\ncustom ./hook\n";
    let after = rewrite_config(before, &"2.0.0".to_string());
    assert_eq!(after, "# keep this comment\nversion 2.0.0\nlanguage rust\n\ncustom ./hook\n");
}

#[test]
fn rewrite_replaces_the_whole_version_line() {
    let after = rewrite_config("version 1.0.0   # stale note\n", &"1.0.1".to_string());
    assert_eq!(after, "version 1.0.1\n");
}

#[test]
fn rewrite_terminates_an_unterminated_file() {
    let after = rewrite_config("version 1.0.0", &"1.1.0".to_string());
    assert_eq!(after, "version 1.1.0\n");
}

#[test]
fn splits_lines_like_the_writer_joins_them() {
    let lines = split_lines("a\nb\n\nc\n");
    assert_eq!(lines, vec!["a", "b", "", "c"]);
    let lines = split_lines("");
    assert_eq!(lines, Vec::<String>::new());
}

#[test]
fn splits_words_on_whitespace_runs() {
    let ws = split_words("  version \t 1.0.0  ");
    assert_eq!(ws, vec!["version", "1.0.0"]);
    let ws = split_words("   ");
    assert_eq!(ws, Vec::<String>::new());
}
