use nanpa::cli::{Prerelease, SemverVersion};
use nanpa::version::{
    apply_manual_bump, parse_version, render_version, resolve, Magnitude, Pre, Resolution, Version,
};

fn v(major: u64, minor: u64, patch: u64, pre: Option<(&str, u64)>) -> Version {
    Version {
        major,
        minor,
        patch,
        pre: pre.map(|(c, k)| Pre { channel: c.to_string(), counter: k }),
    }
}

#[test]
fn parses_plain_version() {
    let p = parse_version("1.2.3").unwrap();
    assert_eq!(p, v(1, 2, 3, None));
}

#[test]
fn parses_prerelease_version() {
    let p = parse_version("2.0.0-beta.0").unwrap();
    assert_eq!(p, v(2, 0, 0, Some(("beta", 0))));
}

#[test]
fn rejects_garbage_version() {
    assert!(parse_version("not-a-version").is_err());
    assert!(parse_version("1.2").is_err());
}

#[test]
fn rejects_prerelease_without_counter() {
    // A prerelease that is not `<channel>.<counter>` is rejected, not
    // silently mis-parsed.
    assert!(parse_version("1.0.0-beta").is_err());
    assert!(parse_version("1.0.0-beta.x").is_err());
}

#[test]
fn renders_parsed_version_back() {
    let p = parse_version("1.2.3-beta.2").unwrap();
    assert_eq!(render_version(&p), "1.2.3-beta.2");
    let q = parse_version("10.20.30").unwrap();
    assert_eq!(render_version(&q), "10.20.30");
}

#[test]
fn prerelease_continuation_same_channel() {
    // 2.0.0-beta.0 bumped major on channel beta continues the counter.
    let r = resolve(&v(2, 0, 0, Some(("beta", 0))), Magnitude::Major, &Some("beta".to_string()));
    assert_eq!(r, Resolution::Next(v(2, 0, 0, Some(("beta", 1)))));
}

#[test]
fn prerelease_continuation_other_channel() {
    // The same version on channel rc resets the counter on the new channel.
    let r = resolve(&v(2, 0, 0, Some(("beta", 0))), Magnitude::Major, &Some("rc".to_string()));
    assert_eq!(r, Resolution::Next(v(2, 0, 0, Some(("rc", 0)))));
}

#[test]
fn promotion_strips_prerelease() {
    let r = resolve(&v(1, 2, 3, Some(("beta", 2))), Magnitude::NoBump, &None);
    assert_eq!(r, Resolution::Next(v(1, 2, 3, None)));
}

#[test]
fn no_bump_without_prerelease_is_noop() {
    let r = resolve(&v(1, 0, 0, None), Magnitude::NoBump, &None);
    assert_eq!(r, Resolution::NoChangesets);
    let r = resolve(&v(1, 0, 0, None), Magnitude::NoBump, &Some("beta".to_string()));
    assert_eq!(r, Resolution::NoChangesets);
}

#[test]
fn no_bump_same_channel_is_noop() {
    let r = resolve(&v(1, 0, 0, Some(("beta", 3))), Magnitude::NoBump, &Some("beta".to_string()));
    assert_eq!(r, Resolution::NoChangesets);
}

#[test]
fn no_bump_new_channel_retags() {
    let r = resolve(&v(1, 0, 0, Some(("beta", 3))), Magnitude::NoBump, &Some("rc".to_string()));
    assert_eq!(r, Resolution::Next(v(1, 0, 0, Some(("rc", 0)))));
}

#[test]
fn plain_major_bump() {
    let r = resolve(&v(1, 2, 3, None), Magnitude::Major, &None);
    assert_eq!(r, Resolution::Next(v(2, 0, 0, None)));
}

#[test]
fn major_bump_onto_fresh_channel() {
    let r = resolve(&v(1, 0, 0, None), Magnitude::Major, &Some("alpha".to_string()));
    assert_eq!(r, Resolution::Next(v(2, 0, 0, Some(("alpha", 0)))));
}

#[test]
fn major_bump_not_continued_off_window() {
    // 1.2.3-beta.0 is not in the initial major window (minor and patch are
    // not zero), so a major bump advances the base version.
    let r = resolve(&v(1, 2, 3, Some(("beta", 0))), Magnitude::Major, &Some("beta".to_string()));
    assert_eq!(r, Resolution::Next(v(2, 0, 0, Some(("beta", 0)))));
}

#[test]
fn minor_continuation_and_plain_minor() {
    let r = resolve(&v(1, 1, 0, Some(("beta", 1))), Magnitude::Minor, &Some("beta".to_string()));
    assert_eq!(r, Resolution::Next(v(1, 1, 0, Some(("beta", 2)))));
    let r = resolve(&v(1, 1, 1, None), Magnitude::Minor, &None);
    assert_eq!(r, Resolution::Next(v(1, 2, 0, None)));
}

#[test]
fn patch_continuation_and_plain_patch() {
    let r = resolve(&v(1, 1, 1, Some(("rc", 0))), Magnitude::Patch, &Some("rc".to_string()));
    assert_eq!(r, Resolution::Next(v(1, 1, 1, Some(("rc", 1)))));
    let r = resolve(&v(1, 1, 1, None), Magnitude::Patch, &None);
    assert_eq!(r, Resolution::Next(v(1, 1, 2, None)));
}

#[test]
fn manual_bumps_clear_the_prerelease() {
    let base = v(1, 2, 3, Some(("beta", 1)));
    assert_eq!(apply_manual_bump(&base, &SemverVersion::Major).unwrap(), v(2, 0, 0, None));
    assert_eq!(apply_manual_bump(&base, &SemverVersion::Minor).unwrap(), v(1, 3, 0, None));
    assert_eq!(apply_manual_bump(&base, &SemverVersion::Patch).unwrap(), v(1, 2, 4, None));
}

#[test]
fn manual_prerelease_retags_the_base() {
    let base = v(1, 2, 3, None);
    let req = SemverVersion::Prerelease(Prerelease { version: "rc.1".to_string() });
    assert_eq!(apply_manual_bump(&base, &req).unwrap(), v(1, 2, 3, Some(("rc", 1))));
}

#[test]
fn manual_prerelease_rejects_a_bad_shape() {
    let base = v(1, 2, 3, None);
    let req = SemverVersion::Prerelease(Prerelease { version: "rc".to_string() });
    assert!(apply_manual_bump(&base, &req).is_err());
}

#[test]
fn prerelease_counter_must_fit() {
    // One above the largest representable counter.
    assert!(parse_version("1.0.0-beta.18446744073709551616").is_err());
    let p = parse_version("1.0.0-beta.18446744073709551615").unwrap();
    assert_eq!(p, v(1, 0, 0, Some(("beta", u64::MAX))));
}

#[test]
fn manual_prerelease_counter_reads_decimal() {
    let base = v(1, 0, 0, None);
    let req = SemverVersion::Prerelease(Prerelease { version: "rc.007".to_string() });
    assert_eq!(apply_manual_bump(&base, &req).unwrap(), v(1, 0, 0, Some(("rc", 7))));
}
