use changelog_bump::version::{get_new_version, parse_decimal, parse_version, BumpKind, Version, VersionError};

#[test]
fn bump_increments_only_the_named_component() {
    let v = Version { major: 3, minor: 7, patch: 11 };
    assert_eq!(v.bump(BumpKind::Major), Ok(Version { major: 4, minor: 7, patch: 11 }));
    assert_eq!(v.bump(BumpKind::Minor), Ok(Version { major: 3, minor: 8, patch: 11 }));
    assert_eq!(v.bump(BumpKind::Patch), Ok(Version { major: 3, minor: 7, patch: 12 }));
}

#[test]
fn bump_overflow_is_an_error() {
    let v = Version { major: 1, minor: u64::MAX, patch: 0 };
    assert_eq!(v.bump(BumpKind::Minor), Err(VersionError::Overflow));
    assert_eq!(v.bump(BumpKind::Patch), Ok(Version { major: 1, minor: u64::MAX, patch: 1 }));
}

#[test]
fn version_found_anywhere_in_text() {
    assert_eq!(parse_version("release v10.20.30-beta"), Ok(Version { major: 10, minor: 20, patch: 30 }));
    assert_eq!(parse_version("1.2"), Ok(Version { major: 0, minor: 0, patch: 0 }));
    assert_eq!(parse_version(""), Ok(Version { major: 0, minor: 0, patch: 0 }));
}

#[test]
fn new_version_from_malformed_text() {
    assert_eq!(get_new_version(BumpKind::Patch, "garbage"), Ok("0.0.1".to_string()));
    assert_eq!(get_new_version(BumpKind::Minor, "1x2y3"), Ok("0.1.0".to_string()));
    assert_eq!(get_new_version(BumpKind::Patch, "0.9.99"), Ok("0.9.100".to_string()));
}

#[test]
fn decimal_parsing() {
    assert_eq!(parse_decimal("0"), Some(0));
    assert_eq!(parse_decimal("007"), Some(7));
    assert_eq!(parse_decimal("18446744073709551615"), Some(u64::MAX));
    assert_eq!(parse_decimal("18446744073709551616"), None);
    assert_eq!(parse_decimal(""), None);
    assert_eq!(parse_decimal("1a"), None);
    assert_eq!(parse_decimal("+1"), None);
}

#[test]
fn version_text_writing() {
    assert_eq!(Version { major: 0, minor: 10, patch: 205 }.to_text(), "0.10.205");
    assert_eq!(Version { major: u64::MAX, minor: 0, patch: 9 }.to_text(), "18446744073709551615.0.9");
}
