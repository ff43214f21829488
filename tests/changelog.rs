use changelog_bump::changelog::{
    bump_changelog, bump_document, next_release, release_heading, rewrite_lines, scan_changelog,
    BumpError, CategoryFlags, MissingRelease,
};
use changelog_bump::version::{BumpKind, VersionError};

fn doc(lines: &[&str]) -> Vec<String> {
    lines.iter().map(|l| l.to_string()).collect()
}

#[test]
fn patch_release_drops_empty_categories() {
    let input = doc(&[
        "## Unreleased",
        "### Changed",
        "### Added",
        "- fix typo",
        "### Fixed",
        "## [1.2.3] - 2023-01-01",
    ]);
    let out = bump_document(&input, BumpKind::Patch, "2024-06-01", MissingRelease::StartAtZero).unwrap();
    assert_eq!(
        out,
        doc(&[
            "## Unreleased",
            "### Changed",
            "### Added",
            "### Fixed\n",
            "## [1.2.4] - 2024-06-01",
            "### Added",
            "- fix typo",
            "## [1.2.3] - 2023-01-01",
        ])
    );
}

#[test]
fn filled_categories_keep_their_entries() {
    let input = doc(&[
        "# Changelog",
        "## Unreleased",
        "### Changed",
        "- new api",
        "- faster parse",
        "### Added",
        "- flag",
        "### Fixed",
        "- crash",
        "## [0.3.0] - 2022-02-02",
        "- old",
    ]);
    let out = bump_document(&input, BumpKind::Minor, "2024-01-31", MissingRelease::StartAtZero).unwrap();
    assert_eq!(
        out,
        doc(&[
            "# Changelog",
            "## Unreleased",
            "### Changed",
            "### Added",
            "### Fixed\n",
            "## [0.4.0] - 2024-01-31",
            "### Changed",
            "- new api",
            "- faster parse",
            "### Added",
            "- flag",
            "### Fixed",
            "- crash",
            "## [0.3.0] - 2022-02-02",
            "- old",
        ])
    );
}

#[test]
fn entry_must_follow_heading_directly() {
    let input = doc(&["## Unreleased", "### Changed", "", "- later", "## [1.0.0] - x"]);
    let scan = scan_changelog(&input);
    assert_eq!(scan.flags, CategoryFlags { changed: false, added: false, fixed: false });
    assert_eq!(scan.last_version, Some("1.0.0".to_string()));
}

#[test]
fn scan_reads_flags_and_version() {
    let input = doc(&[
        "## Unreleased",
        "### Changed",
        "### Added",
        "- thing",
        "### Fixed",
        "- bug",
        "## [10.20.30] - 2020-10-10",
        "### Changed",
        "- ignored",
        "## [10.20.29] - 2020-10-01",
    ]);
    let scan = scan_changelog(&input);
    assert_eq!(scan.flags, CategoryFlags { changed: false, added: true, fixed: true });
    assert_eq!(scan.last_version, Some("10.20.30".to_string()));
}

#[test]
fn scan_stops_at_unmatched_release_heading() {
    let input = doc(&["## Unreleased", "## [next] - soon", "## [1.0.0] - x"]);
    let scan = scan_changelog(&input);
    assert_eq!(scan.last_version, None);
}

#[test]
fn history_after_first_release_is_untouched() {
    let input = doc(&[
        "## Unreleased",
        "### Changed",
        "## [2.0.0] - 2021-01-01",
        "### Changed",
        "### Added",
        "### Fixed",
        "## [1.0.0] - 2020-01-01",
    ]);
    for kind in [BumpKind::Major, BumpKind::Minor, BumpKind::Patch] {
        let out = bump_document(&input, kind, "2024-06-01", MissingRelease::StartAtZero).unwrap();
        assert_eq!(out[out.len() - 5..].to_vec(), input[2..].to_vec());
    }
}

#[test]
fn major_bump_keeps_lower_components() {
    assert_eq!(changelog_bump::version::get_new_version(BumpKind::Major, "2.9.9"), Ok("3.9.9".to_string()));
}

#[test]
fn no_prior_release_starts_at_zero() {
    let input = doc(&["# Changelog", "## Unreleased", "### Added", "- first"]);
    let out = bump_document(&input, BumpKind::Patch, "2024-06-01", MissingRelease::StartAtZero).unwrap();
    assert_eq!(
        out,
        doc(&[
            "# Changelog",
            "## Unreleased",
            "### Changed",
            "### Added",
            "### Fixed\n",
            "## [0.0.1] - 2024-06-01",
            "### Added",
            "- first",
        ])
    );
}

#[test]
fn no_prior_release_refused_when_required() {
    let input = doc(&["## Unreleased", "### Added", "- first"]);
    assert_eq!(
        bump_document(&input, BumpKind::Patch, "2024-06-01", MissingRelease::Refuse),
        Err(BumpError::NoPriorRelease)
    );
}

#[test]
fn second_run_cuts_another_release() {
    let input = doc(&["## Unreleased", "### Added", "- a", "## [1.2.3] - 2023-01-01"]);
    let once = bump_document(&input, BumpKind::Patch, "2024-06-01", MissingRelease::Refuse).unwrap();
    let twice = bump_document(&once, BumpKind::Patch, "2024-06-02", MissingRelease::Refuse).unwrap();
    assert_ne!(once, twice);
    assert!(twice.contains(&"## [1.2.5] - 2024-06-02".to_string()));
    assert!(twice.contains(&"## [1.2.4] - 2024-06-01".to_string()));
    assert!(twice.contains(&"## [1.2.3] - 2023-01-01".to_string()));
}

#[test]
fn unicode_digits_are_refused() {
    let input = doc(&["## Unreleased", "## [\u{0661}.2.3] - x"]);
    assert_eq!(
        bump_document(&input, BumpKind::Patch, "d", MissingRelease::StartAtZero),
        Err(BumpError::Version(VersionError::InvalidComponent))
    );
}

#[test]
fn oversized_component_is_refused() {
    let input = doc(&["## Unreleased", "## [99999999999999999999.0.0] - x"]);
    assert_eq!(
        bump_document(&input, BumpKind::Patch, "d", MissingRelease::StartAtZero),
        Err(BumpError::Version(VersionError::InvalidComponent))
    );
}

#[test]
fn largest_component_cannot_grow() {
    let input = doc(&["## Unreleased", "## [18446744073709551615.0.0] - x"]);
    assert_eq!(
        bump_document(&input, BumpKind::Major, "d", MissingRelease::StartAtZero),
        Err(BumpError::Version(VersionError::Overflow))
    );
    let out = bump_document(&input, BumpKind::Minor, "d", MissingRelease::StartAtZero).unwrap();
    assert_eq!(out[4], "## [18446744073709551615.1.0] - d");
}

#[test]
fn document_without_unreleased_is_unchanged() {
    let input = doc(&["# Changelog", "## [1.0.0] - x", "- a"]);
    let out = bump_document(&input, BumpKind::Patch, "d", MissingRelease::StartAtZero).unwrap();
    assert_eq!(out, input);
}

#[test]
fn empty_document_stays_empty() {
    let input: Vec<String> = Vec::new();
    let out = bump_document(&input, BumpKind::Patch, "d", MissingRelease::StartAtZero).unwrap();
    assert!(out.is_empty());
}

#[test]
fn rewrite_follows_given_flags() {
    let input = doc(&["## Unreleased", "### Changed", "### Added", "### Fixed", "## [1.0.0] - x", "### Fixed"]);
    let flags = CategoryFlags { changed: true, added: false, fixed: true };
    let out = rewrite_lines(&input, flags, "## [9.9.9] - y");
    assert_eq!(
        out,
        doc(&[
            "## Unreleased",
            "### Changed",
            "### Added",
            "### Fixed\n",
            "## [9.9.9] - y",
            "### Changed",
            "### Fixed",
            "## [1.0.0] - x",
            "### Fixed",
        ])
    );
}

#[test]
fn next_release_from_scan() {
    let scan = scan_changelog(&doc(&["## [4.5.6] - x"]));
    assert_eq!(next_release(BumpKind::Minor, &scan), Ok("4.6.6".to_string()));
    let empty = scan_changelog(&Vec::new());
    assert_eq!(next_release(BumpKind::Major, &empty), Ok("1.0.0".to_string()));
}

#[test]
fn heading_text() {
    assert_eq!(release_heading("1.2.4", "2024-06-01"), "## [1.2.4] - 2024-06-01");
}

#[test]
fn today_release_has_a_dated_heading() {
    let input = doc(&["## Unreleased", "## [1.0.0] - x"]);
    let out = bump_changelog(&input, BumpKind::Patch, MissingRelease::StartAtZero).unwrap();
    assert_eq!(out.len(), 6);
    let heading = &out[4];
    assert!(heading.starts_with("## [1.0.1] - "));
    let date = &heading["## [1.0.1] - ".len()..];
    assert_eq!(date.len(), 10);
    assert_eq!(&date[4..5], "-");
    assert_eq!(&date[7..8], "-");
}

#[test]
fn default_policy_counts_from_zero() {
    assert_eq!(MissingRelease::default(), MissingRelease::StartAtZero);
}
