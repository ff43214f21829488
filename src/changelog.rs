//! The changelog engine: a scan that reads the last release and which
//! categories of the Unreleased section hold entries, and a rewrite that cuts
//! a new release out of the Unreleased section.

use vstd::prelude::*;
use crate::text::{has_prefix, same_text, starts_with};
use crate::version::{
    bump_result, get_new_version, next_version_text, version_text, BumpKind, Version,
    VersionError,
};

verus! {

/// The change categories of the Unreleased section.
#[derive(Clone, Copy, Debug, PartialEq, Eq, Structural)]
pub enum Category {
    Changed,
    Added,
    Fixed,
}

/// For each category, whether the Unreleased section holds an entry under it.
#[derive(Clone, Copy, Debug, PartialEq, Eq, Structural)]
pub struct CategoryFlags {
    pub changed: bool,
    pub added: bool,
    pub fixed: bool,
}

/// What the scan learns from a changelog.
#[derive(Clone, Debug)]
pub struct ScanResult {
    /// The version captured from the last release heading read, if any.
    pub last_version: Option<String>,
    pub flags: CategoryFlags,
}

/// What to do when the changelog names no earlier release.
#[derive(Clone, Copy, Debug, PartialEq, Eq, Structural)]
pub enum MissingRelease {
    /// Take `0.0.0` as the earlier version.
    StartAtZero,
    /// Refuse to cut a release.
    Refuse,
}

impl Default for MissingRelease {
    /// Counting from `0.0.0` is the default.
    fn default() -> (r: MissingRelease)
        ensures
            r == MissingRelease::StartAtZero,
    {
        MissingRelease::StartAtZero
    }
}

/// Why a changelog could not be bumped.
#[derive(Clone, Copy, Debug, PartialEq, Eq, Structural)]
pub enum BumpError {
    /// No earlier release was found and the policy asks for one.
    NoPriorRelease,
    /// The next version could not be computed.
    Version(VersionError),
}

/// The version in the first match of `## \[(\d+.\d+.\d+)\] -.*` in a line,
/// as its group (`\d` being any Unicode decimal digit, `.` any character but `\n`).
pub uninterp spec fn release_version_in(line: Seq<char>) -> Option<Seq<char>>;

/// Relies on `regex::Regex::new` (the pattern is valid, so it compiles) and
/// `Regex::captures`: the group of the first match of the release-heading pattern.
#[verifier::external_body]
fn find_release_version(line: &str) -> (r: Option<String>)
    ensures
        r matches Some(v) ==> release_version_in(line@) == Some(v@),
        r is None ==> release_version_in(line@) is None,
{
    let re = regex::Regex::new(r"## \[(\d+.\d+.\d+)\] -.*").unwrap();
    match re.captures(line) {
        Some(caps) => {
            let (_, [v]) = caps.extract();
            Some(v.to_string())
        },
        None => None,
    }
}

/// Relies on `chrono::Local::now` and `DateTime::format`: today's local date
/// written `%Y-%m-%d`. It depends on the clock, so nothing is stated of it.
#[verifier::external_body]
fn get_formatted_date() -> (r: String) {
    chrono::Local::now().format("%Y-%m-%d").to_string()
}

/// The lines of a document, as text.
pub open spec fn doc_view(lines: Seq<String>) -> Seq<Seq<char>> {
    lines.map_values(|l: String| l@)
}

pub open spec fn opt_text(o: Option<String>) -> Option<Seq<char>> {
    match o {
        Some(s) => Some(s@),
        None => None,
    }
}

pub open spec fn unreleased_marker() -> Seq<char> {
    "## Unreleased"@
}

/// A line that opens a release: it begins with `## [`.
pub open spec fn is_release_heading(line: Seq<char>) -> bool {
    has_prefix(line, "## ["@)
}

/// An entry line: it begins with `-`.
pub open spec fn is_bullet(line: Seq<char>) -> bool {
    has_prefix(line, "-"@)
}

pub open spec fn category_heading(c: Category) -> Seq<char> {
    match c {
        Category::Changed => "### Changed"@,
        Category::Added => "### Added"@,
        Category::Fixed => "### Fixed"@,
    }
}

pub open spec fn flag(flags: CategoryFlags, c: Category) -> bool {
    match c {
        Category::Changed => flags.changed,
        Category::Added => flags.added,
        Category::Fixed => flags.fixed,
    }
}

/// Line `i` comes before every release heading or is the first of them: the
/// scan reads it, and the rewrite treats it as part of the Unreleased section.
pub open spec fn scanned(doc: Seq<Seq<char>>, i: int) -> bool {
    forall|j: int| 0 <= j < i ==> !is_release_heading(#[trigger] doc[j])
}

/// Among the first `n` lines, a line read by the scan is a bullet right after
/// the heading of `c`.
pub open spec fn has_entries(doc: Seq<Seq<char>>, c: Category, n: int) -> bool {
    exists|i: int|
        1 <= i < n && i < doc.len() && scanned(doc, i) && #[trigger] doc[i - 1] == category_heading(c)
            && is_bullet(doc[i])
}

pub open spec fn flags_upto(doc: Seq<Seq<char>>, n: int) -> CategoryFlags {
    CategoryFlags {
        changed: has_entries(doc, Category::Changed, n),
        added: has_entries(doc, Category::Added, n),
        fixed: has_entries(doc, Category::Fixed, n),
    }
}

/// The categories of the Unreleased section that hold an entry.
pub open spec fn flags_of(doc: Seq<Seq<char>>) -> CategoryFlags {
    flags_upto(doc, doc.len() as int)
}

/// The version captured from the last line, among the first `n` read by the
/// scan, that matches the release-heading pattern.
pub open spec fn last_capture(doc: Seq<Seq<char>>, n: int) -> Option<Seq<char>>
    decreases n,
{
    if n <= 0 || n > doc.len() {
        None
    } else if scanned(doc, n - 1) && release_version_in(doc[n - 1]) is Some {
        release_version_in(doc[n - 1])
    } else {
        last_capture(doc, n - 1)
    }
}

/// The heading of the release that is cut.
pub open spec fn release_heading_text(version: Seq<char>, date: Seq<char>) -> Seq<char> {
    "## ["@ + version + "] - "@ + date
}

/// What replaces an `## Unreleased` line: a fresh, empty Unreleased section,
/// then the heading of the new release.
pub open spec fn fresh_block(heading: Seq<char>) -> Seq<Seq<char>> {
    seq![unreleased_marker(), "### Changed"@, "### Added"@, "### Fixed\n"@, heading]
}

/// What the rewrite emits for line `i`.
pub open spec fn line_output(doc: Seq<Seq<char>>, flags: CategoryFlags, heading: Seq<char>, i: int) -> Seq<Seq<char>> {
    let line = doc[i];
    if line == unreleased_marker() {
        fresh_block(heading)
    } else if scanned(doc, i) && line == category_heading(Category::Changed) {
        if flags.changed { seq![line] } else { seq![] }
    } else if scanned(doc, i) && line == category_heading(Category::Added) {
        if flags.added { seq![line] } else { seq![] }
    } else if scanned(doc, i) && line == category_heading(Category::Fixed) {
        if flags.fixed { seq![line] } else { seq![] }
    } else {
        seq![line]
    }
}

/// The rewrite of the first `n` lines: their outputs, in order.
pub open spec fn rewritten(doc: Seq<Seq<char>>, flags: CategoryFlags, heading: Seq<char>, n: int) -> Seq<Seq<char>>
    decreases n,
{
    if n <= 0 {
        seq![]
    } else {
        rewritten(doc, flags, heading, n - 1) + line_output(doc, flags, heading, n - 1)
    }
}

pub(crate) proof fn lemma_scan_stops(doc: Seq<Seq<char>>, k: int, n: int)
    requires
        0 <= k < doc.len(),
        is_release_heading(doc[k]),
        k + 1 <= n <= doc.len(),
    ensures
        flags_upto(doc, n) == flags_upto(doc, k + 1),
        last_capture(doc, n) == last_capture(doc, k + 1),
    decreases n,
{
    if n > k + 1 {
        lemma_scan_stops(doc, k, n - 1);
        assert(!scanned(doc, n - 1));
        assert forall|c: Category| has_entries(doc, c, n) == has_entries(doc, c, n - 1) by {
            if has_entries(doc, c, n) {
                let i = choose|i: int|
                    1 <= i < n && i < doc.len() && scanned(doc, i) && #[trigger] doc[i - 1] == category_heading(c)
                        && is_bullet(doc[i]);
                assert(i != n - 1);
            }
        }
        assert(has_entries(doc, Category::Changed, n) == has_entries(doc, Category::Changed, n - 1));
        assert(has_entries(doc, Category::Added, n) == has_entries(doc, Category::Added, n - 1));
        assert(has_entries(doc, Category::Fixed, n) == has_entries(doc, Category::Fixed, n - 1));
    }
}

/// Reads the changelog from the top through its first release heading: the
/// version of the last release heading read, and the categories that hold an
/// entry right below their heading.
pub fn scan_changelog(lines: &Vec<String>) -> (r: ScanResult)
    ensures
        r.flags == flags_of(doc_view(lines@)),
        opt_text(r.last_version) == last_capture(doc_view(lines@), lines@.len() as int),
{
    let ghost doc = doc_view(lines@);
    let n = lines.len();
    let mut changed = false;
    let mut added = false;
    let mut fixed = false;
    let mut last: Option<String> = None;
    let mut i: usize = 0;
    while i < n
        invariant
            n == lines@.len(),
            doc == doc_view(lines@),
            doc.len() == n,
            i <= n,
            scanned(doc, i as int),
            changed == has_entries(doc, Category::Changed, i as int),
            added == has_entries(doc, Category::Added, i as int),
            fixed == has_entries(doc, Category::Fixed, i as int),
            opt_text(last) == last_capture(doc, i as int),
        decreases n - i,
    {
        let line = lines[i].as_str();
        assert(line@ == doc[i as int]);
        let ghost before = flags_upto(doc, i as int);
        let bullet = starts_with(line, "-");
        if i > 0 {
            let prev = lines[i - 1].as_str();
            assert(prev@ == doc[i - 1]);
            if bullet && same_text(prev, "### Changed") {
                changed = true;
            }
            if bullet && same_text(prev, "### Added") {
                added = true;
            }
            if bullet && same_text(prev, "### Fixed") {
                fixed = true;
            }
        }
        proof {
            assert forall|c: Category| has_entries(doc, c, i + 1) == (flag(before, c) || (i > 0 && doc[i - 1] == category_heading(c) && is_bullet(doc[i as int]))) by {
                if has_entries(doc, c, i + 1) && !flag(before, c) {
                    let j = choose|j: int|
                        1 <= j < i + 1 && j < doc.len() && scanned(doc, j) && #[trigger] doc[j - 1] == category_heading(c)
                            && is_bullet(doc[j]);
                    assert(j == i);
                }
                if i > 0 && doc[i - 1] == category_heading(c) && is_bullet(doc[i as int]) {
                    assert(doc[i - 1] == category_heading(c));
                }
            }
            assert(has_entries(doc, Category::Changed, i + 1) == (changed));
            assert(has_entries(doc, Category::Added, i + 1) == (added));
            assert(has_entries(doc, Category::Fixed, i + 1) == (fixed));
        }
        match find_release_version(line) {
            Some(v) => {
                last = Some(v);
            },
            None => {},
        }
        if starts_with(line, "## [") {
            proof {
                lemma_scan_stops(doc, i as int, n as int);
            }
            return ScanResult { last_version: last, flags: CategoryFlags { changed, added, fixed } };
        }
        i = i + 1;
    }
    ScanResult { last_version: last, flags: CategoryFlags { changed, added, fixed } }
}

proof fn lemma_markers_open_no_release()
    ensures
        !is_release_heading(unreleased_marker()),
        !is_release_heading(category_heading(Category::Changed)),
        !is_release_heading(category_heading(Category::Added)),
        !is_release_heading(category_heading(Category::Fixed)),
{
    reveal_strlit("## [");
    reveal_strlit("## Unreleased");
    reveal_strlit("### Changed");
    reveal_strlit("### Added");
    reveal_strlit("### Fixed");
    assert(unreleased_marker().subrange(0, 4)[3] != "## ["@[3]);
    assert(category_heading(Category::Changed).subrange(0, 4)[2] != "## ["@[2]);
    assert(category_heading(Category::Added).subrange(0, 4)[2] != "## ["@[2]);
    assert(category_heading(Category::Fixed).subrange(0, 4)[2] != "## ["@[2]);
}

/// Rewrites the changelog: each `## Unreleased` line becomes a fresh, empty
/// Unreleased section followed by `heading`; a category heading read by the
/// scan is kept only where `flags` says its category holds entries; every
/// other line is kept as it is.
pub fn rewrite_lines(lines: &Vec<String>, flags: CategoryFlags, heading: &str) -> (r: Vec<String>)
    ensures
        doc_view(r@) == rewritten(doc_view(lines@), flags, heading@, lines@.len() as int),
{
    let ghost doc = doc_view(lines@);
    proof {
        lemma_markers_open_no_release();
    }
    let n = lines.len();
    let mut out: Vec<String> = Vec::new();
    let mut passed = false;
    let mut i: usize = 0;
    assert(doc_view(out@) =~= rewritten(doc, flags, heading@, 0));
    while i < n
        invariant
            n == lines@.len(),
            doc == doc_view(lines@),
            doc.len() == n,
            i <= n,
            passed == !scanned(doc, i as int),
            doc_view(out@) == rewritten(doc, flags, heading@, i as int),
            !is_release_heading(unreleased_marker()),
            !is_release_heading(category_heading(Category::Changed)),
            !is_release_heading(category_heading(Category::Added)),
            !is_release_heading(category_heading(Category::Fixed)),
        decreases n - i,
    {
        let line = lines[i].as_str();
        assert(line@ == doc[i as int]);
        let ghost before = doc_view(out@);
        let ghost piece = line_output(doc, flags, heading@, i as int);
        if same_text(line, "## Unreleased") {
            out.push(String::from_str("## Unreleased"));
            out.push(String::from_str("### Changed"));
            out.push(String::from_str("### Added"));
            out.push(String::from_str("### Fixed\n"));
            out.push(String::from_str(heading));
        } else if !passed && same_text(line, "### Changed") {
            if flags.changed {
                out.push(lines[i].clone());
            }
        } else if !passed && same_text(line, "### Added") {
            if flags.added {
                out.push(lines[i].clone());
            }
        } else if !passed && same_text(line, "### Fixed") {
            if flags.fixed {
                out.push(lines[i].clone());
            }
        } else {
            if starts_with(line, "## [") {
                passed = true;
            }
            out.push(lines[i].clone());
        }
        assert(doc_view(out@) =~= before + piece);
        proof {
            assert(scanned(doc, i + 1) == (scanned(doc, i as int) && !is_release_heading(doc[i as int])));
        }
        i = i + 1;
    }
    out
}

/// The version of the release that is cut, from the version of the last
/// release read (`0.0.0` where there is none).
pub open spec fn next_release_version(kind: BumpKind, last: Option<Seq<char>>) -> Result<Seq<char>, VersionError> {
    match last {
        Some(t) => next_version_text(kind, t),
        None => match bump_result(Version { major: 0, minor: 0, patch: 0 }, kind) {
            Ok(w) => Ok(version_text(w)),
            Err(e) => Err(e),
        },
    }
}

/// The whole bump of a changelog, released on `date`.
pub open spec fn bumped_changelog(doc: Seq<Seq<char>>, kind: BumpKind, date: Seq<char>, policy: MissingRelease) -> Result<Seq<Seq<char>>, BumpError> {
    let last = last_capture(doc, doc.len() as int);
    if last is None && policy == MissingRelease::Refuse {
        Err(BumpError::NoPriorRelease)
    } else {
        match next_release_version(kind, last) {
            Err(e) => Err(BumpError::Version(e)),
            Ok(v) => Ok(rewritten(doc, flags_of(doc), release_heading_text(v, date), doc.len() as int)),
        }
    }
}

/// The version of the release that `scan` leads to.
pub fn next_release(kind: BumpKind, scan: &ScanResult) -> (r: Result<String, VersionError>)
    ensures
        match r {
            Ok(s) => next_release_version(kind, opt_text(scan.last_version)) == Ok::<Seq<char>, VersionError>(s@),
            Err(e) => next_release_version(kind, opt_text(scan.last_version)) == Err::<Seq<char>, VersionError>(e),
        },
{
    match &scan.last_version {
        Some(t) => get_new_version(kind, t.as_str()),
        None => {
            let zero = Version { major: 0, minor: 0, patch: 0 };
            match zero.bump(kind) {
                Ok(w) => Ok(w.to_text()),
                Err(e) => Err(e),
            }
        },
    }
}

/// The heading `## [<version>] - <date>`.
pub fn release_heading(version: &str, date: &str) -> (r: String)
    ensures
        r@ == release_heading_text(version@, date@),
{
    let mut h = String::from_str("## [");
    h.append(version);
    h.append("] - ");
    h.append(date);
    h
}

/// Cuts a release dated `date` out of the changelog `lines`.
pub fn bump_document(lines: &Vec<String>, kind: BumpKind, date: &str, policy: MissingRelease) -> (r: Result<Vec<String>, BumpError>)
    ensures
        match r {
            Ok(out) => bumped_changelog(doc_view(lines@), kind, date@, policy) == Ok::<Seq<Seq<char>>, BumpError>(doc_view(out@)),
            Err(e) => bumped_changelog(doc_view(lines@), kind, date@, policy) == Err::<Seq<Seq<char>>, BumpError>(e),
        },
{
    let scan = scan_changelog(lines);
    if scan.last_version.is_none() && policy == MissingRelease::Refuse {
        return Err(BumpError::NoPriorRelease);
    }
    match next_release(kind, &scan) {
        Err(e) => Err(BumpError::Version(e)),
        Ok(v) => {
            let heading = release_heading(v.as_str(), date);
            Ok(rewrite_lines(lines, scan.flags, heading.as_str()))
        },
    }
}

/// Cuts a release dated today (local time) out of the changelog `lines`.
pub fn bump_changelog(lines: &Vec<String>, kind: BumpKind, policy: MissingRelease) -> (r: Result<Vec<String>, BumpError>)
    ensures
        match r {
            Ok(out) => exists|date: Seq<char>|
                bumped_changelog(doc_view(lines@), kind, date, policy) == Ok::<Seq<Seq<char>>, BumpError>(doc_view(out@)),
            Err(e) => forall|date: Seq<char>|
                bumped_changelog(doc_view(lines@), kind, date, policy) == Err::<Seq<Seq<char>>, BumpError>(e),
        },
{
    let date = get_formatted_date();
    let r = bump_document(lines, kind, date.as_str(), policy);
    r
}

} // verus!
