//! Properties of the whole bump, stated over the scan and rewrite models.

use vstd::prelude::*;
use crate::changelog::{
    bumped_changelog, category_heading, flag, flags_of, has_entries, is_bullet,
    is_release_heading, last_capture, line_output, next_release_version, release_version_in,
    rewritten, scanned, unreleased_marker, Category, CategoryFlags, fresh_block,
    release_heading_text, lemma_scan_stops, MissingRelease,
};
use crate::version::{decimal, digit_char, version_text, BumpKind, Version};

verus! {

proof fn lemma_no_capture_upto(doc: Seq<Seq<char>>, n: int)
    requires
        forall|i: int| 0 <= i < doc.len() ==> release_version_in(#[trigger] doc[i]) is None,
    ensures
        last_capture(doc, n) is None,
    decreases n,
{
    if n > 0 && n <= doc.len() {
        lemma_no_capture_upto(doc, n - 1);
    }
}

/// A changelog in which no line matches the release-heading pattern has no
/// earlier version: the release cut from it counts from `0.0.0`, so a patch
/// bump gives `0.0.1`, a minor bump `0.1.0` and a major bump `1.0.0`.
pub proof fn lemma_no_release_counts_from_zero(doc: Seq<Seq<char>>)
    requires
        forall|i: int| 0 <= i < doc.len() ==> release_version_in(#[trigger] doc[i]) is None,
    ensures
        last_capture(doc, doc.len() as int) is None,
        next_release_version(BumpKind::Patch, None) == Ok::<Seq<char>, crate::version::VersionError>(seq!['0', '.', '0', '.', '1']),
        next_release_version(BumpKind::Minor, None) == Ok::<Seq<char>, crate::version::VersionError>(seq!['0', '.', '1', '.', '0']),
        next_release_version(BumpKind::Major, None) == Ok::<Seq<char>, crate::version::VersionError>(seq!['1', '.', '0', '.', '0']),
{
    lemma_no_capture_upto(doc, doc.len() as int);
    assert(decimal(0) == seq![digit_char(0)]);
    assert(decimal(1) == seq![digit_char(1)]);
    assert(version_text(Version { major: 0, minor: 0, patch: 1 }) =~= seq!['0', '.', '0', '.', '1']);
    assert(version_text(Version { major: 0, minor: 1, patch: 0 }) =~= seq!['0', '.', '1', '.', '0']);
    assert(version_text(Version { major: 1, minor: 0, patch: 0 }) =~= seq!['1', '.', '0', '.', '0']);
}

proof fn lemma_marker_texts()
    ensures
        unreleased_marker() != category_heading(Category::Changed),
        unreleased_marker() != category_heading(Category::Added),
        unreleased_marker() != category_heading(Category::Fixed),
        category_heading(Category::Changed) != category_heading(Category::Added),
        category_heading(Category::Changed) != category_heading(Category::Fixed),
        category_heading(Category::Added) != category_heading(Category::Fixed),
        !is_release_heading(category_heading(Category::Changed)),
        !is_release_heading(category_heading(Category::Added)),
        !is_release_heading(category_heading(Category::Fixed)),
        forall|line: Seq<char>| is_bullet(line) ==> line != unreleased_marker(),
        forall|line: Seq<char>, c: Category| is_bullet(line) ==> line != category_heading(c),
{
    reveal_strlit("## [");
    reveal_strlit("-");
    reveal_strlit("## Unreleased");
    reveal_strlit("### Changed");
    reveal_strlit("### Added");
    reveal_strlit("### Fixed");
    assert(unreleased_marker().len() != category_heading(Category::Changed).len());
    assert(unreleased_marker().len() != category_heading(Category::Added).len());
    assert(unreleased_marker().len() != category_heading(Category::Fixed).len());
    assert(category_heading(Category::Changed).len() != category_heading(Category::Added).len());
    assert(category_heading(Category::Changed).len() != category_heading(Category::Fixed).len());
    assert(category_heading(Category::Added)[4] != category_heading(Category::Fixed)[4]);
    assert(category_heading(Category::Changed).subrange(0, 4)[2] != "## ["@[2]);
    assert(category_heading(Category::Added).subrange(0, 4)[2] != "## ["@[2]);
    assert(category_heading(Category::Fixed).subrange(0, 4)[2] != "## ["@[2]);
    assert forall|line: Seq<char>| is_bullet(line) implies line != unreleased_marker() by {
        assert(line.subrange(0, 1)[0] == '-');
    }
    assert forall|line: Seq<char>, c: Category| is_bullet(line) implies line != category_heading(c) by {
        assert(line.subrange(0, 1)[0] == '-');
    }
}

/// A category heading of the Unreleased section under which no entry was
/// found (no bullet line right below any heading of that category) is left
/// out of the rewrite.
pub proof fn lemma_empty_category_dropped(doc: Seq<Seq<char>>, c: Category, heading: Seq<char>, i: int)
    requires
        0 <= i < doc.len(),
        scanned(doc, i),
        doc[i] == category_heading(c),
        !has_entries(doc, c, doc.len() as int),
    ensures
        line_output(doc, flags_of(doc), heading, i) == Seq::<Seq<char>>::empty(),
{
    lemma_marker_texts();
    assert(line_output(doc, flags_of(doc), heading, i) =~= Seq::<Seq<char>>::empty());
}

/// A category heading of the Unreleased section with a bullet line right
/// below it is kept, and so is that bullet line, unchanged.
pub proof fn lemma_filled_category_kept(doc: Seq<Seq<char>>, c: Category, heading: Seq<char>, i: int)
    requires
        0 <= i,
        i + 1 < doc.len(),
        scanned(doc, i),
        doc[i] == category_heading(c),
        is_bullet(doc[i + 1]),
    ensures
        flag(flags_of(doc), c),
        line_output(doc, flags_of(doc), heading, i) == seq![doc[i]],
        line_output(doc, flags_of(doc), heading, i + 1) == seq![doc[i + 1]],
{
    lemma_marker_texts();
    assert(scanned(doc, i + 1));
    assert(doc[(i + 1) - 1] == category_heading(c));
    assert(has_entries(doc, c, doc.len() as int));
}

proof fn lemma_released_lines_kept(doc: Seq<Seq<char>>, flags: CategoryFlags, heading: Seq<char>, k: int, n: int)
    requires
        0 <= k < doc.len(),
        k <= n <= doc.len(),
        is_release_heading(doc[k]),
        forall|j: int| k <= j < n ==> #[trigger] doc[j] != unreleased_marker(),
    ensures
        rewritten(doc, flags, heading, n) == rewritten(doc, flags, heading, k) + doc.subrange(k, n),
    decreases n,
{
    lemma_marker_texts();
    if n > k {
        lemma_released_lines_kept(doc, flags, heading, k, n - 1);
        let j = n - 1;
        if j > k {
            assert(!scanned(doc, j));
        }
        assert(line_output(doc, flags, heading, j) == seq![doc[j]]);
        assert(rewritten(doc, flags, heading, k) + doc.subrange(k, n) =~= rewritten(doc, flags, heading, k) + doc.subrange(k, n - 1) + seq![doc[j]]);
    } else {
        assert(doc.subrange(k, n) =~= Seq::<Seq<char>>::empty());
        assert(rewritten(doc, flags, heading, k) + doc.subrange(k, n) =~= rewritten(doc, flags, heading, k));
    }
}

/// From the first release heading on, the bumped changelog ends with the
/// lines of the input exactly, whatever the bump kind, the date and the
/// categories' contents, provided no `## Unreleased` line stands among them.
pub proof fn lemma_released_history_kept(
    doc: Seq<Seq<char>>,
    kind: BumpKind,
    date: Seq<char>,
    policy: crate::changelog::MissingRelease,
    k: int,
)
    requires
        0 <= k < doc.len(),
        scanned(doc, k),
        is_release_heading(doc[k]),
        forall|j: int| k <= j < doc.len() ==> #[trigger] doc[j] != unreleased_marker(),
        bumped_changelog(doc, kind, date, policy) is Ok,
    ensures
        bumped_changelog(doc, kind, date, policy) matches Ok(out)
            && out.len() >= doc.len() - k
            && out.subrange(out.len() - (doc.len() - k), out.len() as int) == doc.subrange(k, doc.len() as int),
{
    let out = bumped_changelog(doc, kind, date, policy)->Ok_0;
    let v = next_release_version(kind, last_capture(doc, doc.len() as int))->Ok_0;
    let heading = crate::changelog::release_heading_text(v, date);
    lemma_released_lines_kept(doc, flags_of(doc), heading, k, doc.len() as int);
    let pre = rewritten(doc, flags_of(doc), heading, k);
    assert(out == pre + doc.subrange(k, doc.len() as int));
    assert(out.subrange(out.len() - (doc.len() - k), out.len() as int) =~= doc.subrange(k, doc.len() as int));
}

proof fn lemma_rewritten_grows(doc: Seq<Seq<char>>, flags: CategoryFlags, heading: Seq<char>, a: int, b: int)
    requires
        0 <= a <= b,
    ensures
        rewritten(doc, flags, heading, a).len() <= rewritten(doc, flags, heading, b).len(),
        forall|i: int| 0 <= i < rewritten(doc, flags, heading, a).len()
            ==> #[trigger] rewritten(doc, flags, heading, b)[i] == rewritten(doc, flags, heading, a)[i],
    decreases b - a,
{
    if a < b {
        lemma_rewritten_grows(doc, flags, heading, a, b - 1);
    }
}

proof fn lemma_plain_prefix(doc: Seq<Seq<char>>, flags: CategoryFlags, heading: Seq<char>, m: int)
    requires
        0 <= m <= doc.len(),
        forall|j: int| 0 <= j < m ==> !is_release_heading(#[trigger] doc[j]) && doc[j] != unreleased_marker(),
    ensures
        forall|i: int| 0 <= i < rewritten(doc, flags, heading, m).len() ==> {
            let x = #[trigger] rewritten(doc, flags, heading, m)[i];
            !is_release_heading(x) && x != unreleased_marker()
        },
    decreases m,
{
    if m > 0 {
        lemma_plain_prefix(doc, flags, heading, m - 1);
        let prev = rewritten(doc, flags, heading, m - 1);
        let piece = line_output(doc, flags, heading, m - 1);
        assert(piece.len() == 0 || piece =~= seq![doc[m - 1]]);
        assert forall|i: int| 0 <= i < rewritten(doc, flags, heading, m).len() implies {
            let x = #[trigger] rewritten(doc, flags, heading, m)[i];
            !is_release_heading(x) && x != unreleased_marker()
        } by {
            if i >= prev.len() {
                assert(rewritten(doc, flags, heading, m)[i] == piece[i - prev.len()]);
            } else {
                assert(rewritten(doc, flags, heading, m)[i] == prev[i]);
            }
        }
    }
}

proof fn lemma_block_texts(heading: Seq<char>, version: Seq<char>, date: Seq<char>)
    requires
        heading == release_heading_text(version, date),
    ensures
        is_release_heading(heading),
        heading != unreleased_marker(),
        forall|c: Category| heading != #[trigger] category_heading(c),
        forall|i: int| 0 <= i < 4 ==> !is_release_heading(#[trigger] fresh_block(heading)[i]),
{
    reveal_strlit("## [");
    reveal_strlit("## Unreleased");
    reveal_strlit("### Changed");
    reveal_strlit("### Added");
    reveal_strlit("### Fixed\n");
    lemma_marker_texts();
    assert(heading.subrange(0, 4) =~= "## ["@);
    assert(unreleased_marker().subrange(0, 4)[3] != "## ["@[3]);
    assert("### Changed"@.subrange(0, 4)[2] != "## ["@[2]);
    assert("### Added"@.subrange(0, 4)[2] != "## ["@[2]);
    assert("### Fixed\n"@.subrange(0, 4)[2] != "## ["@[2]);
    assert forall|c: Category| heading != #[trigger] category_heading(c) by {
        assert(!is_release_heading(category_heading(c)));
    }
}

/// Running the bump again on its own output cuts another release: the second
/// output holds the second run's release heading and, after it, the first
/// run's heading; and the second run takes its earlier version from the first
/// run's heading wherever that heading matches the release-heading pattern.
pub proof fn lemma_second_run_cuts_another_release(
    doc: Seq<Seq<char>>,
    u: int,
    kind1: BumpKind,
    date1: Seq<char>,
    policy1: MissingRelease,
    kind2: BumpKind,
    date2: Seq<char>,
    policy2: MissingRelease,
)
    requires
        0 <= u < doc.len(),
        doc[u] == unreleased_marker(),
        scanned(doc, u),
        forall|j: int| 0 <= j < u ==> #[trigger] doc[j] != unreleased_marker(),
        bumped_changelog(doc, kind1, date1, policy1) is Ok,
        bumped_changelog(bumped_changelog(doc, kind1, date1, policy1)->Ok_0, kind2, date2, policy2) is Ok,
    ensures
        ({
            let out1 = bumped_changelog(doc, kind1, date1, policy1)->Ok_0;
            let out2 = bumped_changelog(out1, kind2, date2, policy2)->Ok_0;
            let h1 = release_heading_text(next_release_version(kind1, last_capture(doc, doc.len() as int))->Ok_0, date1);
            let h2 = release_heading_text(next_release_version(kind2, last_capture(out1, out1.len() as int))->Ok_0, date2);
            &&& exists|i: int, j: int| 0 <= i < j < out2.len() && out2[i] == h2 && out2[j] == h1
            &&& release_version_in(h1) is Some ==> last_capture(out1, out1.len() as int) == release_version_in(h1)
        }),
{
    let out1 = bumped_changelog(doc, kind1, date1, policy1)->Ok_0;
    let out2 = bumped_changelog(out1, kind2, date2, policy2)->Ok_0;
    let v1 = next_release_version(kind1, last_capture(doc, doc.len() as int))->Ok_0;
    let v2 = next_release_version(kind2, last_capture(out1, out1.len() as int))->Ok_0;
    let h1 = release_heading_text(v1, date1);
    let h2 = release_heading_text(v2, date2);
    let f1 = flags_of(doc);
    let f2 = flags_of(out1);
    lemma_block_texts(h1, v1, date1);
    lemma_block_texts(h2, v2, date2);
    lemma_marker_texts();

    // The first output: the lines before the marker, then the fresh block.
    assert(out1 == rewritten(doc, f1, h1, doc.len() as int));
    lemma_plain_prefix(doc, f1, h1, u);
    let m = rewritten(doc, f1, h1, u).len() as int;
    assert(rewritten(doc, f1, h1, u + 1) == rewritten(doc, f1, h1, u) + fresh_block(h1));
    lemma_rewritten_grows(doc, f1, h1, u + 1, doc.len() as int);
    assert forall|i: int| 0 <= i < 5 implies out1[m + i] == #[trigger] fresh_block(h1)[i] by {
        assert(rewritten(doc, f1, h1, u + 1)[m + i] == fresh_block(h1)[i]);
    }
    assert forall|j: int| 0 <= j < m + 4 implies !is_release_heading(#[trigger] out1[j]) by {
        if j < m {
            assert(rewritten(doc, f1, h1, u + 1)[j] == rewritten(doc, f1, h1, u)[j]);
        } else {
            assert(out1[m + (j - m)] == fresh_block(h1)[j - m]);
        }
    }
    assert(out1[m + 4] == h1);
    assert(scanned(out1, m + 4));

    // The second scan stops at the first run's heading.
    lemma_scan_stops(out1, m + 4, out1.len() as int);

    // The second output: the block with the second heading, then the first heading.
    assert forall|j: int| 0 <= j < m implies !is_release_heading(#[trigger] out1[j]) && out1[j] != unreleased_marker() by {
        assert(rewritten(doc, f1, h1, u + 1)[j] == rewritten(doc, f1, h1, u)[j]);
    }
    assert(out2 == rewritten(out1, f2, h2, out1.len() as int));
    assert(out1[m + 0] == fresh_block(h1)[0]);
    assert(line_output(out1, f2, h2, m) == fresh_block(h2));
    let a = rewritten(out1, f2, h2, m).len() as int;
    assert(rewritten(out1, f2, h2, m + 1) == rewritten(out1, f2, h2, m) + fresh_block(h2));
    assert(rewritten(out1, f2, h2, m + 1)[a + 4] == h2);
    assert(line_output(out1, f2, h2, m + 4) == seq![h1]);
    let b = rewritten(out1, f2, h2, m + 4).len() as int;
    assert(rewritten(out1, f2, h2, m + 5) == rewritten(out1, f2, h2, m + 4) + seq![h1]);
    assert(rewritten(out1, f2, h2, m + 5)[b] == h1);
    lemma_rewritten_grows(out1, f2, h2, m + 1, m + 4);
    lemma_rewritten_grows(out1, f2, h2, m + 1, out1.len() as int);
    lemma_rewritten_grows(out1, f2, h2, m + 5, out1.len() as int);
    assert(out2[a + 4] == h2);
    assert(out2[b] == h1);
    assert(a + 4 < b);
}

} // verus!
