//! Semantic versions: reading one out of free text, bumping it, writing it.

use vstd::prelude::*;

verus! {

/// Which component of a version a release increments.
#[derive(Clone, Copy, Debug, PartialEq, Eq, Structural)]
pub enum BumpKind {
    Major,
    Minor,
    Patch,
}

/// A version `major.minor.patch`.
#[derive(Clone, Copy, Debug, PartialEq, Eq, Structural)]
pub struct Version {
    pub major: u64,
    pub minor: u64,
    pub patch: u64,
}

/// Why no next version could be computed.
#[derive(Clone, Copy, Debug, PartialEq, Eq, Structural)]
pub enum VersionError {
    /// A component holds digits other than `0`-`9`, or is too large for `u64`.
    InvalidComponent,
    /// The component to increment is already `u64::MAX`.
    Overflow,
}

/// The first match of `(\d+)\.(\d+)\.(\d+)` in a text, as its three groups
/// (`\d` being any Unicode decimal digit).
pub uninterp spec fn version_numbers_in(text: Seq<char>) -> Option<(Seq<char>, Seq<char>, Seq<char>)>;

/// Relies on `regex::Regex::new` (the pattern is valid, so it compiles) and
/// `Regex::captures`: the first match of `(\d+)\.(\d+)\.(\d+)`, split into its groups.
#[verifier::external_body]
fn find_version_numbers(text: &str) -> (r: Option<(String, String, String)>)
    ensures
        r matches Some(t) ==> version_numbers_in(text@) == Some((t.0@, t.1@, t.2@)),
        r is None ==> version_numbers_in(text@) is None,
{
    let re = regex::Regex::new(r"(\d+)\.(\d+)\.(\d+)").unwrap();
    match re.captures(text) {
        Some(caps) => {
            let (_, [a, b, c]) = caps.extract();
            Some((a.to_string(), b.to_string(), c.to_string()))
        },
        None => None,
    }
}

pub open spec fn is_ascii_digit(c: char) -> bool {
    '0' <= c && c <= '9'
}

pub open spec fn digit_value(c: char) -> nat {
    (c as u32 - '0' as u32) as nat
}

/// Every character of `s` is one of `0`-`9`.
pub open spec fn all_digits(s: Seq<char>) -> bool {
    forall|i: int| 0 <= i < s.len() ==> is_ascii_digit(#[trigger] s[i])
}

/// The number that the decimal digits `s` denote.
pub open spec fn decimal_value(s: Seq<char>) -> nat
    decreases s.len(),
{
    if s.len() == 0 {
        0
    } else {
        decimal_value(s.drop_last()) * 10 + digit_value(s.last())
    }
}

/// `s` is a non-empty string of ASCII digits whose value fits in a `u64`.
pub open spec fn is_u64_decimal(s: Seq<char>) -> bool {
    s.len() > 0 && all_digits(s) && decimal_value(s) <= u64::MAX
}

/// The character of the digit `d`.
pub open spec fn digit_char(d: nat) -> char {
    if d == 0 { '0' }
    else if d == 1 { '1' }
    else if d == 2 { '2' }
    else if d == 3 { '3' }
    else if d == 4 { '4' }
    else if d == 5 { '5' }
    else if d == 6 { '6' }
    else if d == 7 { '7' }
    else if d == 8 { '8' }
    else { '9' }
}

/// The shortest decimal writing of `n`.
pub open spec fn decimal(n: nat) -> Seq<char>
    decreases n,
{
    if n < 10 {
        seq![digit_char(n)]
    } else {
        decimal(n / 10).push(digit_char(n % 10))
    }
}

/// The version written `major.minor.patch`.
pub open spec fn version_text(v: Version) -> Seq<char> {
    decimal(v.major as nat) + seq!['.'] + decimal(v.minor as nat) + seq!['.'] + decimal(v.patch as nat)
}

/// The version that a free text names: the numbers of the first
/// `digits.digits.digits` in it, or `0.0.0` where there is none.
pub open spec fn version_in(text: Seq<char>) -> Result<Version, VersionError> {
    match version_numbers_in(text) {
        None => Ok(Version { major: 0, minor: 0, patch: 0 }),
        Some((a, b, c)) => if is_u64_decimal(a) && is_u64_decimal(b) && is_u64_decimal(c) {
            Ok(Version {
                major: decimal_value(a) as u64,
                minor: decimal_value(b) as u64,
                patch: decimal_value(c) as u64,
            })
        } else {
            Err(VersionError::InvalidComponent)
        },
    }
}

/// The component of `v` that `kind` increments.
pub open spec fn component(v: Version, kind: BumpKind) -> u64 {
    match kind {
        BumpKind::Major => v.major,
        BumpKind::Minor => v.minor,
        BumpKind::Patch => v.patch,
    }
}

/// `v` with the component that `kind` names incremented, the others untouched.
pub open spec fn bumped(v: Version, kind: BumpKind) -> Version {
    match kind {
        BumpKind::Major => Version { major: (v.major + 1) as u64, ..v },
        BumpKind::Minor => Version { minor: (v.minor + 1) as u64, ..v },
        BumpKind::Patch => Version { patch: (v.patch + 1) as u64, ..v },
    }
}

/// The result of bumping `v` by `kind`: an overflow of the component is an error.
pub open spec fn bump_result(v: Version, kind: BumpKind) -> Result<Version, VersionError> {
    if component(v, kind) == u64::MAX {
        Err(VersionError::Overflow)
    } else {
        Ok(bumped(v, kind))
    }
}

/// The text of the version that follows the one named in `last`.
pub open spec fn next_version_text(kind: BumpKind, last: Seq<char>) -> Result<Seq<char>, VersionError> {
    match version_in(last) {
        Err(e) => Err(e),
        Ok(v) => match bump_result(v, kind) {
            Err(e) => Err(e),
            Ok(w) => Ok(version_text(w)),
        },
    }
}

proof fn lemma_decimal_value_grows(s: Seq<char>, k: int)
    requires
        0 <= k <= s.len(),
        all_digits(s),
    ensures
        decimal_value(s.subrange(0, k)) <= decimal_value(s),
    decreases s.len(),
{
    if k < s.len() {
        assert(all_digits(s.drop_last()));
        assert(s.drop_last().subrange(0, k) =~= s.subrange(0, k));
        lemma_decimal_value_grows(s.drop_last(), k);
    } else {
        assert(s.subrange(0, k) =~= s);
    }
}

/// Reads a non-empty string of ASCII digits as a `u64`.
pub fn parse_decimal(s: &str) -> (r: Option<u64>)
    ensures
        r == (if is_u64_decimal(s@) { Some(decimal_value(s@) as u64) } else { None::<u64> }),
{
    let n = s.unicode_len();
    if n == 0 {
        return None;
    }
    let mut acc: u64 = 0;
    let mut i: usize = 0;
    while i < n
        invariant
            n == s@.len(),
            i <= n,
            all_digits(s@.subrange(0, i as int)),
            acc as nat == decimal_value(s@.subrange(0, i as int)),
        decreases n - i,
    {
        let c = s.get_char(i);
        proof {
            assert(s@.subrange(0, i + 1).drop_last() =~= s@.subrange(0, i as int));
            assert(s@.subrange(0, i + 1).last() == c);
        }
        if c < '0' || c > '9' {
            return None;
        }
        let d = (c as u32 - '0' as u32) as u64;
        let next = match acc.checked_mul(10) {
            Some(t) => t.checked_add(d),
            None => None,
        };
        match next {
            Some(t) => {
                acc = t;
            },
            None => {
                proof {
                    if all_digits(s@) {
                        lemma_decimal_value_grows(s@, i + 1);
                    }
                }
                return None;
            },
        }
        i = i + 1;
        proof {
            assert(all_digits(s@.subrange(0, i as int)));
        }
    }
    assert(s@.subrange(0, n as int) =~= s@);
    Some(acc)
}

fn digit_str(d: u64) -> (r: &'static str)
    requires
        d < 10,
    ensures
        r@ == seq![digit_char(d as nat)],
{
    proof {
        reveal_strlit("0");
        reveal_strlit("1");
        reveal_strlit("2");
        reveal_strlit("3");
        reveal_strlit("4");
        reveal_strlit("5");
        reveal_strlit("6");
        reveal_strlit("7");
        reveal_strlit("8");
        reveal_strlit("9");
    }
    if d == 0 { "0" }
    else if d == 1 { "1" }
    else if d == 2 { "2" }
    else if d == 3 { "3" }
    else if d == 4 { "4" }
    else if d == 5 { "5" }
    else if d == 6 { "6" }
    else if d == 7 { "7" }
    else if d == 8 { "8" }
    else { "9" }
}

/// Appends the decimal writing of `n` to `s`.
pub fn push_decimal(s: &mut String, n: u64)
    ensures
        final(s)@ == old(s)@ + decimal(n as nat),
    decreases n,
{
    if n >= 10 {
        push_decimal(s, n / 10);
    }
    s.append(digit_str(n % 10));
    proof {
        if n >= 10 {
            assert(old(s)@ + decimal(n as nat) =~= old(s)@ + decimal((n / 10) as nat) + seq![digit_char((n % 10) as nat)]);
        } else {
            assert(decimal(n as nat) =~= seq![digit_char((n % 10) as nat)]);
        }
    }
}

impl Version {
    /// The version written `major.minor.patch`.
    pub fn to_text(&self) -> (r: String)
        ensures
            r@ == version_text(*self),
    {
        let mut s = String::new();
        push_decimal(&mut s, self.major);
        s.append(".");
        push_decimal(&mut s, self.minor);
        s.append(".");
        push_decimal(&mut s, self.patch);
        proof {
            reveal_strlit(".");
            assert(s@ =~= version_text(*self));
        }
        s
    }

    /// This version with the component that `kind` names incremented; the
    /// other two components are kept as they are.
    pub fn bump(&self, kind: BumpKind) -> (r: Result<Version, VersionError>)
        ensures
            r == bump_result(*self, kind),
    {
        match kind {
            BumpKind::Major => if self.major == u64::MAX {
                Err(VersionError::Overflow)
            } else {
                Ok(Version { major: self.major + 1, ..*self })
            },
            BumpKind::Minor => if self.minor == u64::MAX {
                Err(VersionError::Overflow)
            } else {
                Ok(Version { minor: self.minor + 1, ..*self })
            },
            BumpKind::Patch => if self.patch == u64::MAX {
                Err(VersionError::Overflow)
            } else {
                Ok(Version { patch: self.patch + 1, ..*self })
            },
        }
    }
}

/// The version that a free text names: the numbers of the first
/// `digits.digits.digits` in it, or `0.0.0` where there is none.
pub fn parse_version(text: &str) -> (r: Result<Version, VersionError>)
    ensures
        r == version_in(text@),
{
    match find_version_numbers(text) {
        None => Ok(Version { major: 0, minor: 0, patch: 0 }),
        Some((a, b, c)) => {
            match (parse_decimal(a.as_str()), parse_decimal(b.as_str()), parse_decimal(c.as_str())) {
                (Some(x), Some(y), Some(z)) => Ok(Version { major: x, minor: y, patch: z }),
                _ => Err(VersionError::InvalidComponent),
            }
        },
    }
}

/// The text of the version after the one named in `last`, bumped by `kind`.
pub fn get_new_version(kind: BumpKind, last: &str) -> (r: Result<String, VersionError>)
    ensures
        match r {
            Ok(s) => next_version_text(kind, last@) == Ok::<Seq<char>, VersionError>(s@),
            Err(e) => next_version_text(kind, last@) == Err::<Seq<char>, VersionError>(e),
        },
{
    let v = parse_version(last)?;
    let w = v.bump(kind)?;
    Ok(w.to_text())
}

/// Bumping increments exactly the component that the kind names and leaves the
/// other two as they were: no lower component is reset.
pub proof fn lemma_bump_increments_one_component(v: Version, kind: BumpKind)
    requires
        component(v, kind) < u64::MAX,
    ensures
        bump_result(v, kind) matches Ok(w) && match kind {
            BumpKind::Major => w.major == v.major + 1 && w.minor == v.minor && w.patch == v.patch,
            BumpKind::Minor => w.major == v.major && w.minor == v.minor + 1 && w.patch == v.patch,
            BumpKind::Patch => w.major == v.major && w.minor == v.minor && w.patch == v.patch + 1,
        },
{
}

} // verus!
