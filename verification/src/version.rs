//! Fleet release versions (`major.minor.patch`) and their order.
use vstd::prelude::*;

use crate::text::{split_chars, split_spec, to_chars, views};

verus! {

/// A Fleet release version.
#[derive(Debug, Clone, Copy, PartialEq, Eq, Structural)]
pub struct Version {
    pub major: u64,
    pub minor: u64,
    pub patch: u64,
}

/// `a` is the same release as `b` or a later one (lexicographic order).
pub open spec fn version_ge(a: Version, b: Version) -> bool {
    ||| a.major > b.major
    ||| (a.major == b.major && a.minor > b.minor)
    ||| (a.major == b.major && a.minor == b.minor && a.patch >= b.patch)
}

/// A decimal digit character.
pub open spec fn is_digit(c: char) -> bool {
    '0' <= c && c <= '9'
}

/// The value of a string of decimal digits.
pub open spec fn digits_value(s: Seq<char>) -> nat
    decreases s.len(),
{
    if s.len() == 0 {
        0
    } else {
        digits_value(s.drop_last()) * 10 + ((s.last() as u32) - ('0' as u32)) as nat
    }
}

/// A non-empty string of decimal digits whose value fits in a `u64`.
pub open spec fn parse_component(s: Seq<char>) -> Option<u64> {
    if s.len() > 0 && (forall|i: int| 0 <= i < s.len() ==> is_digit(#[trigger] s[i]))
        && digits_value(s) <= u64::MAX {
        Some(digits_value(s) as u64)
    } else {
        None
    }
}

/// The version written `major.minor.patch`, each part a decimal number.
pub open spec fn parse_version(s: Seq<char>) -> Option<Version> {
    let parts = split_spec(s, '.');
    if parts.len() == 3 && parse_component(parts[0]) is Some && parse_component(parts[1]) is Some
        && parse_component(parts[2]) is Some {
        Some(
            Version {
                major: parse_component(parts[0])->0,
                minor: parse_component(parts[1])->0,
                patch: parse_component(parts[2])->0,
            },
        )
    } else {
        None
    }
}

proof fn lemma_digits_value_grows(s: Seq<char>, j: int, k: int)
    requires
        0 <= j <= k <= s.len(),
        forall|i: int| 0 <= i < s.len() ==> is_digit(#[trigger] s[i]),
    ensures
        digits_value(s.take(j)) <= digits_value(s.take(k)),
    decreases k - j,
{
    if j < k {
        lemma_digits_value_grows(s, j, k - 1);
        assert(s.take(k).drop_last() =~= s.take(k - 1));
    }
}

fn parse_number(s: &Vec<char>) -> (r: Option<u64>)
    ensures
        r == parse_component(s@),
{
    if s.len() == 0 {
        return None;
    }
    let mut v: u64 = 0;
    let mut i: usize = 0;
    while i < s.len()
        invariant
            0 < s.len(),
            i <= s.len(),
            forall|j: int| 0 <= j < i ==> is_digit(#[trigger] s@[j]),
            v == digits_value(s@.take(i as int)),
        decreases s.len() - i,
    {
        let c = s[i];
        if !('0' <= c && c <= '9') {
            return None;
        }
        let d = (c as u32 - '0' as u32) as u64;
        assert(s@.take(i + 1).drop_last() =~= s@.take(i as int));
        if v > (u64::MAX - d) / 10 {
            assert(v * 10 + d > u64::MAX) by (nonlinear_arith)
                requires
                    v > (u64::MAX - d) / 10,
                    d <= 9,
            ;
            // Any digits that follow only make the value larger.
            let mut k: usize = i + 1;
            while k < s.len()
                invariant
                    i < k <= s.len(),
                    forall|j: int| 0 <= j < k ==> is_digit(#[trigger] s@[j]),
                decreases s.len() - k,
            {
                if !('0' <= s[k] && s[k] <= '9') {
                    return None;
                }
                k += 1;
            }
            proof {
                lemma_digits_value_grows(s@, i + 1, s.len() as int);
                assert(s@.take(s.len() as int) =~= s@);
            }
            return None;
        }
        assert(v * 10 + d <= u64::MAX) by (nonlinear_arith)
            requires
                v <= (u64::MAX - d) / 10,
                d <= 9,
        ;
        v = v * 10 + d;
        i += 1;
    }
    assert(s@.take(s.len() as int) =~= s@);
    Some(v)
}

impl Version {
    pub fn new(major: u64, minor: u64, patch: u64) -> (v: Version)
        ensures
            v == (Version { major, minor, patch }),
    {
        Version { major, minor, patch }
    }

    /// Whether `self` is `other` or a later release.
    pub fn is_at_least(&self, other: &Version) -> (r: bool)
        ensures
            r == version_ge(*self, *other),
    {
        self.major > other.major || (self.major == other.major && self.minor > other.minor) || (
        self.major == other.major && self.minor == other.minor && self.patch >= other.patch)
    }

    /// Parses `major.minor.patch`; `None` for anything else.
    pub fn parse(s: &str) -> (r: Option<Version>)
        ensures
            r == parse_version(s@),
    {
        let chars = to_chars(s);
        let parts = split_chars(&chars, '.');
        if parts.len() != 3 {
            return None;
        }
        assert(views(parts@)[0] == parts@[0]@);
        assert(views(parts@)[1] == parts@[1]@);
        assert(views(parts@)[2] == parts@[2]@);
        let major = parse_number(&parts[0]);
        let minor = parse_number(&parts[1]);
        let patch = parse_number(&parts[2]);
        match (major, minor, patch) {
            (Some(major), Some(minor), Some(patch)) => Some(Version { major, minor, patch }),
            _ => None,
        }
    }
}

/// The order on versions is total.
pub proof fn lemma_version_total(a: Version, b: Version)
    ensures
        version_ge(a, b) || version_ge(b, a),
{
}

/// The order on versions is transitive.
pub proof fn lemma_version_transitive(a: Version, b: Version, c: Version)
    requires
        version_ge(a, b),
        version_ge(b, c),
    ensures
        version_ge(a, c),
{
}

/// The order on versions is antisymmetric.
pub proof fn lemma_version_antisymmetric(a: Version, b: Version)
    requires
        version_ge(a, b),
        version_ge(b, a),
    ensures
        a == b,
{
}

} // verus!
