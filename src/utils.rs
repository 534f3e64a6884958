//! Versions and their two written forms: dotted text and an integer triple.
use vstd::prelude::*;

use crate::text::{
    all_digits, digits_value, find_dot, i32_of_text, lemma_next_dot_bounds, next_dot, parse_i32_in,
};

verus! {

/// A three-part version with a pre-release flag.
#[derive(Clone, Copy, Debug, PartialEq, Eq, Structural)]
pub struct SemVer {
    pub major: i32,
    pub minor: i32,
    pub patch: i32,
    pub beta: bool,
}

/// One of the three numeric parts of a version.
#[derive(Clone, Copy, Debug, PartialEq, Eq, Structural)]
pub enum VersionField {
    Major,
    Minor,
    Patch,
}

/// Why a written version could not be read.
#[derive(Clone, Copy, Debug, PartialEq, Eq, Structural)]
pub enum VersionError {
    /// Fewer than three parts.
    MissingComponents,
    /// The named part is not an integer that fits in an `i32`.
    InvalidComponent(VersionField),
}

/// The pre-release marker that may end a dotted version.
pub open spec fn beta_suffix() -> Seq<char> {
    seq!['-', 'b', 'e', 't', 'a']
}

pub open spec fn has_beta_suffix(s: Seq<char>) -> bool {
    s.len() >= 5 && s.subrange(s.len() - 5, s.len() as int) == beta_suffix()
}

/// The dotted part of a version text: the text without its pre-release marker.
pub open spec fn version_body(s: Seq<char>) -> Seq<char> {
    if has_beta_suffix(s) {
        s.subrange(0, s.len() - 5)
    } else {
        s
    }
}

/// The version written as `MAJOR.MINOR.PATCH`, optionally followed by `-beta`.
/// The text is split on `.`; the first three parts are read as integers and
/// any further parts are ignored.
pub open spec fn version_of_text(s: Seq<char>) -> Result<SemVer, VersionError> {
    let b = version_body(s);
    let e0 = next_dot(b, 0);
    let e1 = next_dot(b, e0 + 1);
    let e2 = next_dot(b, e1 + 1);
    if e0 >= b.len() || e1 >= b.len() {
        Err(VersionError::MissingComponents)
    } else {
        match (
            i32_of_text(b.subrange(0, e0)),
            i32_of_text(b.subrange(e0 + 1, e1)),
            i32_of_text(b.subrange(e1 + 1, e2)),
        ) {
            (None, _, _) => Err(VersionError::InvalidComponent(VersionField::Major)),
            (_, None, _) => Err(VersionError::InvalidComponent(VersionField::Minor)),
            (_, _, None) => Err(VersionError::InvalidComponent(VersionField::Patch)),
            (Some(major), Some(minor), Some(patch)) => Ok(
                SemVer { major, minor, patch, beta: has_beta_suffix(s) },
            ),
        }
    }
}

/// The version written as `[major, minor, patch]`; further elements are
/// ignored, and this form has no pre-release marker.
pub open spec fn version_of_triple(v: Seq<i32>) -> Result<SemVer, VersionError> {
    if v.len() < 3 {
        Err(VersionError::MissingComponents)
    } else {
        Ok(SemVer { major: v[0], minor: v[1], patch: v[2], beta: false })
    }
}

/// Reads a version written as dotted text, such as `1.20.3` or `1.2.0-beta`.
pub fn parse_semver_from_str(src: &str) -> (r: Result<SemVer, VersionError>)
    ensures
        r == version_of_text(src@),
{
    let n = src.unicode_len();
    let beta = n >= 5 && src.get_char(n - 5) == '-' && src.get_char(n - 4) == 'b'
        && src.get_char(n - 3) == 'e' && src.get_char(n - 2) == 't' && src.get_char(n - 1)
        == 'a';
    proof {
        if n >= 5 {
            let tail = src@.subrange(n - 5, n as int);
            if beta {
                assert(tail =~= beta_suffix());
            } else if tail == beta_suffix() {
                assert(tail[0] == src@[n - 5]);
                assert(tail[1] == src@[n - 4]);
                assert(tail[2] == src@[n - 3]);
                assert(tail[3] == src@[n - 2]);
                assert(tail[4] == src@[n - 1]);
            }
        }
    }
    let len: usize = if beta {
        n - 5
    } else {
        n
    };
    let ghost b = version_body(src@);
    assert(b =~= src@.subrange(0, len as int));
    let e0 = find_dot_in(src, len, 0);
    if e0 >= len {
        return Err(VersionError::MissingComponents);
    }
    let e1 = find_dot_in(src, len, e0 + 1);
    if e1 >= len {
        return Err(VersionError::MissingComponents);
    }
    let e2 = find_dot_in(src, len, e1 + 1);
    proof {
        assert(b.subrange(0, e0 as int) =~= src@.subrange(0, e0 as int));
        assert(b.subrange(e0 + 1, e1 as int) =~= src@.subrange(e0 + 1, e1 as int));
        assert(b.subrange(e1 + 1, e2 as int) =~= src@.subrange(e1 + 1, e2 as int));
    }
    let major = match parse_i32_in(src, 0, e0) {
        Some(v) => v,
        None => {
            return Err(VersionError::InvalidComponent(VersionField::Major));
        },
    };
    let minor = match parse_i32_in(src, e0 + 1, e1) {
        Some(v) => v,
        None => {
            return Err(VersionError::InvalidComponent(VersionField::Minor));
        },
    };
    let patch = match parse_i32_in(src, e1 + 1, e2) {
        Some(v) => v,
        None => {
            return Err(VersionError::InvalidComponent(VersionField::Patch));
        },
    };
    Ok(SemVer { major, minor, patch, beta })
}

proof fn lemma_next_dot_prefix(s: Seq<char>, len: int, from: int)
    requires
        0 <= from <= len <= s.len(),
    ensures
        next_dot(s.subrange(0, len), from) == if next_dot(s, from) < len {
            next_dot(s, from)
        } else {
            len
        },
    decreases len - from,
{
    lemma_next_dot_bounds(s, from);
    if from < len && s[from] != '.' {
        lemma_next_dot_prefix(s, len, from + 1);
    }
}

/// Finds the first `.` among the first `len` characters of `s`, at or after
/// `from`; `len` when there is none.
fn find_dot_in(s: &str, len: usize, from: usize) -> (r: usize)
    requires
        from <= len <= s@.len(),
    ensures
        r == next_dot(s@.subrange(0, len as int), from as int),
        from <= r <= len,
{
    proof {
        lemma_next_dot_prefix(s@, len as int, from as int);
    }
    let r = find_dot(s, s.unicode_len(), from);
    if r < len {
        r
    } else {
        len
    }
}

/// Reads a version written as an integer triple `[major, minor, patch]`.
pub fn parse_semver_from_vec(src: Vec<i32>) -> (r: Result<SemVer, VersionError>)
    ensures
        r == version_of_triple(src@),
{
    if src.len() < 3 {
        Err(VersionError::MissingComponents)
    } else {
        Ok(SemVer { major: src[0], minor: src[1], patch: src[2], beta: false })
    }
}

/// Reading `[a, b, c]` gives the version `a.b.c`, not a pre-release.
pub proof fn law_version_of_triple(a: i32, b: i32, c: i32)
    ensures
        version_of_triple(seq![a, b, c]) == Ok::<SemVer, VersionError>(
            SemVer { major: a, minor: b, patch: c, beta: false },
        ),
{
}

/// The dotted form of three non-empty runs of decimal digits.
pub open spec fn dotted(a: Seq<char>, b: Seq<char>, c: Seq<char>) -> Seq<char> {
    a + seq!['.'] + b + seq!['.'] + c
}

/// A run of decimal digits that writes an integer within the range of `i32`.
pub open spec fn is_i32_digits(d: Seq<char>) -> bool {
    d.len() > 0 && all_digits(d) && digits_value(d) <= i32::MAX
}

proof fn lemma_next_dot_at(s: Seq<char>, from: int, k: int)
    requires
        0 <= from <= k <= s.len(),
        k < s.len() ==> s[k] == '.',
        forall|j: int| from <= j < k ==> s[j] != '.',
    ensures
        next_dot(s, from) == k,
    decreases k - from,
{
    if from < k {
        lemma_next_dot_at(s, from + 1, k);
    }
}

proof fn lemma_i32_digits(d: Seq<char>)
    requires
        is_i32_digits(d),
    ensures
        i32_of_text(d) == Some(digits_value(d) as i32),
{
    assert(crate::text::is_digit(d[0]));
}

/// The body `a.b.c` splits into the parts `a`, `b` and `c`.
proof fn lemma_dotted_parts(a: Seq<char>, b: Seq<char>, c: Seq<char>)
    requires
        is_i32_digits(a),
        is_i32_digits(b),
        is_i32_digits(c),
    ensures
        ({
            let s = dotted(a, b, c);
            let e0 = next_dot(s, 0);
            let e1 = next_dot(s, e0 + 1);
            let e2 = next_dot(s, e1 + 1);
            &&& e0 < s.len() && e1 < s.len()
            &&& s.subrange(0, e0) == a
            &&& s.subrange(e0 + 1, e1) == b
            &&& s.subrange(e1 + 1, e2) == c
        }),
{
    let s = dotted(a, b, c);
    let e0 = a.len() as int;
    let e1 = e0 + 1 + b.len();
    assert(s[e0] == '.');
    assert(s[e1] == '.');
    assert forall|j: int| 0 <= j < e0 implies s[j] != '.' by {
        assert(s[j] == a[j]);
        assert(crate::text::is_digit(a[j]));
    }
    assert forall|j: int| e0 + 1 <= j < e1 implies s[j] != '.' by {
        assert(s[j] == b[j - e0 - 1]);
        assert(crate::text::is_digit(b[j - e0 - 1]));
    }
    assert forall|j: int| e1 + 1 <= j < s.len() implies s[j] != '.' by {
        assert(s[j] == c[j - e1 - 1]);
        assert(crate::text::is_digit(c[j - e1 - 1]));
    }
    lemma_next_dot_at(s, 0, e0);
    lemma_next_dot_at(s, e0 + 1, e1);
    lemma_next_dot_at(s, e1 + 1, s.len() as int);
    assert(s.subrange(0, e0) =~= a);
    assert(s.subrange(e0 + 1, e1) =~= b);
    assert(s.subrange(e1 + 1, s.len() as int) =~= c);
}

/// Reading the text `a.b.c`, each part a run of decimal digits, gives the
/// version of those three numbers, not a pre-release; reading `a.b.c-beta`
/// gives the same numbers as a pre-release.
pub proof fn law_version_of_dotted_text(a: Seq<char>, b: Seq<char>, c: Seq<char>)
    requires
        is_i32_digits(a),
        is_i32_digits(b),
        is_i32_digits(c),
    ensures
        version_of_text(dotted(a, b, c)) == Ok::<SemVer, VersionError>(
            SemVer {
                major: digits_value(a) as i32,
                minor: digits_value(b) as i32,
                patch: digits_value(c) as i32,
                beta: false,
            },
        ),
        version_of_text(dotted(a, b, c) + beta_suffix()) == Ok::<SemVer, VersionError>(
            SemVer {
                major: digits_value(a) as i32,
                minor: digits_value(b) as i32,
                patch: digits_value(c) as i32,
                beta: true,
            },
        ),
{
    let s = dotted(a, b, c);
    lemma_dotted_parts(a, b, c);
    lemma_i32_digits(a);
    lemma_i32_digits(b);
    lemma_i32_digits(c);
    let n = s.len() as int;
    assert(s[n - 1] == c[c.len() - 1]);
    assert(crate::text::is_digit(c[c.len() - 1]));
    if has_beta_suffix(s) {
        assert(s.subrange(n - 5, n)[4] == s[n - 1]);
    }
    assert(version_body(s) == s);
    let t = s + beta_suffix();
    assert(t.subrange(t.len() - 5, t.len() as int) =~= beta_suffix());
    assert(version_body(t) =~= s);
}

} // verus!
