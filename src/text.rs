//! Character-level reading of version text: decimal integers and dots.
use vstd::prelude::*;

verus! {

/// An ASCII decimal digit.
pub open spec fn is_digit(c: char) -> bool {
    '0' <= c && c <= '9'
}

pub open spec fn all_digits(s: Seq<char>) -> bool {
    forall|i: int| 0 <= i < s.len() ==> is_digit(#[trigger] s[i])
}

pub open spec fn digit_value(c: char) -> nat {
    (c as u32 - '0' as u32) as nat
}

/// The value of a string of decimal digits, most significant digit first.
pub open spec fn digits_value(s: Seq<char>) -> nat
    decreases s.len(),
{
    if s.len() == 0 {
        0
    } else {
        digits_value(s.drop_last()) * 10 + digit_value(s.last())
    }
}

/// The integer written by `s`: an optional `+` or `-` sign followed by at
/// least one decimal digit, and nothing else.
pub open spec fn signed_value(s: Seq<char>) -> Option<int> {
    if s.len() > 0 && (s[0] == '-' || s[0] == '+') {
        let d = s.subrange(1, s.len() as int);
        if d.len() > 0 && all_digits(d) {
            if s[0] == '-' {
                Some(-(digits_value(d) as int))
            } else {
                Some(digits_value(d) as int)
            }
        } else {
            None
        }
    } else if s.len() > 0 && all_digits(s) {
        Some(digits_value(s) as int)
    } else {
        None
    }
}

/// The `i32` written by `s`, when `s` writes an integer within its range.
pub open spec fn i32_of_text(s: Seq<char>) -> Option<i32> {
    match signed_value(s) {
        Some(v) => if i32::MIN <= v <= i32::MAX {
            Some(v as i32)
        } else {
            None
        },
        None => None,
    }
}

/// The position of the first `.` in `s` at or after `from`, or `s.len()`
/// when there is none.
pub open spec fn next_dot(s: Seq<char>, from: int) -> int
    decreases s.len() - from,
{
    if from < 0 || from >= s.len() {
        s.len() as int
    } else if s[from] == '.' {
        from
    } else {
        next_dot(s, from + 1)
    }
}

pub proof fn lemma_next_dot_bounds(s: Seq<char>, from: int)
    requires
        0 <= from <= s.len(),
    ensures
        from <= next_dot(s, from) <= s.len(),
        next_dot(s, from) < s.len() ==> s[next_dot(s, from)] == '.',
        forall|k: int| from <= k < next_dot(s, from) ==> s[k] != '.',
    decreases s.len() - from,
{
    if from < s.len() && s[from] != '.' {
        lemma_next_dot_bounds(s, from + 1);
    }
}

/// Finds the first `.` of `s` at or after `from`.
pub fn find_dot(s: &str, len: usize, from: usize) -> (r: usize)
    requires
        len == s@.len(),
        from <= len,
    ensures
        r == next_dot(s@, from as int),
        from <= r <= len,
{
    proof {
        lemma_next_dot_bounds(s@, from as int);
    }
    let mut i: usize = from;
    while i < len
        invariant
            from <= i <= len,
            len == s@.len(),
            next_dot(s@, i as int) == next_dot(s@, from as int),
        decreases len - i,
    {
        if s.get_char(i) == '.' {
            return i;
        }
        i = i + 1;
    }
    i
}

proof fn lemma_digits_step(s: Seq<char>, a: int, b: int)
    requires
        0 <= a < b <= s.len(),
    ensures
        s.subrange(a, b).drop_last() == s.subrange(a, b - 1),
        s.subrange(a, b).last() == s[b - 1],
        digits_value(s.subrange(a, b)) == digits_value(s.subrange(a, b - 1)) * 10
            + digit_value(s[b - 1]),
{
    assert(s.subrange(a, b).drop_last() =~= s.subrange(a, b - 1));
}

/// Reads the `i32` written by the characters `start..end` of `s`.
pub fn parse_i32_in(s: &str, start: usize, end: usize) -> (r: Option<i32>)
    requires
        start <= end <= s@.len(),
    ensures
        r == i32_of_text(s@.subrange(start as int, end as int)),
{
    let ghost t = s@.subrange(start as int, end as int);
    if start == end {
        return None;
    }
    let first = s.get_char(start);
    let signed = first == '-' || first == '+';
    let digits_start: usize = if signed {
        start + 1
    } else {
        start
    };
    if digits_start == end {
        return None;
    }
    let ghost d = s@.subrange(digits_start as int, end as int);
    proof {
        if signed {
            assert(d =~= t.subrange(1, t.len() as int));
        } else {
            assert(d =~= t);
        }
    }
    let mut i: usize = digits_start;
    let mut acc: i64 = 0;
    let mut over = false;
    while i < end
        invariant
            start <= digits_start <= i <= end <= s@.len(),
            all_digits(s@.subrange(digits_start as int, i as int)),
            d == s@.subrange(digits_start as int, end as int),
            t == s@.subrange(start as int, end as int),
            t.len() > 0 && first == t[0],
            signed == (first == '-' || first == '+'),
            signed ==> d == t.subrange(1, t.len() as int),
            !signed ==> d == t,
            !over ==> acc == digits_value(s@.subrange(digits_start as int, i as int)),
            !over ==> 0 <= acc <= 2147483648,
            over ==> digits_value(s@.subrange(digits_start as int, i as int)) > 2147483648,
        decreases end - i,
    {
        let c = s.get_char(i);
        if !('0' <= c && c <= '9') {
            proof {
                assert(d[i - digits_start] == c);
                assert(!all_digits(d));
            }
            return None;
        }
        proof {
            lemma_digits_step(s@, digits_start as int, i + 1);
            assert(all_digits(s@.subrange(digits_start as int, i + 1))) by {
                assert forall|k: int| 0 <= k < i + 1 - digits_start implies is_digit(
                    #[trigger] s@.subrange(digits_start as int, i + 1)[k],
                ) by {
                    if k < i - digits_start {
                        assert(s@.subrange(digits_start as int, i as int)[k] == s@[digits_start + k]);
                    }
                }
            }
        }
        let dv: i64 = (c as u32 - '0' as u32) as i64;
        if !over {
            let v = acc * 10 + dv;
            if v > 2147483648 {
                over = true;
            } else {
                acc = v;
            }
        } else {
            proof {
                let p = digits_value(s@.subrange(digits_start as int, i as int));
                assert(p * 10 + dv > 2147483648) by (nonlinear_arith)
                    requires
                        p > 2147483648,
                        dv >= 0,
                ;
            }
        }
        i = i + 1;
    }
    proof {
        assert(s@.subrange(digits_start as int, i as int) == d);
    }
    if over {
        None
    } else if first == '-' {
        Some((-acc) as i32)
    } else if acc <= 2147483647 {
        Some(acc as i32)
    } else {
        None
    }
}

} // verus!

verus! {

/// Whether two strings hold the same characters.
pub fn same_text(a: &str, b: &str) -> (r: bool)
    ensures
        r == (a@ == b@),
{
    let n = a.unicode_len();
    if n != b.unicode_len() {
        return false;
    }
    let mut i: usize = 0;
    while i < n
        invariant
            i <= n,
            n == a@.len(),
            n == b@.len(),
            forall|k: int| 0 <= k < i ==> a@[k] == b@[k],
        decreases n - i,
    {
        if a.get_char(i) != b.get_char(i) {
            return false;
        }
        i = i + 1;
    }
    assert(a@ =~= b@);
    true
}

} // verus!
