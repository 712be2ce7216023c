//! Byte strings: fields between delimiters, prefixes, decimal numbers.

use vstd::prelude::*;

verus! {

/// The position of the first `delim` in `s` at or after `from`, or the
/// length of `s` if there is none.
pub open spec fn scan(s: Seq<u8>, delim: u8, from: int) -> int
    decreases s.len() - from,
{
    if from < 0 || from >= s.len() {
        s.len() as int
    } else if s[from] == delim {
        from
    } else {
        scan(s, delim, from + 1)
    }
}

/// `scan` stops at the first delimiter and at none before it.
pub proof fn lemma_scan(s: Seq<u8>, delim: u8, from: int)
    requires
        0 <= from <= s.len(),
    ensures
        from <= scan(s, delim, from) <= s.len(),
        forall|i: int| from <= i < scan(s, delim, from) ==> s[i] != delim,
        scan(s, delim, from) < s.len() ==> s[scan(s, delim, from)] == delim,
    decreases s.len() - from,
{
    if from < s.len() && s[from] != delim {
        lemma_scan(s, delim, from + 1);
    }
}

/// The position of the first `delim` in `s` at or after `from`, or the
/// length of `s` if there is none.
pub fn find(s: &[u8], delim: u8, from: usize) -> (at: usize)
    ensures
        at == scan(s@, delim, from as int),
        at <= s@.len(),
        from <= s@.len() ==> from <= at,
{
    if from >= s.len() {
        return s.len();
    }
    let mut i: usize = from;
    while i < s.len() && s[i] != delim
        invariant
            from <= i <= s@.len(),
            scan(s@, delim, from as int) == scan(s@, delim, i as int),
        decreases s@.len() - i,
    {
        i = i + 1;
    }
    i
}

/// Whether `s` begins with `prefix`, byte for byte.
pub fn starts_with(s: &[u8], prefix: &[u8]) -> (yes: bool)
    ensures
        yes == prefix@.is_prefix_of(s@),
{
    if prefix.len() > s.len() {
        return false;
    }
    let mut i: usize = 0;
    while i < prefix.len()
        invariant
            i <= prefix@.len() <= s@.len(),
            forall|k: int| 0 <= k < i ==> prefix@[k] == s@[k],
        decreases prefix@.len() - i,
    {
        if prefix[i] != s[i] {
            return false;
        }
        i = i + 1;
    }
    true
}

/// Whether two byte strings are the same.
pub fn same_bytes(a: &[u8], b: &[u8]) -> (same: bool)
    ensures
        same == (a@ == b@),
{
    let same = a.len() == b.len() && starts_with(a, b);
    proof {
        if same {
            assert(a@ =~= b@);
        }
    }
    same
}

/// Append the bytes of `s` to `v`.
pub fn append(v: &mut Vec<u8>, s: &[u8])
    ensures
        final(v)@ == old(v)@ + s@,
{
    let mut i: usize = 0;
    while i < s.len()
        invariant
            i <= s@.len(),
            v@ == old(v)@ + s@.take(i as int),
        decreases s@.len() - i,
    {
        v.push(s[i]);
        i = i + 1;
        assert(v@ =~= old(v)@ + s@.take(i as int));
    }
    assert(s@.take(s@.len() as int) =~= s@);
}

/// Whether `b` is an ASCII decimal digit.
pub open spec fn is_digit(b: u8) -> bool {
    0x30 <= b <= 0x39
}

/// The number that a string of decimal digits writes.
pub open spec fn decimal_value(digits: Seq<u8>) -> nat
    decreases digits.len(),
{
    if digits.len() == 0 {
        0
    } else {
        (10 * decimal_value(digits.drop_last()) + (digits.last() - 0x30)) as nat
    }
}

/// Whether `s` begins with a sign, `+` or `-`.
pub open spec fn has_sign(s: Seq<u8>) -> bool {
    s.len() > 0 && (s[0] == 0x2b || s[0] == 0x2d)
}

/// What follows the sign of `s`, or all of `s` if it has none.
pub open spec fn unsigned_part(s: Seq<u8>) -> Seq<u8> {
    if has_sign(s) {
        s.skip(1)
    } else {
        s
    }
}

/// Whether `s` holds decimal digits and nothing else.
pub open spec fn all_digits(s: Seq<u8>) -> bool {
    forall|i: int| 0 <= i < s.len() ==> is_digit(#[trigger] s[i])
}

/// The integer that `s` writes in decimal, as a 64-bit signed number: an
/// optional sign, `+` or `-`, then one or more decimal digits and nothing
/// else, with a value that fits. Any other string writes none.
pub open spec fn parse_decimal(s: Seq<u8>) -> Option<int> {
    let digits = unsigned_part(s);
    let value = if has_sign(s) && s[0] == 0x2d {
        -(decimal_value(digits) as int)
    } else {
        decimal_value(digits) as int
    };
    if digits.len() > 0 && all_digits(digits) && i64::MIN <= value <= i64::MAX {
        Some(value)
    } else {
        None
    }
}

/// A longer string of digits writes no smaller a number.
proof fn lemma_decimal_value_grows(digits: Seq<u8>, k: int)
    requires
        0 <= k <= digits.len(),
        all_digits(digits),
    ensures
        decimal_value(digits.take(k)) <= decimal_value(digits),
    decreases digits.len() - k,
{
    if k == digits.len() {
        assert(digits.take(k) =~= digits);
    } else {
        lemma_decimal_value_grows(digits, k + 1);
        assert(digits.take(k + 1).drop_last() =~= digits.take(k));
        assert(is_digit(digits[k]));
    }
}

/// Read `s` as a decimal 64-bit signed integer.
#[verifier::loop_isolation(false)]
pub fn parse_i64(s: &[u8]) -> (parsed: Option<i64>)
    ensures
        match parsed {
            Some(value) => parse_decimal(s@) == Some(value as int),
            None => parse_decimal(s@) is None,
        },
{
    let negative = s.len() > 0 && s[0] == 0x2d;
    let start: usize = if s.len() > 0 && (s[0] == 0x2b || s[0] == 0x2d) {
        1
    } else {
        0
    };
    if start == s.len() {
        return None;
    }
    let ghost digits = unsigned_part(s@);
    let limit: u128 = 0x8000_0000_0000_0000;
    let mut magnitude: u128 = 0;
    let mut i: usize = start;
    while i < s.len()
        invariant
            start <= i <= s@.len(),
            all_digits(digits.take(i - start)),
            magnitude == decimal_value(digits.take(i - start)),
            magnitude <= limit,
            limit == 0x8000_0000_0000_0000,
        decreases s@.len() - i,
    {
        let b = s[i];
        assert(b == digits[i - start]);
        if b < 0x30 || b > 0x39 {
            assert(!is_digit(digits[i - start]));
            return None;
        }
        assert(digits.take(i - start + 1).drop_last() =~= digits.take(i - start));
        assert(all_digits(digits.take(i - start + 1))) by {
            assert forall|k: int| 0 <= k < i - start + 1 implies is_digit(
                #[trigger] digits.take(i - start + 1)[k],
            ) by {
                if k < i - start {
                    assert(digits.take(i - start)[k] == digits[k]);
                }
            }
        }
        magnitude = magnitude * 10 + (b - 0x30) as u128;
        i = i + 1;
        if magnitude > limit {
            proof {
                if all_digits(digits) {
                    lemma_decimal_value_grows(digits, i - start);
                }
            }
            return None;
        }
    }
    assert(digits.take(i - start) =~= digits);
    if negative {
        if magnitude == limit {
            Some(i64::MIN)
        } else {
            Some(-(magnitude as i64))
        }
    } else if magnitude == limit {
        None
    } else {
        Some(magnitude as i64)
    }
}

} // verus!
