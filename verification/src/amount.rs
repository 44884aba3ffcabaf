//! Exact decimal parsing of monetary amounts.
//!
//! An amount token is one or more ASCII digits, optionally followed by a
//! decimal point and at most two fraction digits. Its value is held in
//! integer cents (hundredths of the currency unit), so no precision is lost
//! anywhere downstream. Tokens with more than two fraction digits, or values
//! that do not fit the cent representation, are rejected.

use vstd::prelude::*;

verus! {

pub open spec fn spec_is_digit(b: u8) -> bool {
    0x30 <= b && b <= 0x39
}

/// The numeric value of a run of ASCII digits, most significant first.
pub open spec fn spec_digits_value(s: Seq<u8>) -> int
    decreases s.len(),
{
    if s.len() == 0 {
        0
    } else {
        spec_digits_value(s.drop_last()) * 10 + (s.last() - 0x30)
    }
}

pub proof fn lemma_digits_value_nonneg(s: Seq<u8>)
    requires
        forall|j: int| 0 <= j < s.len() ==> spec_is_digit(s[j]),
    ensures
        spec_digits_value(s) >= 0,
    decreases s.len(),
{
    if s.len() > 0 {
        lemma_digits_value_nonneg(s.drop_last());
    }
}

/// Extending a digit run to the right never lowers its value.
pub proof fn lemma_digits_value_prefix_mono(s: Seq<u8>, a: int, b: int)
    requires
        0 <= a <= b <= s.len(),
        forall|j: int| 0 <= j < b ==> spec_is_digit(s[j]),
    ensures
        spec_digits_value(s.subrange(0, a)) <= spec_digits_value(s.subrange(0, b)),
    decreases b - a,
{
    if a < b {
        lemma_digits_value_prefix_mono(s, a, b - 1);
        let p = s.subrange(0, b);
        assert(p.drop_last() == s.subrange(0, b - 1));
        lemma_digits_value_nonneg(s.subrange(0, b - 1));
    }
}

/// Index of the first non-digit byte in `s` at or after `i`, or `s.len()`.
pub open spec fn digits_end_from(s: Seq<u8>, i: int) -> int
    decreases s.len() - i,
        when 0 <= i <= s.len()
{
    if i >= s.len() {
        i
    } else if !spec_is_digit(s[i]) {
        i
    } else {
        digits_end_from(s, i + 1)
    }
}

pub proof fn lemma_digits_end_from(s: Seq<u8>, i: int)
    requires
        0 <= i <= s.len(),
    ensures
        i <= digits_end_from(s, i) <= s.len(),
        forall|j: int| i <= j < digits_end_from(s, i) ==> spec_is_digit(s[j]),
        digits_end_from(s, i) < s.len() ==> !spec_is_digit(s[digits_end_from(s, i)]),
    decreases s.len() - i,
{
    if i < s.len() && spec_is_digit(s[i]) {
        lemma_digits_end_from(s, i + 1);
    }
}

/// The value in cents contributed by the fraction digits: none, tenths, or
/// tenths and hundredths.
pub open spec fn spec_frac_value(f: Seq<u8>) -> int {
    if f.len() == 0 {
        0
    } else if f.len() == 1 {
        10 * (f[0] - 0x30)
    } else {
        10 * (f[0] - 0x30) + (f[1] - 0x30)
    }
}

/// The exact value in cents of a decimal amount token, or `None` when the
/// token is not of the form `digits` or `digits '.' (0 to 2 digits)`.
pub open spec fn spec_amount_cents(s: Seq<u8>) -> Option<int> {
    let k = digits_end_from(s, 0);
    if k == 0 {
        None
    } else if k == s.len() {
        Some(spec_digits_value(s.subrange(0, k)) * 100)
    } else if s[k] == 0x2E && s.len() - (k + 1) <= 2 && (forall|j: int|
        k + 1 <= j < s.len() ==> spec_is_digit(s[j])) {
        Some(
            spec_digits_value(s.subrange(0, k)) * 100 + spec_frac_value(
                s.subrange(k + 1, s.len() as int),
            ),
        )
    } else {
        None
    }
}

/// Parses a decimal amount token into cents.
///
/// Returns the exact value that `spec_amount_cents` gives; `None` when the
/// token is not a well-formed amount, or when its value in cents does not
/// fit in a `u64`.
pub fn parse_amount_cents(s: &[u8]) -> (r: Option<u64>)
    ensures
        match r {
            Some(c) => spec_amount_cents(s@) == Some(c as int),
            None => spec_amount_cents(s@) is None || (spec_amount_cents(s@) matches Some(v) && v
                > u64::MAX),
        },
{
    proof {
        lemma_digits_end_from(s@, 0);
    }
    let ghost k = digits_end_from(s@, 0);
    let mut i: usize = 0;
    let mut val: u64 = 0;
    while i < s.len() && 0x30 <= s[i] && s[i] <= 0x39
        invariant
            0 <= i <= s@.len(),
            i <= k <= s@.len(),
            k == digits_end_from(s@, 0),
            forall|j: int| 0 <= j < i ==> spec_is_digit(s@[j]),
            val == spec_digits_value(s@.subrange(0, i as int)),
        decreases s@.len() - i,
    {
        proof {
            // s[i] is a digit and digits_end_from stops at the first
            // non-digit, so i is still strictly before k
            lemma_digits_end_from(s@, 0);
            assert((i as int) < k);
        }
        let d = s[i] - 0x30;
        let stepped = match val.checked_mul(10) {
            Some(v10) => v10.checked_add(d as u64),
            None => None,
        };
        proof {
            let p = s@.subrange(0, i + 1 as int);
            assert(p.drop_last() == s@.subrange(0, i as int));
            assert(spec_digits_value(p) == val * 10 + d);
        }
        match stepped {
            Some(v) => {
                val = v;
            },
            None => {
                proof {
                    // the digits seen so far are already worth more than
                    // u64::MAX, so any well-formed value is out of range
                    lemma_digits_end_from(s@, 0);
                    if spec_amount_cents(s@) is Some {
                        let v = spec_amount_cents(s@)->Some_0;
                        lemma_digits_value_prefix_mono(s@, i + 1, k);
                        assert(spec_digits_value(s@.subrange(0, i + 1 as int)) > u64::MAX);
                        lemma_digits_value_nonneg(s@.subrange(0, k));
                        assert(spec_digits_value(s@.subrange(0, k)) > u64::MAX);
                        assert(v > u64::MAX);
                    }
                }
                return None;
            },
        }
        i = i + 1;
    }
    proof {
        assert(i as int == k);
    }
    if i == 0 {
        return None;
    }
    if i == s.len() {
        let r = val.checked_mul(100);
        proof {
            if r is None {
                assert(spec_amount_cents(s@) matches Some(v) && v > u64::MAX);
            }
        }
        return r;
    }
    if s[i] != 0x2E {
        return None;
    }
    let fl = s.len() - i - 1;
    if fl > 2 {
        return None;
    }
    if fl >= 1 && !(0x30 <= s[i + 1] && s[i + 1] <= 0x39) {
        return None;
    }
    if fl == 2 && !(0x30 <= s[i + 2] && s[i + 2] <= 0x39) {
        return None;
    }
    let frac: u64 = if fl == 0 {
        0
    } else if fl == 1 {
        10 * ((s[i + 1] - 0x30) as u64)
    } else {
        10 * ((s[i + 1] - 0x30) as u64) + ((s[i + 2] - 0x30) as u64)
    };
    proof {
        assert(forall|j: int| k + 1 <= j < s@.len() ==> spec_is_digit(s@[j]));
        assert(frac == spec_frac_value(s@.subrange(k + 1, s@.len() as int)));
        lemma_digits_value_nonneg(s@.subrange(0, k));
    }
    let r = match val.checked_mul(100) {
        Some(v100) => v100.checked_add(frac),
        None => None,
    };
    proof {
        if r is None {
            assert(spec_amount_cents(s@) matches Some(v) && v > u64::MAX);
        }
    }
    r
}

} // verus!
