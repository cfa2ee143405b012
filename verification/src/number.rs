//! Base-10 signed integer literals: what text denotes which number, and a
//! parser for such literals that neither panics nor overflows.

use vstd::prelude::*;
use vstd::string::StrSliceExecFns;

use crate::chars::char_digit;
use crate::chars::digit_value;

verus! {

/// Whether every character of `s` is a base-10 digit.
pub open spec fn all_digits(s: Seq<char>) -> bool {
    forall|i: int| 0 <= i < s.len() ==> char_digit(s[i])
}

/// The number denoted by a run of digit characters, most significant first.
pub open spec fn digits_val(s: Seq<char>) -> int
    decreases s.len(),
{
    if s.len() == 0 {
        0
    } else {
        digits_val(s.subrange(0, s.len() - 1)) * 10 + digit_value(s[s.len() - 1])
    }
}

/// The number denoted by `s` read as an optional minus sign followed by one
/// or more digits, or nothing when `s` has any other shape.
pub open spec fn number_value(s: Seq<char>) -> Option<int> {
    if s.len() > 0 && s[0] == '-' {
        let ds = s.subrange(1, s.len() as int);
        if ds.len() > 0 && all_digits(ds) {
            Some(-digits_val(ds))
        } else {
            None
        }
    } else {
        if s.len() > 0 && all_digits(s) {
            Some(digits_val(s))
        } else {
            None
        }
    }
}

/// The number denoted by `s` when it is well formed and fits an `i64`.
pub open spec fn str_to_i64(s: Seq<char>) -> Option<i64> {
    match number_value(s) {
        Some(v) => if i64::MIN <= v <= i64::MAX {
            Some(v as i64)
        } else {
            None
        },
        None => None,
    }
}

/// A run of digits denotes a non-negative number.
pub proof fn lemma_digits_val_nonneg(s: Seq<char>)
    requires
        all_digits(s),
    ensures
        digits_val(s) >= 0,
    decreases s.len(),
{
    if s.len() > 0 {
        let t = s.subrange(0, s.len() - 1);
        assert(all_digits(t));
        lemma_digits_val_nonneg(t);
        assert(digits_val(t) * 10 >= 0) by (nonlinear_arith)
            requires
                digits_val(t) >= 0,
        ;
    }
}

/// Extending a run of digits to the right never shrinks its value: the
/// number a prefix denotes is a lower bound for the whole.
pub proof fn lemma_digits_val_prefix(s: Seq<char>, k: int)
    requires
        all_digits(s),
        0 <= k <= s.len(),
    ensures
        digits_val(s.subrange(0, k)) <= digits_val(s),
    decreases s.len() - k,
{
    if k < s.len() {
        let t = s.subrange(0, k + 1);
        let p = s.subrange(0, k);
        assert(t.subrange(0, t.len() - 1) =~= p);
        assert(all_digits(p));
        lemma_digits_val_nonneg(p);
        assert(digits_val(t) == digits_val(p) * 10 + digit_value(t[k]));
        assert(digits_val(p) * 10 >= digits_val(p)) by (nonlinear_arith)
            requires
                digits_val(p) >= 0,
        ;
        lemma_digits_val_prefix(s, k + 1);
    } else {
        assert(s.subrange(0, k) =~= s);
    }
}

/// Parse `s` as a base-10 signed integer: `Some` exactly when `s` is an
/// optional minus sign followed by one or more digits denoting a number
/// that fits an `i64`, and then that number.
pub fn parse_i64(s: &str) -> (r: Option<i64>)
    ensures
        r == str_to_i64(s@),
{
    let n = s.unicode_len();
    let neg = n > 0 && s.get_char(0) == '-';
    let start: usize = if neg {
        1
    } else {
        0
    };
    let ghost ds = s@.subrange(start as int, n as int);
    if start >= n {
        return None;
    }
    let mut acc: i64 = 0;
    let mut i: usize = start;
    while i < n
        invariant
            start <= i <= n,
            n == s@.len(),
            start == (if neg { 1int } else { 0int }),
            neg ==> s@[0] == '-',
            !neg ==> (n > 0 ==> s@[0] != '-'),
            start < n,
            ds == s@.subrange(start as int, n as int),
            all_digits(s@.subrange(start as int, i as int)),
            acc <= 0,
            acc as int == -digits_val(s@.subrange(start as int, i as int)),
        decreases n - i,
    {
        let c = s.get_char(i);
        let u = c as u32;
        if u < 48 || u > 57 {
            proof {
                assert(!char_digit(s@[i as int]));
                assert(ds[i - start] == s@[i as int]);
                assert(!all_digits(ds));
                if !neg {
                    assert(ds =~= s@);
                }
            }
            return None;
        }
        let d = (u - 48) as i64;
        let ghost pref = s@.subrange(start as int, i as int);
        let ghost pref1 = s@.subrange(start as int, i + 1);
        proof {
            assert(pref1.subrange(0, pref1.len() - 1) =~= pref);
            assert(pref1 =~= pref.push(s@[i as int]));
            assert(digits_val(pref1) == digits_val(pref) * 10 + digit_value(s@[i as int]));
        }
        let step = match acc.checked_mul(10) {
            Some(x) => x.checked_sub(d),
            None => None,
        };
        match step {
            Some(y) => {
                acc = y;
            },
            None => {
                proof {
                    lemma_digits_overflow(s@, start as int, i as int, ds);
                }
                return None;
            },
        }
        i = i + 1;
    }
    proof {
        assert(s@.subrange(start as int, i as int) =~= ds);
        if !neg {
            assert(ds =~= s@);
        }
    }
    if neg {
        Some(acc)
    } else {
        if acc == i64::MIN {
            return None;
        }
        Some(-acc)
    }
}

/// When the digits seen so far already denote more than `i64` can hold in
/// magnitude, the text denotes no `i64`, whatever follows.
proof fn lemma_digits_overflow(s: Seq<char>, start: int, i: int, ds: Seq<char>)
    requires
        0 <= start <= i < s.len(),
        start <= 1,
        ds == s.subrange(start, s.len() as int),
        all_digits(s.subrange(start, i + 1)),
        digits_val(s.subrange(start, i + 1)) > i64::MAX + 1,
        start == 1 ==> s[0] == '-',
        start == 0 ==> s[0] != '-',
    ensures
        str_to_i64(s) is None,
{
    if start == 0 {
        assert(ds =~= s);
    }
    if all_digits(ds) {
        let p = s.subrange(start, i + 1);
        assert(ds.subrange(0, i + 1 - start) =~= p);
        lemma_digits_val_prefix(ds, i + 1 - start);
        assert(digits_val(ds) >= digits_val(p));
    } else {
        assert(number_value(s) is None);
    }
}

} // verus!
