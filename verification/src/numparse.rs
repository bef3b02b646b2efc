//! A verified decimal parser for `i32`, used by the `exit` builtin: an
//! optional `+` or `-` sign followed by one or more digits, rejected on any
//! other character or when the value falls outside the `i32` range.

use vstd::prelude::*;
use vstd::string::*;

verus! {

/// Whether the character is a decimal digit.
pub open spec fn is_digit(c: char) -> bool {
    48 <= c as u32 <= 57
}

/// The numeric value of a digit character.
pub open spec fn digit_val(c: char) -> int {
    c as u32 - 48
}

/// Whether every character of the sequence is a decimal digit.
pub open spec fn all_digits(s: Seq<char>) -> bool {
    forall|i: int| 0 <= i < s.len() ==> is_digit(s[i])
}

/// The value of a digit sequence read in base ten.
pub open spec fn digits_val(s: Seq<char>) -> int
    decreases s.len(),
{
    if s.len() == 0 {
        0
    } else {
        digits_val(s.take(s.len() - 1)) * 10 + digit_val(s[s.len() - 1])
    }
}

/// Whether the sequence starts with a sign character.
pub open spec fn has_sign(s: Seq<char>) -> bool {
    s.len() > 0 && (s[0] == '-' || s[0] == '+')
}

/// The digit part of the sequence: everything after an optional sign.
pub open spec fn digits_of(s: Seq<char>) -> Seq<char> {
    if has_sign(s) {
        s.skip(1)
    } else {
        s
    }
}

/// The signed value the sequence denotes, ignoring the `i32` range.
pub open spec fn signed_val(s: Seq<char>) -> int {
    if s.len() > 0 && s[0] == '-' {
        -digits_val(digits_of(s))
    } else {
        digits_val(digits_of(s))
    }
}

/// What parsing the sequence as an `i32` returns: the signed value when the
/// digit part is non-empty, all digits, and the value fits in `i32`; `None`
/// otherwise.
pub open spec fn spec_parse_i32(s: Seq<char>) -> Option<i32> {
    if digits_of(s).len() > 0 && all_digits(digits_of(s)) && i32::MIN <= signed_val(s)
        <= i32::MAX {
        Some(signed_val(s) as i32)
    } else {
        None
    }
}

/// The value of a digit sequence is never negative.
proof fn lemma_digits_val_nonneg(s: Seq<char>)
    requires
        all_digits(s),
    ensures
        digits_val(s) >= 0,
    decreases s.len(),
{
    if s.len() > 0 {
        assert(all_digits(s.take(s.len() - 1)));
        lemma_digits_val_nonneg(s.take(s.len() - 1));
    }
}

/// Reading more digits never decreases the value.
proof fn lemma_digits_val_mono(s: Seq<char>, i: int, j: int)
    requires
        all_digits(s),
        0 <= i <= j <= s.len(),
    ensures
        digits_val(s.take(i)) <= digits_val(s.take(j)),
    decreases j - i,
{
    if i < j {
        lemma_digits_val_mono(s, i, j - 1);
        assert(s.take(j).take(j - 1) =~= s.take(j - 1));
        assert(s.take(j)[j - 1] == s[j - 1]);
        assert(all_digits(s.take(j - 1)));
        lemma_digits_val_nonneg(s.take(j - 1));
        assert(digits_val(s.take(j)) == digits_val(s.take(j - 1)) * 10 + digit_val(s[j - 1]));
    }
}

/// Parses an optionally signed decimal `i32`, as the `exit` builtin reads its
/// argument.
pub fn parse_i32(s: &str) -> (r: Option<i32>)
    ensures
        r == spec_parse_i32(s@),
{
    let n = s.unicode_len();
    if n == 0 {
        return None;
    }
    let c0 = s.get_char(0);
    let neg = c0 == '-';
    let signed = c0 == '-' || c0 == '+';
    let start: usize = if signed {
        1
    } else {
        0
    };
    if start == n {
        return None;
    }
    let ghost ds = digits_of(s@);
    proof {
        if signed {
            assert(ds =~= s@.skip(1));
        }
        assert(ds.len() == n - start);
        assert(ds.take(0) =~= Seq::<char>::empty());
    }
    let mut acc: i64 = 0;
    let mut i: usize = start;
    while i < n
        invariant
            n == s@.len(),
            start <= i <= n,
            start == if has_sign(s@) { 1int } else { 0int },
            ds == digits_of(s@),
            ds.len() == n - start,
            forall|j: int| 0 <= j < i - start ==> is_digit(ds[j]),
            acc == digits_val(ds.take(i - start)),
            0 <= acc <= 2147483648,
        decreases n - i,
    {
        let ghost k: int = i - start;
        proof {
            assert(ds[k] == s@[i as int]);
        }
        let c = s.get_char(i);
        let d = c as u32;
        if d < 48 || d > 57 {
            proof {
                assert(!is_digit(ds[k]));
                assert(!all_digits(ds));
            }
            return None;
        }
        let dv = (d - 48) as i64;
        proof {
            assert(ds.take(k + 1).take(k) =~= ds.take(k));
            assert(ds.take(k + 1)[k] == ds[k]);
            assert(digits_val(ds.take(k + 1)) == acc * 10 + dv);
        }
        if acc > 214748364 || (acc == 214748364 && dv > 8) {
            proof {
                if all_digits(ds) {
                    lemma_digits_val_mono(ds, k + 1, ds.len() as int);
                    assert(ds.take(ds.len() as int) =~= ds);
                    assert(digits_val(ds) > 2147483648);
                }
            }
            return None;
        }
        acc = acc * 10 + dv;
        i += 1;
    }
    proof {
        assert(ds.take(ds.len() as int) =~= ds);
        assert(acc == digits_val(ds));
        assert(all_digits(ds));
    }
    if neg {
        if acc == 2147483648 {
            Some(i32::MIN)
        } else {
            Some(-(acc as i32))
        }
    } else {
        if acc == 2147483648 {
            None
        } else {
            Some(acc as i32)
        }
    }
}

} // verus!
