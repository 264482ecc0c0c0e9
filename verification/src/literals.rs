//! Recognition of numeric tokens: the token shapes that 64-bit signed
//! integer parsing and double-precision decimal parsing accept, stated
//! over character sequences and decided by verified scanners.

use crate::text::{digit_char, digit_val, is_digit_char, lemma_find_from};
use vstd::prelude::*;

verus! {

/// Every character is a decimal digit.
pub open spec fn all_digits(s: Seq<char>) -> bool {
    forall|j: int| 0 <= j < s.len() ==> is_digit_char(s[j])
}

/// The numeric value of a sequence of decimal digits.
pub open spec fn digits_val(s: Seq<char>) -> int
    decreases s.len(),
{
    if s.len() == 0 {
        0
    } else {
        digits_val(s.drop_last()) * 10 + digit_val(s.last())
    }
}

/// The token with one leading sign character removed, if present.
pub open spec fn sign_body(s: Seq<char>) -> Seq<char> {
    if s.len() > 0 && (s[0] == '+' || s[0] == '-') {
        s.drop_first()
    } else {
        s
    }
}

pub open spec fn is_neg(s: Seq<char>) -> bool {
    s.len() > 0 && s[0] == '-'
}

/// A token that signed 64-bit integer parsing accepts: an optional sign,
/// then one or more decimal digits whose value fits the range.
pub open spec fn is_int_lit(s: Seq<char>) -> bool {
    let b = sign_body(s);
    b.len() > 0 && all_digits(b) && (if is_neg(s) {
        digits_val(b) <= 0x8000000000000000
    } else {
        digits_val(b) <= 0x7fffffffffffffff
    })
}

/// Case-insensitive match of a character against a lowercase ASCII letter.
pub open spec fn eqci(c: char, l: char) -> bool {
    c == l || c as u32 + 32 == l as u32
}

pub(crate) fn ci(c: char, l: char) -> (r: bool)
    ensures
        r == eqci(c, l),
{
    let cu: u32 = c as u32;
    let lu: u32 = l as u32;
    cu == lu || cu + 32 == lu
}

/// The reserved non-finite spellings, case-insensitive.
pub open spec fn is_inf_nan(b: Seq<char>) -> bool {
    ||| (b.len() == 3 && eqci(b[0], 'i') && eqci(b[1], 'n') && eqci(b[2], 'f'))
    ||| (b.len() == 8 && eqci(b[0], 'i') && eqci(b[1], 'n') && eqci(b[2], 'f') && eqci(b[3], 'i')
        && eqci(b[4], 'n') && eqci(b[5], 'i') && eqci(b[6], 't') && eqci(b[7], 'y'))
    ||| (b.len() == 3 && eqci(b[0], 'n') && eqci(b[1], 'a') && eqci(b[2], 'n'))
}

/// Decimal digits holding at most one decimal point and at least one digit.
pub open spec fn is_mantissa(s: Seq<char>) -> bool {
    ||| (s.len() > 0 && all_digits(s))
    ||| (s.len() > 1 && exists|d: int|
        0 <= d < s.len() && s[d] == '.' && all_digits(s.subrange(0, d)) && all_digits(
            s.subrange(d + 1, s.len() as int),
        ))
}

/// An exponent part: an optional sign and at least one digit.
pub open spec fn is_exp_part(s: Seq<char>) -> bool {
    let b = sign_body(s);
    b.len() > 0 && all_digits(b)
}

/// The first position at or after `i` of an exponent marker.
pub open spec fn find_e(s: Seq<char>, i: int) -> Option<int>
    decreases s.len() - i,
{
    if i < 0 || i >= s.len() {
        None
    } else if s[i] == 'e' || s[i] == 'E' {
        Some(i)
    } else {
        find_e(s, i + 1)
    }
}

pub proof fn lemma_find_e(s: Seq<char>, i: int)
    requires
        0 <= i <= s.len(),
    ensures
        match find_e(s, i) {
            Some(k) => i <= k < s.len() && (s[k] == 'e' || s[k] == 'E') && forall|j: int|
                i <= j < k ==> s[j] != 'e' && s[j] != 'E',
            None => forall|j: int| i <= j < s.len() ==> s[j] != 'e' && s[j] != 'E',
        },
    decreases s.len() - i,
{
    if i < s.len() && s[i] != 'e' && s[i] != 'E' {
        lemma_find_e(s, i + 1);
    }
}

/// A finite decimal number: a mantissa with an optional exponent.
pub open spec fn is_number_body(s: Seq<char>) -> bool {
    match find_e(s, 0) {
        Some(k) => is_mantissa(s.subrange(0, k)) && is_exp_part(s.subrange(k + 1, s.len() as int)),
        None => is_mantissa(s),
    }
}

/// A token that double-precision decimal parsing accepts: an optional
/// sign, then a non-finite spelling or a decimal number.
pub open spec fn is_float_lit(s: Seq<char>) -> bool {
    let b = sign_body(s);
    is_inf_nan(b) || is_number_body(b)
}

/// Decides whether every character of `v[lo..hi]` is a decimal digit.
pub(crate) fn all_digits_range(v: &Vec<char>, lo: usize, hi: usize) -> (r: bool)
    requires
        lo <= hi <= v@.len(),
    ensures
        r == all_digits(v@.subrange(lo as int, hi as int)),
{
    let ghost s = v@.subrange(lo as int, hi as int);
    let mut i: usize = lo;
    while i < hi
        invariant
            lo <= i <= hi <= v@.len(),
            s == v@.subrange(lo as int, hi as int),
            forall|j: int| 0 <= j < i - lo ==> is_digit_char(s[j]),
        decreases hi - i,
    {
        if !digit_char(v[i]) {
            proof {
                assert(s[i - lo] == v@[i as int]);
            }
            return false;
        }
        proof {
            assert(s[i - lo] == v@[i as int]);
        }
        i = i + 1;
    }
    true
}

/// Decides whether `v[lo..hi]` is a token in range of signed 64-bit
/// integer parsing.
pub(crate) fn is_int_literal_range(v: &Vec<char>, lo: usize, hi: usize) -> (r: bool)
    requires
        lo <= hi <= v@.len(),
    ensures
        r == is_int_lit(v@.subrange(lo as int, hi as int)),
{
    let ghost s = v@.subrange(lo as int, hi as int);
    let mut i: usize = lo;
    let mut neg = false;
    if i < hi && (v[i] == '+' || v[i] == '-') {
        neg = v[i] == '-';
        i = i + 1;
    }
    let ghost b = v@.subrange(i as int, hi as int);
    proof {
        if s.len() > 0 && (s[0] == '+' || s[0] == '-') {
            assert(s[0] == v@[lo as int]);
            assert(b =~= sign_body(s));
        } else {
            assert(b =~= sign_body(s));
        }
        assert(neg == is_neg(s));
    }
    if i == hi {
        return false;
    }
    let mut acc: u128 = 0;
    let mut big = false;
    let mut k: usize = i;
    while k < hi
        invariant
            lo <= i <= k <= hi <= v@.len(),
            i < hi,
            s == v@.subrange(lo as int, hi as int),
            b == v@.subrange(i as int, hi as int),
            b == sign_body(s),
            neg == is_neg(s),
            all_digits(b.subrange(0, k - i)),
            !big ==> acc == digits_val(b.subrange(0, k - i)) && acc <= 0x8000000000000000,
            big ==> digits_val(b.subrange(0, k - i)) > 0x8000000000000000,
        decreases hi - k,
    {
        let c = v[k];
        proof {
            assert(b[k - i] == v@[k as int]);
        }
        if !digit_char(c) {
            return false;
        }
        let d: u32 = c as u32;
        proof {
            let prev = b.subrange(0, k - i);
            let cur = b.subrange(0, k - i + 1);
            assert(cur.drop_last() =~= prev);
            assert(cur.last() == b[k - i]);
        }
        if big {
        } else {
            let next: u128 = acc * 10 + ((d - 48) as u128);
            if next > 0x8000000000000000u128 {
                big = true;
            } else {
                acc = next;
            }
        }
        k = k + 1;
    }
    proof {
        assert(b.subrange(0, hi - i) =~= b);
    }
    if neg {
        !big
    } else {
        !big && acc <= 0x7fffffffffffffffu128
    }
}

/// Decides whether `v[lo..hi]` is a mantissa.
pub(crate) fn is_mantissa_range(v: &Vec<char>, lo: usize, hi: usize) -> (r: bool)
    requires
        lo <= hi <= v@.len(),
    ensures
        r == is_mantissa(v@.subrange(lo as int, hi as int)),
{
    let ghost s = v@.subrange(lo as int, hi as int);
    match crate::text::find_char_range(v, lo, hi, '.') {
        None => {
            proof {
                lemma_find_from(s, 0, '.');
            }
            let r = hi > lo && all_digits_range(v, lo, hi);
            proof {
                if !r {
                    assert forall|d: int|
                        !(0 <= d < s.len() && s[d] == '.' && all_digits(s.subrange(0, d))
                            && all_digits(s.subrange(d + 1, s.len() as int))) by {
                        if 0 <= d < s.len() {
                            assert(s[d] != '.');
                        }
                    }
                }
            }
            r
        },
        Some(p) => {
            proof {
                lemma_find_from(s, 0, '.');
                assert(s[p - lo] == '.');
            }
            if hi - lo <= 1 {
                proof {
                    assert(!(s.len() > 0 && all_digits(s)));
                }
                return false;
            }
            let left_ok = all_digits_range(v, lo, p);
            let right_ok = all_digits_range(v, p + 1, hi);
            proof {
                assert(v@.subrange(lo as int, p as int) =~= s.subrange(0, p - lo));
                assert(v@.subrange(p + 1, hi as int) =~= s.subrange(p - lo + 1, s.len() as int));
                assert(!all_digits(s)) by {
                    assert(!is_digit_char(s[p - lo]));
                }
            }
            if left_ok && right_ok {
                proof {
                    let d = p - lo;
                    assert(0 <= d < s.len() && s[d] == '.' && all_digits(s.subrange(0, d))
                        && all_digits(s.subrange(d + 1, s.len() as int)));
                }
                true
            } else {
                proof {
                    assert forall|d: int|
                        !(0 <= d < s.len() && s[d] == '.' && all_digits(s.subrange(0, d))
                            && all_digits(s.subrange(d + 1, s.len() as int))) by {
                        if 0 <= d < s.len() && s[d] == '.' {
                            if d < p - lo {
                                assert(s[d] != '.');
                            } else if d > p - lo {
                                assert(s.subrange(0, d)[p - lo] == s[p - lo]);
                                assert(!all_digits(s.subrange(0, d)));
                            } else {
                                assert(!(all_digits(s.subrange(0, d)) && all_digits(
                                    s.subrange(d + 1, s.len() as int),
                                )));
                            }
                        }
                    }
                }
                false
            }
        },
    }
}

/// Decides whether `v[lo..hi]` is an exponent part.
pub(crate) fn is_exp_part_range(v: &Vec<char>, lo: usize, hi: usize) -> (r: bool)
    requires
        lo <= hi <= v@.len(),
    ensures
        r == is_exp_part(v@.subrange(lo as int, hi as int)),
{
    let ghost s = v@.subrange(lo as int, hi as int);
    let mut i: usize = lo;
    if i < hi && (v[i] == '+' || v[i] == '-') {
        i = i + 1;
    }
    proof {
        if s.len() > 0 && (s[0] == '+' || s[0] == '-') {
            assert(s[0] == v@[lo as int]);
            assert(v@.subrange(i as int, hi as int) =~= sign_body(s));
        } else {
            assert(v@.subrange(i as int, hi as int) =~= sign_body(s));
        }
    }
    hi > i && all_digits_range(v, i, hi)
}

/// Finds the first exponent marker in `v[lo..hi]`.
pub(crate) fn find_e_range(v: &Vec<char>, lo: usize, hi: usize) -> (r: Option<usize>)
    requires
        lo <= hi <= v@.len(),
    ensures
        match r {
            Some(k) => lo <= k < hi && find_e(v@.subrange(lo as int, hi as int), 0) == Some(
                k - lo,
            ),
            None => find_e(v@.subrange(lo as int, hi as int), 0) is None,
        },
{
    let ghost s = v@.subrange(lo as int, hi as int);
    let mut i: usize = lo;
    while i < hi
        invariant
            lo <= i <= hi <= v@.len(),
            s == v@.subrange(lo as int, hi as int),
            find_e(s, 0) == find_e(s, i - lo),
        decreases hi - i,
    {
        let c = v[i];
        proof {
            assert(s[i - lo] == v@[i as int]);
        }
        if c == 'e' || c == 'E' {
            return Some(i);
        }
        i = i + 1;
    }
    None
}

/// Decides whether `v[lo..hi]` is a token that double-precision decimal
/// parsing accepts.
pub(crate) fn is_float_literal_range(v: &Vec<char>, lo: usize, hi: usize) -> (r: bool)
    requires
        lo <= hi <= v@.len(),
    ensures
        r == is_float_lit(v@.subrange(lo as int, hi as int)),
{
    let ghost s = v@.subrange(lo as int, hi as int);
    let mut i: usize = lo;
    if i < hi && (v[i] == '+' || v[i] == '-') {
        i = i + 1;
    }
    let ghost b = v@.subrange(i as int, hi as int);
    proof {
        if s.len() > 0 && (s[0] == '+' || s[0] == '-') {
            assert(s[0] == v@[lo as int]);
            assert(b =~= sign_body(s));
        } else {
            assert(b =~= sign_body(s));
        }
        assert forall|j: int| 0 <= j < b.len() implies b[j] == v@[i + j] by {}
    }
    if hi - i == 3 {
        let w0 = v[i];
        let w1 = v[i + 1];
        let w2 = v[i + 2];
        proof {
            assert(b[0] == v@[i as int]);
            assert(b[1] == v@[i + 1]);
            assert(b[2] == v@[i + 2]);
        }
        if ci(w0, 'i') && ci(w1, 'n') && ci(w2, 'f') {
            return true;
        }
        if ci(w0, 'n') && ci(w1, 'a') && ci(w2, 'n') {
            return true;
        }
    }
    if hi - i == 8 {
        proof {
            assert(b[0] == v@[i as int]);
            assert(b[1] == v@[i + 1]);
            assert(b[2] == v@[i + 2]);
            assert(b[3] == v@[i + 3]);
            assert(b[4] == v@[i + 4]);
            assert(b[5] == v@[i + 5]);
            assert(b[6] == v@[i + 6]);
            assert(b[7] == v@[i + 7]);
        }
        if ci(v[i], 'i') && ci(v[i + 1], 'n') && ci(v[i + 2], 'f') && ci(v[i + 3], 'i') && ci(
            v[i + 4],
            'n',
        ) && ci(v[i + 5], 'i') && ci(v[i + 6], 't') && ci(v[i + 7], 'y') {
            return true;
        }
    }
    match find_e_range(v, i, hi) {
        None => is_mantissa_range(v, i, hi),
        Some(k) => {
            let m_ok = is_mantissa_range(v, i, k);
            let e_ok = is_exp_part_range(v, k + 1, hi);
            proof {
                assert(v@.subrange(i as int, k as int) =~= b.subrange(0, k - i));
                assert(v@.subrange(k + 1, hi as int) =~= b.subrange(k - i + 1, b.len() as int));
            }
            m_ok && e_ok
        },
    }
}

} // verus!
