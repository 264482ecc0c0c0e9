//! Character classification and small verified helpers over character
//! sequences: leading/trailing whitespace, searching, and string building.

use vstd::prelude::*;
use vstd::string::StrSliceExecFns;
use vstd::string::StringExecFns;

verus! {

/// The Unicode `White_Space` characters, the set that `char::is_whitespace`
/// recognizes; written out so that nothing about whitespace is assumed.
pub open spec fn is_ws_char(c: char) -> bool {
    let u = c as u32;
    (9 <= u && u <= 13) || u == 32 || u == 0x85 || u == 0xA0 || u == 0x1680 || (0x2000 <= u && u
        <= 0x200A) || u == 0x2028 || u == 0x2029 || u == 0x202F || u == 0x205F || u == 0x3000
}

pub fn ws_char(c: char) -> (r: bool)
    ensures
        r == is_ws_char(c),
{
    let u: u32 = c as u32;
    (9 <= u && u <= 13) || u == 32 || u == 0x85 || u == 0xA0 || u == 0x1680 || (0x2000 <= u && u
        <= 0x200A) || u == 0x2028 || u == 0x2029 || u == 0x202F || u == 0x205F || u == 0x3000
}

pub open spec fn is_digit_char(c: char) -> bool {
    48 <= c as u32 && c as u32 <= 57
}

/// The numeric value of a decimal digit character.
pub open spec fn digit_val(c: char) -> int {
    c as u32 - 48
}

pub fn digit_char(c: char) -> (r: bool)
    ensures
        r == is_digit_char(c),
{
    let u: u32 = c as u32;
    48 <= u && u <= 57
}

/// Whether a character has the Unicode `Alphabetic` property.
pub uninterp spec fn alpha_char(c: char) -> bool;

/// Relies on `char::is_alphabetic`: whether the character has the Unicode
/// `Alphabetic` property, a function of the character alone.
pub assume_specification[ char::is_alphabetic ](c: char) -> (r: bool)
    ensures
        r == alpha_char(c),
;

/// Relies on `String::push`: appends one character at the end of the string.
pub assume_specification[ String::push ](s: &mut String, c: char)
    ensures
        final(s)@ == old(s)@.push(c),
;

/// The number of leading whitespace characters.
pub open spec fn lws(s: Seq<char>) -> int
    decreases s.len(),
{
    if s.len() == 0 || !is_ws_char(s[0]) {
        0
    } else {
        1 + lws(s.drop_first())
    }
}

/// The number of trailing whitespace characters.
pub open spec fn tws(s: Seq<char>) -> int
    decreases s.len(),
{
    if s.len() == 0 || !is_ws_char(s.last()) {
        0
    } else {
        1 + tws(s.drop_last())
    }
}

pub proof fn lemma_lws(s: Seq<char>)
    ensures
        0 <= lws(s) <= s.len(),
        forall|j: int| 0 <= j < lws(s) ==> is_ws_char(s[j]),
        lws(s) < s.len() ==> !is_ws_char(s[lws(s)]),
    decreases s.len(),
{
    if s.len() > 0 && is_ws_char(s[0]) {
        lemma_lws(s.drop_first());
        assert forall|j: int| 0 <= j < lws(s) implies is_ws_char(s[j]) by {
            if j > 0 {
                assert(s.drop_first()[j - 1] == s[j]);
            }
        }
        if lws(s) < s.len() {
            assert(s.drop_first()[lws(s) - 1] == s[lws(s)]);
        }
    }
}

pub proof fn lemma_lws_is(s: Seq<char>, k: int)
    requires
        0 <= k <= s.len(),
        forall|j: int| 0 <= j < k ==> is_ws_char(s[j]),
        k < s.len() ==> !is_ws_char(s[k]),
    ensures
        lws(s) == k,
    decreases s.len(),
{
    if k == 0 {
    } else {
        assert(is_ws_char(s[0]));
        assert forall|j: int| 0 <= j < k - 1 implies is_ws_char(s.drop_first()[j]) by {
            assert(s.drop_first()[j] == s[j + 1]);
        }
        if k - 1 < s.drop_first().len() {
            assert(s.drop_first()[k - 1] == s[k]);
        }
        lemma_lws_is(s.drop_first(), k - 1);
    }
}

pub proof fn lemma_tws(s: Seq<char>)
    ensures
        0 <= tws(s) <= s.len(),
        forall|j: int| s.len() - tws(s) <= j < s.len() ==> is_ws_char(s[j]),
        tws(s) < s.len() ==> !is_ws_char(s[s.len() - tws(s) - 1]),
    decreases s.len(),
{
    if s.len() > 0 && is_ws_char(s.last()) {
        lemma_tws(s.drop_last());
        assert forall|j: int| s.len() - tws(s) <= j < s.len() implies is_ws_char(s[j]) by {
            if j < s.len() - 1 {
                assert(s.drop_last()[j] == s[j]);
            }
        }
        if tws(s) < s.len() {
            assert(s.drop_last()[s.len() - tws(s) - 1] == s[s.len() - tws(s) - 1]);
        }
    }
}

pub proof fn lemma_tws_is(s: Seq<char>, k: int)
    requires
        0 <= k <= s.len(),
        forall|j: int| s.len() - k <= j < s.len() ==> is_ws_char(s[j]),
        k < s.len() ==> !is_ws_char(s[s.len() - k - 1]),
    ensures
        tws(s) == k,
    decreases s.len(),
{
    if k == 0 {
    } else {
        assert(is_ws_char(s.last()));
        assert forall|j: int|
            s.drop_last().len() - (k - 1) <= j < s.drop_last().len() implies is_ws_char(
            s.drop_last()[j],
        ) by {
            assert(s.drop_last()[j] == s[j]);
        }
        if k - 1 < s.drop_last().len() {
            assert(s.drop_last()[s.drop_last().len() - k] == s[s.len() - k - 1]);
        }
        lemma_tws_is(s.drop_last(), k - 1);
    }
}

/// The sequence with leading and trailing whitespace removed.
pub open spec fn trim_seq(s: Seq<char>) -> Seq<char> {
    if lws(s) == s.len() {
        Seq::empty()
    } else {
        s.subrange(lws(s), s.len() - tws(s))
    }
}

pub proof fn lemma_trim_wf(s: Seq<char>)
    ensures
        0 <= lws(s) <= s.len(),
        0 <= tws(s) <= s.len(),
        lws(s) < s.len() ==> lws(s) < s.len() - tws(s),
        trim_seq(s).len() <= s.len(),
        trim_seq(s).len() > 0 ==> !is_ws_char(trim_seq(s)[0]),
        trim_seq(s).len() > 0 ==> !is_ws_char(trim_seq(s).last()),
        trim_seq(s).len() == 0 ==> lws(s) == s.len(),
{
    lemma_lws(s);
    lemma_tws(s);
    if lws(s) < s.len() {
        if s.len() - tws(s) <= lws(s) {
            assert(is_ws_char(s[lws(s)]));
            assert(false);
        }
        assert(trim_seq(s)[0] == s[lws(s)]);
        assert(tws(s) < s.len());
        assert(trim_seq(s).last() == s[s.len() - tws(s) - 1]);
    }
}

/// Converts a string slice into a vector of its characters.
pub fn chars_of(s: &str) -> (v: Vec<char>)
    ensures
        v@ == s@,
{
    let n = s.unicode_len();
    let mut v: Vec<char> = Vec::new();
    let mut i: usize = 0;
    while i < n
        invariant
            i <= n,
            n == s@.len(),
            v@ == s@.take(i as int),
        decreases n - i,
    {
        let c = s.get_char(i);
        v.push(c);
        i = i + 1;
        proof {
            assert(v@ =~= s@.take(i as int));
        }
    }
    proof {
        assert(v@ =~= s@);
    }
    v
}

/// Builds a `String` out of the characters `v[lo..hi]`.
pub fn string_from_range(v: &Vec<char>, lo: usize, hi: usize) -> (s: String)
    requires
        lo <= hi <= v@.len(),
    ensures
        s@ == v@.subrange(lo as int, hi as int),
{
    let mut s = String::new();
    let mut i: usize = lo;
    while i < hi
        invariant
            lo <= i <= hi <= v@.len(),
            s@ == v@.subrange(lo as int, i as int),
        decreases hi - i,
    {
        s.push(v[i]);
        i = i + 1;
        proof {
            assert(s@ =~= v@.subrange(lo as int, i as int));
        }
    }
    s
}

/// Trims the range `[lo, hi)` of `v`, returning the sub-range that carries
/// the trimmed text.
pub fn trim_range(v: &Vec<char>, lo: usize, hi: usize) -> (r: (usize, usize))
    requires
        lo <= hi <= v@.len(),
    ensures
        lo <= r.0 <= r.1 <= hi,
        r.0 - lo == lws(v@.subrange(lo as int, hi as int)),
        v@.subrange(r.0 as int, r.1 as int) == trim_seq(v@.subrange(lo as int, hi as int)),
{
    let ghost s = v@.subrange(lo as int, hi as int);
    let mut a: usize = lo;
    while a < hi && ws_char(v[a])
        invariant
            lo <= a <= hi <= v@.len(),
            forall|j: int| lo <= j < a ==> is_ws_char(v@[j]),
        decreases hi - a,
    {
        a = a + 1;
    }
    proof {
        assert forall|j: int| 0 <= j < a - lo implies is_ws_char(s[j]) by {
            assert(s[j] == v@[lo + j]);
        }
        if a < hi {
            assert(s[a - lo] == v@[a as int]);
        }
        lemma_lws_is(s, a - lo);
    }
    if a == hi {
        proof {
            assert(v@.subrange(a as int, a as int) =~= trim_seq(s));
        }
        return (a, a);
    }
    let mut b: usize = hi;
    while b > a && ws_char(v[b - 1])
        invariant
            lo <= a <= b <= hi <= v@.len(),
            forall|j: int| b <= j < hi ==> is_ws_char(v@[j]),
        decreases b,
    {
        b = b - 1;
    }
    proof {
        if b == a {
            assert(is_ws_char(v@[a as int]));
            assert(s[a - lo] == v@[a as int]);
            assert(false);
        }
        assert forall|j: int| s.len() - (hi - b) <= j < s.len() implies is_ws_char(s[j]) by {
            assert(s[j] == v@[lo + j]);
        }
        assert(!is_ws_char(v@[b - 1]));
        assert(s[b - 1 - lo] == v@[b - 1]);
        lemma_tws_is(s, hi - b);
        assert(v@.subrange(a as int, b as int) =~= trim_seq(s));
    }
    (a, b)
}

/// The sequence with leading whitespace removed.
pub open spec fn trim_start_seq(s: Seq<char>) -> Seq<char> {
    s.subrange(lws(s), s.len() as int)
}

/// Finds the start of the trimmed-from-the-left text in `[lo, hi)`.
pub fn trim_start_range(v: &Vec<char>, lo: usize, hi: usize) -> (r: usize)
    requires
        lo <= hi <= v@.len(),
    ensures
        lo <= r <= hi,
        r - lo == lws(v@.subrange(lo as int, hi as int)),
        v@.subrange(r as int, hi as int) == trim_start_seq(v@.subrange(lo as int, hi as int)),
{
    let ghost s = v@.subrange(lo as int, hi as int);
    let mut a: usize = lo;
    while a < hi && ws_char(v[a])
        invariant
            lo <= a <= hi <= v@.len(),
            forall|j: int| lo <= j < a ==> is_ws_char(v@[j]),
        decreases hi - a,
    {
        a = a + 1;
    }
    proof {
        assert forall|j: int| 0 <= j < a - lo implies is_ws_char(s[j]) by {
            assert(s[j] == v@[lo + j]);
        }
        if a < hi {
            assert(s[a - lo] == v@[a as int]);
        }
        lemma_lws_is(s, a - lo);
        assert(v@.subrange(a as int, hi as int) =~= trim_start_seq(s));
    }
    a
}

/// Copies the characters `v[lo..hi]` into a fresh vector.
pub fn vec_from_range(v: &Vec<char>, lo: usize, hi: usize) -> (r: Vec<char>)
    requires
        lo <= hi <= v@.len(),
    ensures
        r@ == v@.subrange(lo as int, hi as int),
{
    let mut r: Vec<char> = Vec::new();
    let mut i: usize = lo;
    proof {
        assert(r@ =~= v@.subrange(lo as int, lo as int));
    }
    while i < hi
        invariant
            lo <= i <= hi <= v@.len(),
            r@ == v@.subrange(lo as int, i as int),
        decreases hi - i,
    {
        r.push(v[i]);
        i = i + 1;
        proof {
            assert(r@ =~= v@.subrange(lo as int, i as int));
        }
    }
    r
}

/// The first position at or after `i` holding the character `c`.
pub open spec fn find_from(s: Seq<char>, i: int, c: char) -> Option<int>
    decreases s.len() - i,
{
    if i < 0 || i >= s.len() {
        None
    } else if s[i] == c {
        Some(i)
    } else {
        find_from(s, i + 1, c)
    }
}

pub proof fn lemma_find_from(s: Seq<char>, i: int, c: char)
    requires
        0 <= i <= s.len(),
    ensures
        match find_from(s, i, c) {
            Some(k) => i <= k < s.len() && s[k] == c && forall|j: int| i <= j < k ==> s[j] != c,
            None => forall|j: int| i <= j < s.len() ==> s[j] != c,
        },
    decreases s.len() - i,
{
    if i < s.len() && s[i] != c {
        lemma_find_from(s, i + 1, c);
    }
}

/// Finds the first occurrence of `c` in `v[lo..hi]`, as an index into `v`.
pub fn find_char_range(v: &Vec<char>, lo: usize, hi: usize, c: char) -> (r: Option<usize>)
    requires
        lo <= hi <= v@.len(),
    ensures
        match r {
            Some(k) => lo <= k < hi && find_from(v@.subrange(lo as int, hi as int), 0, c) == Some(
                k - lo,
            ),
            None => find_from(v@.subrange(lo as int, hi as int), 0, c) is None,
        },
{
    let ghost s = v@.subrange(lo as int, hi as int);
    let mut i: usize = lo;
    while i < hi
        invariant
            lo <= i <= hi <= v@.len(),
            s == v@.subrange(lo as int, hi as int),
            find_from(s, 0, c) == find_from(s, i - lo, c),
        decreases hi - i,
    {
        if v[i] == c {
            proof {
                assert(s[i - lo] == v@[i as int]);
            }
            return Some(i);
        }
        proof {
            assert(s[i - lo] == v@[i as int]);
        }
        i = i + 1;
    }
    None
}

/// Compares two string slices character by character.
pub fn str_eq(a: &str, b: &str) -> (r: bool)
    ensures
        r == (a@ == b@),
{
    let v = chars_of(a);
    let hi = v.len();
    proof {
        assert(v@.subrange(0, hi as int) =~= a@);
    }
    range_eq_str(&v, 0, hi, b)
}

/// Compares the characters of `a` with the characters `v[lo..hi]`.
pub fn vec_eq_range(a: &Vec<char>, v: &Vec<char>, lo: usize, hi: usize) -> (r: bool)
    requires
        lo <= hi <= v@.len(),
    ensures
        r == (a@ == v@.subrange(lo as int, hi as int)),
{
    let ghost s = v@.subrange(lo as int, hi as int);
    if a.len() != hi - lo {
        proof {
            assert(a@.len() != s.len());
        }
        return false;
    }
    let mut i: usize = 0;
    while i < a.len()
        invariant
            0 <= i <= a@.len(),
            a@.len() == hi - lo,
            lo <= hi <= v@.len(),
            s == v@.subrange(lo as int, hi as int),
            forall|j: int| 0 <= j < i ==> a@[j] == s[j],
        decreases a@.len() - i,
    {
        if a[i] != v[lo + i] {
            proof {
                assert(s[i as int] == v@[lo + i]);
            }
            return false;
        }
        proof {
            assert(s[i as int] == v@[lo + i]);
        }
        i = i + 1;
    }
    proof {
        assert(a@ =~= s);
    }
    true
}

/// Compares the characters `v[lo..hi]` with the string `t`.
pub fn range_eq_str(v: &Vec<char>, lo: usize, hi: usize, t: &str) -> (r: bool)
    requires
        lo <= hi <= v@.len(),
    ensures
        r == (v@.subrange(lo as int, hi as int) == t@),
{
    let ghost s = v@.subrange(lo as int, hi as int);
    let n = t.unicode_len();
    if hi - lo != n {
        proof {
            assert(s.len() != t@.len());
        }
        return false;
    }
    let mut i: usize = 0;
    while i < n
        invariant
            0 <= i <= n,
            n == t@.len(),
            n == hi - lo,
            lo <= hi <= v@.len(),
            s == v@.subrange(lo as int, hi as int),
            forall|j: int| 0 <= j < i ==> s[j] == t@[j],
        decreases n - i,
    {
        let c = t.get_char(i);
        if v[lo + i] != c {
            proof {
                assert(s[i as int] == v@[lo + i]);
            }
            return false;
        }
        proof {
            assert(s[i as int] == v@[lo + i]);
        }
        i = i + 1;
    }
    proof {
        assert(s =~= t@);
    }
    true
}

} // verus!
