use vstd::prelude::*;
use vstd::string::StrSliceExecFns;

use crate::error::Error;

verus! {

/// A GC bucket: the counts `(a, b)` of the two complementary base classes
/// in a read.
#[derive(Clone, Copy, Debug, PartialEq, Eq, Structural)]
pub struct GcHistKey(pub u32, pub u32);

impl GcHistKey {
    /// The two counts of the bucket.
    pub fn counts(&self) -> (r: (u32, u32))
        ensures
            r == (self.0, self.1),
    {
        (self.0, self.1)
    }

    /// Parses a bucket key of the form `a:b`, `a` and `b` being decimal
    /// integers that fit 32 bits.
    pub fn from_str(s: &str) -> (r: Result<GcHistKey, Error>)
        ensures
            match r {
                Ok(k) => gc_key_parse(s@) == Some(k),
                Err(e) => gc_key_parse(s@) is None && e == Error::BadGcKey,
            },
    {
        let n = s.unicode_len();
        let mut cs: Vec<char> = Vec::with_capacity(n);
        let mut i: usize = 0;
        while i < n
            invariant
                n == s@.len(),
                i <= n,
                cs@ == s@.subrange(0, i as int),
            decreases n - i,
        {
            cs.push(s.get_char(i));
            i = i + 1;
        }
        assert(cs@ == s@);
        let mut k: usize = 0;
        while k < n && cs[k] != ':'
            invariant
                n == cs@.len(),
                k <= n,
                forall|j: int| 0 <= j < k ==> cs@[j] != ':',
            decreases n - k,
        {
            k = k + 1;
        }
        if k == n {
            return Err(Error::BadGcKey);
        }
        proof {
            lemma_first_colon(cs@, k as int);
        }
        let a = parse_u32(&cs, 0, k);
        let b = parse_u32(&cs, k + 1, n);
        match (a, b) {
            (Some(a), Some(b)) => Ok(GcHistKey(a, b)),
            _ => Err(Error::BadGcKey),
        }
    }
}

/// `c` is an ASCII decimal digit.
pub open spec fn is_digit(c: char) -> bool {
    '0' <= c <= '9'
}

/// The value of a string of decimal digits.
pub open spec fn digits_value(s: Seq<char>) -> nat
    decreases s.len(),
{
    if s.len() == 0 {
        0
    } else {
        digits_value(s.drop_last()) * 10 + ((s.last() as u32 - '0' as u32) as nat)
    }
}

/// `s` without its leading `+`, if it has one.
pub open spec fn unsigned_digits(s: Seq<char>) -> Seq<char> {
    if s.len() > 0 && s[0] == '+' {
        s.drop_first()
    } else {
        s
    }
}

/// The 32-bit unsigned integer that `s` writes in decimal, with an optional
/// leading `+`; `None` if `s` writes none.
pub open spec fn parse_u32_spec(s: Seq<char>) -> Option<u32> {
    let d = unsigned_digits(s);
    if d.len() > 0 && (forall|i: int| 0 <= i < d.len() ==> is_digit(#[trigger] d[i]))
        && digits_value(d) <= u32::MAX {
        Some(digits_value(d) as u32)
    } else {
        None
    }
}

/// `k` is the position of the first `:` in `s`.
pub open spec fn first_colon(s: Seq<char>, k: int) -> bool {
    0 <= k < s.len() && s[k] == ':' && forall|j: int| 0 <= j < k ==> s[j] != ':'
}

/// The bucket that the key `s` names: the integers before and after its
/// first `:`.
pub open spec fn gc_key_parse(s: Seq<char>) -> Option<GcHistKey> {
    if exists|k: int| first_colon(s, k) {
        let k = choose|k: int| first_colon(s, k);
        match (parse_u32_spec(s.subrange(0, k)), parse_u32_spec(s.subrange(k + 1, s.len() as int))) {
            (Some(a), Some(b)) => Some(GcHistKey(a, b)),
            _ => None,
        }
    } else {
        None
    }
}

proof fn lemma_first_colon(s: Seq<char>, k: int)
    requires
        0 <= k <= s.len(),
        forall|j: int| 0 <= j < k ==> s[j] != ':',
    ensures
        k == s.len() ==> !exists|k2: int| first_colon(s, k2),
        k < s.len() && s[k] == ':' ==> (exists|k2: int| first_colon(s, k2)) && (choose|k2: int|
            first_colon(s, k2)) == k,
{
    if k < s.len() && s[k] == ':' {
        assert(first_colon(s, k));
        let k2 = choose|k2: int| first_colon(s, k2);
        if k2 < k {
            assert(s[k2] != ':');
        }
        if k2 > k {
            assert(s[k] != ':');
        }
    }
}

proof fn lemma_digits_prefix(s: Seq<char>, i: int)
    requires
        0 <= i <= s.len(),
    ensures
        digits_value(s.subrange(0, i)) <= digits_value(s),
    decreases s.len(),
{
    if i < s.len() {
        lemma_digits_prefix(s.drop_last(), i);
        assert(s.drop_last().subrange(0, i) =~= s.subrange(0, i));
    } else {
        assert(s.subrange(0, i) =~= s);
    }
}

/// Parses `cs[lo..hi]` as `u32::from_str` does for decimal text.
#[verifier::loop_isolation(false)]
fn parse_u32(cs: &Vec<char>, lo: usize, hi: usize) -> (r: Option<u32>)
    requires
        lo <= hi <= cs@.len(),
    ensures
        r == parse_u32_spec(cs@.subrange(lo as int, hi as int)),
{
    let ghost s = cs@.subrange(lo as int, hi as int);
    let mut start = lo;
    if lo < hi && cs[lo] == '+' {
        start = lo + 1;
    }
    let ghost d = cs@.subrange(start as int, hi as int);
    proof {
        if s.len() > 0 && s[0] == '+' {
            assert(d =~= s.drop_first());
        } else {
            assert(d =~= s);
        }
    }
    assert(d == unsigned_digits(s));
    if start == hi {
        return None;
    }
    let mut acc: u64 = 0;
    let mut i = start;
    while i < hi
        invariant
            lo <= start <= i <= hi <= cs@.len(),
            d == cs@.subrange(start as int, hi as int),
            d == unsigned_digits(s),
            acc == digits_value(cs@.subrange(start as int, i as int)),
            acc <= u32::MAX,
            forall|j: int| start <= j < i ==> is_digit(#[trigger] cs@[j]),
        decreases hi - i,
    {
        let c = cs[i];
        let ghost p = cs@.subrange(start as int, i as int + 1);
        assert(p.drop_last() =~= cs@.subrange(start as int, i as int));
        if !('0' <= c && c <= '9') {
            assert(!is_digit(d[i - start]));
            return None;
        }
        let v = (c as u32 - '0' as u32) as u64;
        acc = acc * 10 + v;
        if acc > u32::MAX as u64 {
            proof {
                lemma_digits_prefix(d, i - start + 1);
                assert(d.subrange(0, i - start + 1) =~= p);
            }
            return None;
        }
        i = i + 1;
    }
    assert(cs@.subrange(start as int, i as int) =~= d);
    assert forall|j: int| 0 <= j < d.len() implies is_digit(#[trigger] d[j]) by {
        assert(d[j] == cs@[start + j]);
    }
    Some(acc as u32)
}

/// The sum over the buckets of `b · w`: the weight of the second base class.
pub open spec fn strong_sum(cts: Seq<(GcHistKey, u64)>) -> int
    decreases cts.len(),
{
    if cts.len() == 0 {
        0
    } else {
        strong_sum(cts.drop_last()) + cts.last().0.1 * cts.last().1
    }
}

/// The sum over the buckets of `(a + b) · w`: the weight of both classes.
pub open spec fn total_sum(cts: Seq<(GcHistKey, u64)>) -> int
    decreases cts.len(),
{
    if cts.len() == 0 {
        0
    } else {
        total_sum(cts.drop_last()) + (cts.last().0.0 + cts.last().0.1) * cts.last().1
    }
}

/// The second class never weighs more than both classes together, and no
/// sum is negative.
pub proof fn lemma_strong_le_total(cts: Seq<(GcHistKey, u64)>)
    ensures
        0 <= strong_sum(cts) <= total_sum(cts),
    decreases cts.len(),
{
    if cts.len() > 0 {
        lemma_strong_le_total(cts.drop_last());
        let (k, w) = cts.last();
        assert(k.1 * w <= (k.0 + k.1) * w) by (nonlinear_arith)
            requires
                0 <= k.0,
                0 <= k.1,
                0 <= w,
        ;
        assert(0 <= k.1 * w) by (nonlinear_arith)
            requires
                0 <= k.1,
                0 <= w,
        ;
    }
}

/// The numerator and denominator of the mean GC fraction of a histogram,
/// `Σ b·w / Σ (a+b)·w`; `None` when the histogram weighs nothing (or more
/// than 128 bits hold).
pub fn gc_totals(cts: &[(GcHistKey, u64)]) -> (r: Option<(u128, u128)>)
    ensures
        r is Some <==> 0 < total_sum(cts@) <= u128::MAX,
        r matches Some((s, t)) ==> s == strong_sum(cts@) && t == total_sum(cts@) && s <= t,
{
    let mut s: u128 = 0;
    let mut t: u128 = 0;
    let mut i: usize = 0;
    while i < cts.len()
        invariant
            i <= cts@.len(),
            s == strong_sum(cts@.subrange(0, i as int)),
            t == total_sum(cts@.subrange(0, i as int)),
        decreases cts@.len() - i,
    {
        let (k, w) = cts[i];
        let ghost p = cts@.subrange(0, i as int + 1);
        assert(p.drop_last() =~= cts@.subrange(0, i as int));
        proof {
            lemma_strong_le_total(p);
            lemma_total_prefix(cts@, i + 1);
        }
        assert((k.0 as u128 + k.1 as u128) * (w as u128) <= 0x2_0000_0000 * 0x1_0000_0000_0000_0000)
            by (nonlinear_arith)
            requires
                k.0 as u128 + k.1 as u128 <= 0x2_0000_0000,
                w as u128 <= 0x1_0000_0000_0000_0000,
        ;
        let tw = (k.0 as u128 + k.1 as u128) * (w as u128);
        if t > u128::MAX - tw {
            return None;
        }
        let sw = (k.1 as u128) * (w as u128);
        t = t + tw;
        s = s + sw;
        i = i + 1;
    }
    assert(cts@.subrange(0, i as int) =~= cts@);
    proof {
        lemma_strong_le_total(cts@);
    }
    if t == 0 {
        None
    } else {
        Some((s, t))
    }
}

proof fn lemma_total_prefix(cts: Seq<(GcHistKey, u64)>, i: int)
    requires
        0 <= i <= cts.len(),
    ensures
        0 <= total_sum(cts.subrange(0, i)) <= total_sum(cts),
    decreases cts.len(),
{
    if cts.len() > 0 {
        let (k, w) = cts.last();
        assert(0 <= (k.0 + k.1) * w) by (nonlinear_arith)
            requires
                0 <= k.0,
                0 <= k.1,
                0 <= w,
        ;
        if i < cts.len() {
            lemma_total_prefix(cts.drop_last(), i);
            assert(cts.drop_last().subrange(0, i) =~= cts.subrange(0, i));
        } else {
            assert(cts.subrange(0, i) =~= cts);
            lemma_total_prefix(cts.drop_last(), 0);
        }
    }
}

} // verus!
