use vstd::prelude::*;

use crate::error::Error;

verus! {

/// Base tallies in the slot order A, C, T, G, other.
#[derive(Clone, Copy, Debug)]
pub struct Counts(pub [u64; 5]);

/// Base tallies as read from an input record: the four bases, and the
/// optional counts of `N` and of other symbols.
#[derive(Clone, Copy, Debug)]
pub struct RawCounts {
    pub a: u64,
    pub c: u64,
    pub g: u64,
    pub t: u64,
    pub n: Option<u64>,
    pub other: Option<u64>,
}

/// An optional count, zero when absent.
pub open spec fn or_zero(x: Option<u64>) -> int {
    match x {
        Some(v) => v as int,
        None => 0,
    }
}

/// The `N` and other-symbol counts of a record fit one slot together.
pub open spec fn raw_counts_fit(t: RawCounts) -> bool {
    or_zero(t.n) + or_zero(t.other) <= u64::MAX
}

/// The five slots that a record gives.
pub open spec fn raw_slots(t: RawCounts) -> Seq<u64> {
    seq![t.a, t.c, t.t, t.g, (or_zero(t.n) + or_zero(t.other)) as u64]
}

/// Slot `k` of the tally at position `i` of `s`, zero beyond its end.
pub open spec fn slot(s: Seq<Counts>, i: int, k: int) -> int {
    if 0 <= i < s.len() {
        s[i].0@[k] as int
    } else {
        0
    }
}

/// Every slot sum of two tallies fits 64 bits.
pub open spec fn counts_fit(a: Counts, b: Counts) -> bool {
    forall|k: int| 0 <= k < 5 ==> #[trigger] a.0@[k] + b.0@[k] <= u64::MAX
}

/// Every slot sum of two per-cycle tally lists, the shorter padded with
/// zeros, fits 64 bits.
pub open spec fn cycles_fit(a: Seq<Counts>, b: Seq<Counts>, len: int) -> bool {
    forall|i: int, k: int| 0 <= i < len && 0 <= k < 5 ==> #[trigger] slot(a, i, k) + #[trigger] slot(b, i, k) <= u64::MAX
}

impl Counts {
    /// The empty tally.
    pub fn zero() -> (r: Counts)
        ensures
            forall|k: int| 0 <= k < 5 ==> #[trigger] r.0@[k] == 0,
    {
        Counts([0, 0, 0, 0, 0])
    }

    /// The tally of a record, when its `N` and other counts fit one slot.
    pub fn from_raw(t: &RawCounts) -> (r: Result<Counts, Error>)
        ensures
            match r {
                Ok(c) => raw_counts_fit(*t) && c.0@ == raw_slots(*t),
                Err(e) => !raw_counts_fit(*t) && e == Error::CountOverflow,
            },
    {
        let n = match t.n {
            Some(v) => v,
            None => 0,
        };
        let o = match t.other {
            Some(v) => v,
            None => 0,
        };
        if n > u64::MAX - o {
            return Err(Error::CountOverflow);
        }
        let c = Counts([t.a, t.c, t.t, t.g, n + o]);
        assert(c.0@ =~= raw_slots(*t));
        Ok(c)
    }

    /// The five slots.
    pub fn cts(&self) -> (r: &[u64; 5])
        ensures
            r@ == self.0@,
    {
        &self.0
    }

    /// Adds `other` slot by slot.
    pub fn add(&mut self, other: &Counts)
        requires
            counts_fit(*old(self), *other),
        ensures
            forall|k: int| 0 <= k < 5 ==> #[trigger] final(self).0@[k] == old(self).0@[k] + other.0@[k],
    {
        assert(self.0@[0] + other.0@[0] <= u64::MAX);
        assert(self.0@[1] + other.0@[1] <= u64::MAX);
        assert(self.0@[2] + other.0@[2] <= u64::MAX);
        assert(self.0@[3] + other.0@[3] <= u64::MAX);
        assert(self.0@[4] + other.0@[4] <= u64::MAX);
        *self = Counts(
            [
                self.0[0] + other.0[0],
                self.0[1] + other.0[1],
                self.0[2] + other.0[2],
                self.0[3] + other.0[3],
                self.0[4] + other.0[4],
            ],
        );
    }

    /// Whether every slot sum with `other` fits 64 bits.
    pub fn fits_with(&self, other: &Counts) -> (r: bool)
        ensures
            r == counts_fit(*self, *other),
    {
        let mut k: usize = 0;
        while k < 5
            invariant
                k <= 5,
                forall|j: int| 0 <= j < k ==> #[trigger] self.0@[j] + other.0@[j] <= u64::MAX,
            decreases 5 - k,
        {
            if self.0[k] > u64::MAX - other.0[k] {
                return false;
            }
            k = k + 1;
        }
        true
    }
}

/// Adds two per-cycle tally lists position by position into a list of
/// length `len`, the shorter padded with zeros; `None` if a sum overflows.
pub fn add_cycles(a: &Vec<Counts>, b: &Vec<Counts>, len: usize) -> (r: Option<Vec<Counts>>)
    requires
        a@.len() <= len,
        b@.len() <= len,
    ensures
        r is Some <==> cycles_fit(a@, b@, len as int),
        r matches Some(v) ==> v@.len() == len && forall|i: int, k: int|
            0 <= i < len && 0 <= k < 5 ==> #[trigger] v@[i].0@[k] == slot(a@, i, k) + slot(b@, i, k),
{
    let mut v: Vec<Counts> = Vec::with_capacity(len);
    let mut i: usize = 0;
    while i < len
        invariant
            a@.len() <= len,
            b@.len() <= len,
            i <= len,
            v@.len() == i,
            cycles_fit(a@, b@, i as int),
            forall|j: int, k: int|
                0 <= j < i && 0 <= k < 5 ==> #[trigger] v@[j].0@[k] == slot(a@, j, k) + slot(b@, j, k),
        decreases len - i,
    {
        let mut c = if i < a.len() {
            a[i]
        } else {
            Counts::zero()
        };
        let d = if i < b.len() {
            b[i]
        } else {
            Counts::zero()
        };
        assert(forall|k: int| 0 <= k < 5 ==> #[trigger] c.0@[k] == slot(a@, i as int, k));
        assert(forall|k: int| 0 <= k < 5 ==> #[trigger] d.0@[k] == slot(b@, i as int, k));
        if !c.fits_with(&d) {
            assert(!cycles_fit(a@, b@, len as int)) by {
                let k = choose|k: int| 0 <= k < 5 && !(c.0@[k] + d.0@[k] <= u64::MAX);
                assert(!(slot(a@, i as int, k) + slot(b@, i as int, k) <= u64::MAX));
            }
            return None;
        }
        c.add(&d);
        v.push(c);
        i = i + 1;
    }
    Some(v)
}

} // verus!
