use vstd::prelude::*;

use crate::error::Error;
use crate::kmcv::{Kmcv, KmcvHeaderCore};

verus! {

/// Read and base counts of a dataset against the targets of a k-mer index:
/// `counts[t]` holds the reads and bases that hit target `t`.
#[derive(Clone, Debug)]
pub struct KmerCounts {
    pub kmcv: KmcvHeaderCore,
    pub total_reads: u32,
    pub mapped_reads: u32,
    pub total_bases: u64,
    pub mapped_bases: u64,
    pub counts: Vec<(u32, u64)>,
}

/// Every sum that adding `b` to `a` makes fits its integer type.
pub open spec fn kmer_sums_fit(a: KmerCounts, b: KmerCounts) -> bool {
    &&& a.total_reads + b.total_reads <= u32::MAX
    &&& a.mapped_reads + b.mapped_reads <= u32::MAX
    &&& a.total_bases + b.total_bases <= u64::MAX
    &&& a.mapped_bases + b.mapped_bases <= u64::MAX
    &&& forall|i: int|
        0 <= i < a.counts@.len() ==> #[trigger] a.counts@[i].0 + b.counts@[i].0 <= u32::MAX
            && a.counts@[i].1 + b.counts@[i].1 <= u64::MAX
}

/// Why `b` cannot be added to `a`, if it cannot.
pub open spec fn kmer_add_error(a: KmerCounts, b: KmerCounts) -> Option<Error> {
    if a.kmcv != b.kmcv {
        Some(Error::KmerIncompatible)
    } else if a.counts@.len() != b.counts@.len() {
        Some(Error::KmerTargetsMismatch)
    } else if !kmer_sums_fit(a, b) {
        Some(Error::CountOverflow)
    } else {
        None
    }
}

/// `r` is `a` with every count of `b` added to it.
pub open spec fn kmer_sum(a: KmerCounts, b: KmerCounts, r: KmerCounts) -> bool {
    &&& r.kmcv == a.kmcv
    &&& r.total_reads == a.total_reads + b.total_reads
    &&& r.mapped_reads == a.mapped_reads + b.mapped_reads
    &&& r.total_bases == a.total_bases + b.total_bases
    &&& r.mapped_bases == a.mapped_bases + b.mapped_bases
    &&& r.counts@.len() == a.counts@.len()
    &&& forall|i: int|
        0 <= i < a.counts@.len() ==> #[trigger] r.counts@[i].0 == a.counts@[i].0 + b.counts@[i].0
            && r.counts@[i].1 == a.counts@[i].1 + b.counts@[i].1
}

/// Rank indices into a list of per-target coverages sorted in ascending
/// order.
#[derive(Clone, Copy, Debug, PartialEq, Eq)]
pub struct CoverageRanks {
    /// First quartile, median and third quartile.
    pub quartiles: (usize, usize, usize),
    /// The 20th percentile of the targets with non-zero coverage, if any
    /// target has non-zero coverage.
    pub fold_80: Option<usize>,
}

/// The rank indices for `len` sorted coverages of which the first
/// `first_nonzero` are zero: `len/4`, `len/2` and `3·len/4` by truncation,
/// and, among the `n` non-zero ones, the one of rank `2·(n−1)/10`.
pub fn coverage_ranks(len: usize, first_nonzero: usize) -> (r: CoverageRanks)
    requires
        0 < len <= usize::MAX / 3,
        first_nonzero <= len,
    ensures
        r.quartiles.0 == len / 4,
        r.quartiles.1 == len / 2,
        r.quartiles.2 == (3 * len) / 4,
        first_nonzero == len ==> r.fold_80 is None,
        first_nonzero < len ==> r.fold_80 == Some(
            (first_nonzero + (2 * (len - first_nonzero - 1)) / 10) as usize,
        ),
        r.quartiles.2 < len,
        r.fold_80 matches Some(i) ==> first_nonzero <= i < len,
{
    let fold_80 = if first_nonzero < len {
        let n = len - first_nonzero;
        Some(first_nonzero + (2 * (n - 1)) / 10)
    } else {
        None
    };
    CoverageRanks { quartiles: (len / 4, len / 2, (3 * len) / 4), fold_80 }
}

impl KmerCounts {
    /// Why `other` cannot be added to these counts, if it cannot.
    pub fn check_add(&self, other: &KmerCounts) -> (r: Option<Error>)
        ensures
            r == kmer_add_error(*self, *other),
    {
        if self.kmcv != other.kmcv {
            return Some(Error::KmerIncompatible);
        }
        let n = self.counts.len();
        if n != other.counts.len() {
            return Some(Error::KmerTargetsMismatch);
        }
        if self.total_reads > u32::MAX - other.total_reads || self.mapped_reads > u32::MAX
            - other.mapped_reads || self.total_bases > u64::MAX - other.total_bases
            || self.mapped_bases > u64::MAX - other.mapped_bases {
            return Some(Error::CountOverflow);
        }
        let mut i: usize = 0;
        while i < n
            invariant
                self.kmcv == other.kmcv,
                self.total_reads + other.total_reads <= u32::MAX,
                self.mapped_reads + other.mapped_reads <= u32::MAX,
                self.total_bases + other.total_bases <= u64::MAX,
                self.mapped_bases + other.mapped_bases <= u64::MAX,
                n == self.counts@.len(),
                n == other.counts@.len(),
                i <= n,
                forall|j: int|
                    0 <= j < i ==> #[trigger] self.counts@[j].0 + other.counts@[j].0 <= u32::MAX
                        && self.counts@[j].1 + other.counts@[j].1 <= u64::MAX,
            decreases n - i,
        {
            let (r1, b1) = self.counts[i];
            let (r2, b2) = other.counts[i];
            if r1 > u32::MAX - r2 || b1 > u64::MAX - b2 {
                assert(!kmer_sums_fit(*self, *other)) by {
                    assert(self.counts@[i as int].0 + other.counts@[i as int].0 > u32::MAX
                        || self.counts@[i as int].1 + other.counts@[i as int].1 > u64::MAX);
                }
                return Some(Error::CountOverflow);
            }
            i = i + 1;
        }
        None
    }

    /// Adds the counts of `other`, made against the same k-mer index, to
    /// these. On error nothing changes.
    pub fn add(&mut self, other: &KmerCounts) -> (r: Result<(), Error>)
        ensures
            match r {
                Ok(_) => kmer_add_error(*old(self), *other) is None && kmer_sum(
                    *old(self),
                    *other,
                    *final(self),
                ),
                Err(e) => kmer_add_error(*old(self), *other) == Some(e) && *final(self) == *old(
                    self,
                ),
            },
    {
        if self.kmcv != other.kmcv {
            return Err(Error::KmerIncompatible);
        }
        let n = self.counts.len();
        if n != other.counts.len() {
            return Err(Error::KmerTargetsMismatch);
        }
        if self.total_reads > u32::MAX - other.total_reads || self.mapped_reads > u32::MAX
            - other.mapped_reads || self.total_bases > u64::MAX - other.total_bases
            || self.mapped_bases > u64::MAX - other.mapped_bases {
            return Err(Error::CountOverflow);
        }
        let mut counts: Vec<(u32, u64)> = Vec::with_capacity(n);
        let mut i: usize = 0;
        while i < n
            invariant
                *self == *old(self),
                self.kmcv == other.kmcv,
                self.total_reads + other.total_reads <= u32::MAX,
                self.mapped_reads + other.mapped_reads <= u32::MAX,
                self.total_bases + other.total_bases <= u64::MAX,
                self.mapped_bases + other.mapped_bases <= u64::MAX,
                n == self.counts@.len(),
                n == other.counts@.len(),
                i <= n,
                counts@.len() == i,
                forall|j: int|
                    0 <= j < i ==> #[trigger] counts@[j].0 == self.counts@[j].0
                        + other.counts@[j].0 && counts@[j].1 == self.counts@[j].1
                        + other.counts@[j].1,
                forall|j: int|
                    0 <= j < i ==> #[trigger] self.counts@[j].0 + other.counts@[j].0 <= u32::MAX
                        && self.counts@[j].1 + other.counts@[j].1 <= u64::MAX,
            decreases n - i,
        {
            let (r1, b1) = self.counts[i];
            let (r2, b2) = other.counts[i];
            if r1 > u32::MAX - r2 || b1 > u64::MAX - b2 {
                assert(!kmer_sums_fit(*self, *other)) by {
                    assert(self.counts@[i as int].0 + other.counts@[i as int].0 > u32::MAX
                        || self.counts@[i as int].1 + other.counts@[i as int].1 > u64::MAX);
                }
                return Err(Error::CountOverflow);
            }
            counts.push((r1 + r2, b1 + b2));
            assert(counts@[i as int].0 == self.counts@[i as int].0 + other.counts@[i as int].0);
            i = i + 1;
        }
        self.total_reads = self.total_reads + other.total_reads;
        self.mapped_reads = self.mapped_reads + other.mapped_reads;
        self.total_bases = self.total_bases + other.total_bases;
        self.mapped_bases = self.mapped_bases + other.mapped_bases;
        self.counts = counts;
        Ok(())
    }

    /// For each target, the bases that hit it and its size, whose ratio is
    /// its coverage; `None` if a target lies beyond the index's targets.
    pub fn target_coverage(&self, kmcv: &Kmcv) -> (r: Option<Vec<(u64, u64)>>)
        requires
            kmcv.wf(),
        ensures
            r is None <==> self.counts@.len() > kmcv.targets@.len(),
            r matches Some(v) ==> v@.len() == self.counts@.len() && forall|i: int|
                0 <= i < v@.len() ==> #[trigger] v@[i] == (
                    self.counts@[i].1,
                    (kmcv.targets@[i].end - kmcv.targets@[i].start + 1) as u64,
                ),
    {
        let n = self.counts.len();
        if n > kmcv.targets.len() {
            return None;
        }
        let mut v: Vec<(u64, u64)> = Vec::with_capacity(n);
        let mut i: usize = 0;
        while i < n
            invariant
                n == self.counts@.len(),
                n <= kmcv.targets@.len(),
                kmcv.wf(),
                i <= n,
                v@.len() == i,
                forall|j: int|
                    0 <= j < i ==> #[trigger] v@[j] == (
                        self.counts@[j].1,
                        (kmcv.targets@[j].end - kmcv.targets@[j].start + 1) as u64,
                    ),
            decreases n - i,
        {
            let size = match kmcv.get_target_size(i) {
                Some(s) => s,
                None => 0,
            };
            v.push((self.counts[i].1, size));
            i = i + 1;
        }
        Some(v)
    }
}

} // verus!
