use vstd::prelude::*;

use crate::buckets::{
    bucket_sums_fit, buckets_merged, copy_buckets, kv, merge_buckets, unique_keys, BucketList,
};
use crate::counts::{
    add_cycles, counts_fit, cycles_fit, raw_counts_fit, raw_slots, slot, Counts, RawCounts,
};
use crate::error::Error;
use crate::fli::{bisulfite_name, common, decimal, fli_columns, push_decimal, BisulfiteType, Fli};
use vstd::string::StringExecFns;
use crate::gc::{gc_key_parse, GcHistKey};
use crate::kmers::{kmer_add_error, kmer_sum, KmerCounts};

verus! {

/// A dataset record as read from an input file, before validation.
pub struct RawDataSet {
    pub trim: usize,
    pub min_qual: u8,
    pub max_read_length: usize,
    pub bisulfite: BisulfiteType,
    pub fli: Fli,
    pub cts: RawCounts,
    /// Per-cycle tallies keyed by cycle number, in increasing key order.
    pub per_pos_cts: Vec<(u32, RawCounts)>,
    pub gc_hash: BucketList,
    pub kmer_counts: Option<KmerCounts>,
}

/// One sequencing-QC unit: its parameters, identity, whole and per-cycle
/// base tallies, GC buckets and optional k-mer counts.
pub struct DataSet {
    pub path: String,
    pub trim: usize,
    pub min_qual: u8,
    pub max_read_length: usize,
    pub bisulfite: BisulfiteType,
    pub fli: Fli,
    pub cts: Counts,
    /// Tallies of cycles `trim + 1` to `max_read_length`, in order.
    pub per_pos_cts: Vec<Counts>,
    pub gc_hash: BucketList,
    /// The GC histogram built from `gc_hash`, once made.
    pub gc_counts: Option<Vec<(GcHistKey, u64)>>,
    pub kmer_counts: Option<KmerCounts>,
}

/// The per-cycle keys of a record run from `trim + 1` to `max_read_length`
/// without a gap.
pub open spec fn cycles_ok(t: RawDataSet) -> bool {
    &&& t.max_read_length >= t.trim
    &&& t.per_pos_cts@.len() == t.max_read_length - t.trim
    &&& forall|i: int| 0 <= i < t.per_pos_cts@.len() ==> #[trigger] t.per_pos_cts@[i].0 == i + 1 + t.trim
}

/// Every tally of a record fits, and so does every bucket's total.
pub open spec fn raw_fit(t: RawDataSet) -> bool {
    &&& raw_counts_fit(t.cts)
    &&& forall|i: int| 0 <= i < t.per_pos_cts@.len() ==> raw_counts_fit(#[trigger] t.per_pos_cts@[i].1)
    &&& bucket_sums_fit(Seq::empty(), kv(t.gc_hash@))
}

/// Why a record is refused, if it is.
pub open spec fn raw_error(t: RawDataSet) -> Option<Error> {
    if !cycles_ok(t) {
        Some(Error::CycleMismatch)
    } else if !raw_fit(t) {
        Some(Error::CountOverflow)
    } else {
        None
    }
}

/// Two datasets were made with the same trim, quality threshold and
/// bisulfite treatment, and both or neither have k-mer counts.
pub open spec fn constants_match(a: DataSet, b: DataSet) -> bool {
    &&& a.trim == b.trim
    &&& a.min_qual == b.min_qual
    &&& a.bisulfite == b.bisulfite
    &&& (a.kmer_counts is Some) == (b.kmer_counts is Some)
}

/// The larger of two lengths.
pub open spec fn max_len(a: usize, b: usize) -> usize {
    if a >= b {
        a
    } else {
        b
    }
}

/// Why `b` cannot be merged into `a`, if it cannot.
pub open spec fn merge_error(a: DataSet, b: DataSet) -> Option<Error> {
    if !constants_match(a, b) {
        Some(Error::IncompatibleDatasets)
    } else if a.kmer_counts is Some && kmer_add_error(
        a.kmer_counts->Some_0,
        b.kmer_counts->Some_0,
    ) is Some {
        kmer_add_error(a.kmer_counts->Some_0, b.kmer_counts->Some_0)
    } else if !counts_fit(a.cts, b.cts) || !cycles_fit(
        a.per_pos_cts@,
        b.per_pos_cts@,
        max_len(a.max_read_length, b.max_read_length) - a.trim,
    ) || !bucket_sums_fit(kv(a.gc_hash@), kv(b.gc_hash@)) {
        Some(Error::CountOverflow)
    } else {
        None
    }
}

/// `r` is `a` with `b` merged into it: the longer read length, the common
/// identity, every tally, per-cycle tally (the shorter list padded with
/// zeros), bucket and k-mer count summed, and no GC histogram yet.
pub open spec fn merged(a: DataSet, b: DataSet, r: DataSet) -> bool {
    &&& r.path@ == a.path@
    &&& r.trim == a.trim
    &&& r.min_qual == a.min_qual
    &&& r.bisulfite == a.bisulfite
    &&& r.max_read_length == max_len(a.max_read_length, b.max_read_length)
    &&& r.fli@ == common(a.fli@, b.fli@)
    &&& forall|k: int| 0 <= k < 5 ==> #[trigger] r.cts.0@[k] == a.cts.0@[k] + b.cts.0@[k]
    &&& r.per_pos_cts@.len() == r.max_read_length - r.trim
    &&& forall|i: int, k: int|
        0 <= i < r.per_pos_cts@.len() && 0 <= k < 5 ==> #[trigger] r.per_pos_cts@[i].0@[k]
            == slot(a.per_pos_cts@, i, k) + slot(b.per_pos_cts@, i, k)
    &&& buckets_merged(kv(a.gc_hash@), kv(b.gc_hash@), kv(r.gc_hash@))
    &&& r.gc_counts is None
    &&& match a.kmer_counts {
        None => r.kmer_counts is None,
        Some(ka) => r.kmer_counts matches Some(kr) && kmer_sum(ka, b.kmer_counts->Some_0, kr),
    }
}

/// The histogram that a bucket list gives: each key parsed, with its count.
pub open spec fn histogram_of(l: Seq<(Seq<char>, u64)>, h: Seq<(GcHistKey, u64)>) -> bool {
    &&& h.len() == l.len()
    &&& forall|i: int|
        0 <= i < l.len() ==> gc_key_parse(#[trigger] l[i].0) == Some(h[i].0) && h[i].1 == l[i].1
}

/// Every key of a bucket list parses.
pub open spec fn keys_parse(l: Seq<(Seq<char>, u64)>) -> bool {
    forall|i: int| 0 <= i < l.len() ==> gc_key_parse(#[trigger] l[i].0) is Some
}

/// `r` is `d` with the GC histogram built from its bucket list.
pub open spec fn materialized(d: DataSet, r: DataSet) -> bool {
    &&& keys_parse(kv(d.gc_hash@))
    &&& r == (DataSet { gc_counts: r.gc_counts, ..d })
    &&& r.gc_counts matches Some(h) && histogram_of(kv(d.gc_hash@), h@)
}

/// Parses every key of a bucket list, keeping the list's order and counts.
pub fn parse_histogram(l: &BucketList) -> (r: Result<Vec<(GcHistKey, u64)>, Error>)
    ensures
        match r {
            Ok(h) => keys_parse(kv(l@)) && histogram_of(kv(l@), h@),
            Err(e) => !keys_parse(kv(l@)) && e == Error::BadGcKey,
        },
{
    let n = l.len();
    let mut h: Vec<(GcHistKey, u64)> = Vec::with_capacity(n);
    let mut i: usize = 0;
    while i < n
        invariant
            n == l@.len(),
            i <= n,
            h@.len() == i,
            forall|j: int|
                0 <= j < i ==> gc_key_parse(#[trigger] kv(l@)[j].0) == Some(h@[j].0) && h@[j].1
                    == kv(l@)[j].1,
        decreases n - i,
    {
        match GcHistKey::from_str(l[i].0.as_str()) {
            Ok(k) => h.push((k, l[i].1)),
            Err(e) => {
                assert(gc_key_parse(kv(l@)[i as int].0) is None);
                return Err(e);
            },
        }
        i = i + 1;
    }
    Ok(h)
}

/// The leading report columns of a dataset.
pub open spec fn dataset_columns(d: DataSet) -> Seq<char> {
    fli_columns(d.fli@) + "\t"@ + d.path@ + "\t"@ + bisulfite_name(d.bisulfite) + "\t"@ + decimal(
        d.trim as nat,
    ) + "\t"@ + decimal(d.min_qual as nat)
}

impl DataSet {
    /// The per-cycle tallies cover the cycles after the trim, and no bucket
    /// key occurs twice.
    pub open spec fn wf(&self) -> bool {
        &&& self.max_read_length >= self.trim
        &&& self.per_pos_cts@.len() == self.max_read_length - self.trim
        &&& unique_keys(kv(self.gc_hash@))
    }

    /// Validates a record and makes it a dataset whose artifacts are named
    /// `path`. Repeated bucket keys are summed.
    pub fn from_raw(t: RawDataSet, path: String) -> (r: Result<DataSet, Error>)
        ensures
            match r {
                Err(e) => raw_error(t) == Some(e),
                Ok(d) => {
                    &&& raw_error(t) is None
                    &&& d.wf()
                    &&& d.path@ == path@
                    &&& d.trim == t.trim
                    &&& d.min_qual == t.min_qual
                    &&& d.max_read_length == t.max_read_length
                    &&& d.bisulfite == t.bisulfite
                    &&& d.fli@ == t.fli@
                    &&& d.cts.0@ == raw_slots(t.cts)
                    &&& forall|i: int|
                        0 <= i < d.per_pos_cts@.len() ==> #[trigger] d.per_pos_cts@[i].0@ == raw_slots(
                            t.per_pos_cts@[i].1,
                        )
                    &&& buckets_merged(Seq::empty(), kv(t.gc_hash@), kv(d.gc_hash@))
                    &&& d.gc_counts is None
                    &&& d.kmer_counts == t.kmer_counts
                },
            },
    {
        let l = t.per_pos_cts.len();
        if t.max_read_length < t.trim || t.max_read_length - t.trim != l {
            return Err(Error::CycleMismatch);
        }
        let mut i: usize = 0;
        while i < l
            invariant
                l == t.per_pos_cts@.len(),
                i <= l,
                t.max_read_length - t.trim == l,
                forall|j: int| 0 <= j < i ==> #[trigger] t.per_pos_cts@[j].0 == j + 1 + t.trim,
            decreases l - i,
        {
            if t.per_pos_cts[i].0 as usize != i + 1 + t.trim {
                return Err(Error::CycleMismatch);
            }
            i = i + 1;
        }
        assert(cycles_ok(t));
        let cts = match Counts::from_raw(&t.cts) {
            Ok(c) => c,
            Err(e) => return Err(e),
        };
        let mut per_pos_cts: Vec<Counts> = Vec::with_capacity(l);
        let mut i: usize = 0;
        while i < l
            invariant
                l == t.per_pos_cts@.len(),
                i <= l,
                per_pos_cts@.len() == i,
                cycles_ok(t),
                raw_counts_fit(t.cts),
                forall|j: int| 0 <= j < i ==> raw_counts_fit(#[trigger] t.per_pos_cts@[j].1),
                forall|j: int| 0 <= j < i ==> #[trigger] per_pos_cts@[j].0@ == raw_slots(t.per_pos_cts@[j].1),
            decreases l - i,
        {
            match Counts::from_raw(&t.per_pos_cts[i].1) {
                Ok(c) => per_pos_cts.push(c),
                Err(e) => return Err(e),
            }
            i = i + 1;
        }
        let empty: BucketList = Vec::new();
        assert(kv(empty@) =~= Seq::empty());
        let gc_hash = match merge_buckets(&empty, &t.gc_hash) {
            Some(g) => g,
            None => return Err(Error::CountOverflow),
        };
        Ok(DataSet {
            path,
            trim: t.trim,
            min_qual: t.min_qual,
            max_read_length: t.max_read_length,
            bisulfite: t.bisulfite,
            fli: t.fli,
            cts,
            per_pos_cts,
            gc_hash,
            gc_counts: None,
            kmer_counts: t.kmer_counts,
        })
    }

    /// The GC histogram, once made.
    pub fn gc_counts(&self) -> (r: Option<&[(GcHistKey, u64)]>)
        ensures
            match self.gc_counts {
                None => r is None,
                Some(v) => r matches Some(s) && s@ == v@,
            },
    {
        match &self.gc_counts {
            Some(v) => Some(v.as_slice()),
            None => None,
        }
    }

    pub fn bisulfite(&self) -> (r: &BisulfiteType)
        ensures
            *r == self.bisulfite,
    {
        &self.bisulfite
    }

    pub fn max_read_len(&self) -> (r: usize)
        ensures
            r == self.max_read_length,
    {
        self.max_read_length
    }

    pub fn trim(&self) -> (r: usize)
        ensures
            r == self.trim,
    {
        self.trim
    }

    pub fn per_pos_cts(&self) -> (r: &[Counts])
        ensures
            r@ == self.per_pos_cts@,
    {
        self.per_pos_cts.as_slice()
    }

    pub fn kmer_counts(&self) -> (r: Option<&KmerCounts>)
        ensures
            match self.kmer_counts {
                None => r is None,
                Some(k) => r == Some(&k),
            },
    {
        match &self.kmer_counts {
            Some(k) => Some(k),
            None => None,
        }
    }

    /// The identity, to be changed in place.
    pub fn fli_mut(&mut self) -> (r: &mut Fli)
        ensures
            *r == old(self).fli,
            *final(self) == (DataSet { fli: *final(r), ..*old(self) }),
    {
        &mut self.fli
    }

    pub fn path(&self) -> (r: &str)
        ensures
            r@ == self.path@,
    {
        self.path.as_str()
    }

    pub fn set_path(&mut self, path: String)
        ensures
            *final(self) == (DataSet { path, ..*old(self) }),
    {
        self.path = path;
    }

    /// Builds the GC histogram from the bucket list, in the list's order;
    /// refused, and nothing changed, if a key does not parse.
    pub fn mk_gc_counts(&mut self) -> (r: Result<(), Error>)
        ensures
            match r {
                Ok(_) => materialized(*old(self), *final(self)),
                Err(e) => !keys_parse(kv(old(self).gc_hash@)) && e == Error::BadGcKey && *final(self)
                    == *old(self),
            },
    {
        match parse_histogram(&self.gc_hash) {
            Ok(h) => {
                self.gc_counts = Some(h);
                Ok(())
            },
            Err(e) => Err(e),
        }
    }

    /// The dataset's leading report columns, separated by tabs: identity,
    /// path, bisulfite kind, trim and quality threshold.
    pub fn columns(&self) -> (r: String)
        ensures
            r@ == dataset_columns(*self),
    {
        let mut s = self.fli.columns();
        s.append("\t");
        s.append(self.path.as_str());
        s.append("\t");
        s.append(self.bisulfite.name());
        s.append("\t");
        push_decimal(&mut s, self.trim as u64);
        s.append("\t");
        push_decimal(&mut s, self.min_qual as u64);
        proof {
            assert(s@ =~= dataset_columns(*self));
        }
        s
    }

    fn check_constants(&self, other: &DataSet) -> (r: bool)
        ensures
            r == constants_match(*self, *other),
    {
        self.trim == other.trim && self.min_qual == other.min_qual && self.bisulfite
            == other.bisulfite && (self.kmer_counts.is_some() == other.kmer_counts.is_some())
    }

    /// Merges `other` into this dataset; refused, and nothing changed, when
    /// the two were made with different parameters, their k-mer counts do
    /// not add up, or a sum overflows.
    pub fn merge(&mut self, other: &DataSet) -> (r: Result<(), Error>)
        requires
            old(self).wf(),
            other.wf(),
        ensures
            match r {
                Ok(_) => merge_error(*old(self), *other) is None && merged(
                    *old(self),
                    *other,
                    *final(self),
                ) && final(self).wf(),
                Err(e) => merge_error(*old(self), *other) == Some(e) && *final(self) == *old(self),
            },
    {
        if !self.check_constants(other) {
            return Err(Error::IncompatibleDatasets);
        }
        match (&self.kmer_counts, &other.kmer_counts) {
            (Some(ka), Some(kb)) => {
                match ka.check_add(kb) {
                    Some(e) => return Err(e),
                    None => {},
                }
            },
            _ => {},
        }
        if !self.cts.fits_with(&other.cts) {
            return Err(Error::CountOverflow);
        }
        let max_read_length = if self.max_read_length >= other.max_read_length {
            self.max_read_length
        } else {
            other.max_read_length
        };
        let per_pos_cts = match add_cycles(
            &self.per_pos_cts,
            &other.per_pos_cts,
            max_read_length - self.trim,
        ) {
            Some(v) => v,
            None => return Err(Error::CountOverflow),
        };
        let gc_hash = match merge_buckets(&self.gc_hash, &other.gc_hash) {
            Some(g) => g,
            None => return Err(Error::CountOverflow),
        };
        self.max_read_length = max_read_length;
        self.fli.find_common(&other.fli);
        self.cts.add(&other.cts);
        self.per_pos_cts = per_pos_cts;
        self.gc_hash = gc_hash;
        self.gc_counts = None;
        match (&mut self.kmer_counts, &other.kmer_counts) {
            (Some(ka), Some(kb)) => {
                let _ = ka.add(kb);
            },
            _ => {},
        }
        Ok(())
    }
}

} // verus!
