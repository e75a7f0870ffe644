use std::collections::HashMap;
use vstd::prelude::*;

use crate::buckets::{kv, BucketList};
use crate::dataset::{histogram_of, keys_parse, parse_histogram};
use crate::error::Error;
use crate::gc::GcHistKey;

verus! {

broadcast use vstd::std_specs::hash::group_hash_axioms;

/// The reference GC histograms for one read length: the regular one, and
/// optionally one for bisulfite-treated reads.
#[derive(Debug)]
pub struct Counts {
    pub regular: Vec<(GcHistKey, u64)>,
    pub bisulfite: Option<Vec<(GcHistKey, u64)>>,
}

/// `c` holds the histograms that the two bucket lists give.
pub open spec fn counts_parsed(
    counts: Seq<(Seq<char>, u64)>,
    bisulfite: Option<Seq<(Seq<char>, u64)>>,
    c: Counts,
) -> bool {
    &&& histogram_of(counts, c.regular@)
    &&& match bisulfite {
        None => c.bisulfite is None,
        Some(b) => c.bisulfite matches Some(h) && histogram_of(b, h@),
    }
}

/// Every key of the two bucket lists parses.
pub open spec fn counts_keys_parse(
    counts: Seq<(Seq<char>, u64)>,
    bisulfite: Option<Seq<(Seq<char>, u64)>>,
) -> bool {
    &&& keys_parse(counts)
    &&& match bisulfite {
        None => true,
        Some(b) => keys_parse(b),
    }
}

/// The keys and counts of an optional bucket list, as values.
pub open spec fn opt_kv(b: Option<BucketList>) -> Option<Seq<(Seq<char>, u64)>> {
    match b {
        None => None,
        Some(l) => Some(kv(l@)),
    }
}

impl Counts {
    /// Parses the bucket lists of one read length.
    pub fn from_rs_counts(counts: &BucketList, bisulfite_counts: &Option<BucketList>) -> (r: Result<
        Counts,
        Error,
    >)
        ensures
            match r {
                Ok(c) => counts_keys_parse(kv(counts@), opt_kv(*bisulfite_counts)) && counts_parsed(
                    kv(counts@),
                    opt_kv(*bisulfite_counts),
                    c,
                ),
                Err(e) => !counts_keys_parse(kv(counts@), opt_kv(*bisulfite_counts)) && e
                    == Error::BadGcKey,
            },
    {
        let regular = parse_histogram(counts)?;
        let bisulfite = match bisulfite_counts {
            None => None,
            Some(b) => Some(parse_histogram(b)?),
        };
        Ok(Counts { regular, bisulfite })
    }

    pub fn regular(&self) -> (r: &[(GcHistKey, u64)])
        ensures
            r@ == self.regular@,
    {
        self.regular.as_slice()
    }

    pub fn bisulfite(&self) -> (r: Option<&[(GcHistKey, u64)]>)
        ensures
            match self.bisulfite {
                None => r is None,
                Some(v) => r matches Some(s) && s@ == v@,
            },
    {
        match &self.bisulfite {
            Some(v) => Some(v.as_slice()),
            None => None,
        }
    }
}

/// Reference GC distributions by read length.
pub struct RefDist {
    pub read_lengths: Vec<u32>,
    pub read_length_specific_counts: HashMap<u32, Counts>,
}

/// The distance between two integers.
pub open spec fn abs_diff(a: int, b: int) -> int {
    if a >= b {
        a - b
    } else {
        b - a
    }
}

/// `i` indexes the length of `s` closest to `rl`, the earliest among
/// equally close ones.
pub open spec fn is_closest(s: Seq<u32>, rl: u32, i: int) -> bool {
    &&& 0 <= i < s.len()
    &&& forall|j: int| 0 <= j < s.len() ==> abs_diff(rl as int, s[i] as int) <= abs_diff(rl as int, #[trigger] s[j] as int)
    &&& forall|j: int| 0 <= j < i ==> abs_diff(rl as int, s[i] as int) < abs_diff(rl as int, #[trigger] s[j] as int)
}

/// The index of the length closest to `rl`, ties going to the earlier one;
/// `None` for no lengths.
pub fn closest_index(lengths: &[u32], rl: u32) -> (r: Option<usize>)
    ensures
        lengths@.len() == 0 <==> r is None,
        r matches Some(i) ==> is_closest(lengths@, rl, i as int),
{
    if lengths.len() == 0 {
        return None;
    }
    let mut k: usize = 0;
    let mut i: usize = 1;
    while i < lengths.len()
        invariant
            1 <= i <= lengths@.len(),
            k < i,
            forall|j: int| 0 <= j < i ==> abs_diff(rl as int, lengths@[k as int] as int) <= abs_diff(rl as int, #[trigger] lengths@[j] as int),
            forall|j: int| 0 <= j < k ==> abs_diff(rl as int, lengths@[k as int] as int) < abs_diff(rl as int, #[trigger] lengths@[j] as int),
        decreases lengths@.len() - i,
    {
        let d_new = if rl >= lengths[i] { rl - lengths[i] } else { lengths[i] - rl };
        let d_old = if rl >= lengths[k] { rl - lengths[k] } else { lengths[k] - rl };
        if d_new < d_old {
            k = i;
        }
        i = i + 1;
    }
    Some(k)
}

impl RefDist {
    /// Builds the reference from its read lengths and, per read length, the
    /// regular and the optional bisulfite bucket lists.
    pub fn from_raw(read_lengths: Vec<u32>, entries: Vec<(u32, BucketList, Option<BucketList>)>) -> (r: Result<
        RefDist,
        Error,
    >)
        ensures
            match r {
                Ok(d) => {
                    &&& d.read_lengths@ == read_lengths@
                    &&& forall|i: int|
                        0 <= i < entries@.len() ==> counts_keys_parse(
                            kv(#[trigger] entries@[i].1@),
                            opt_kv(entries@[i].2),
                        )
                    &&& forall|l: u32|
                        #[trigger] d.read_length_specific_counts@.contains_key(l) <==> exists|i: int|
                            0 <= i < entries@.len() && #[trigger] entries@[i].0 == l
                    &&& forall|l: u32|
                        #[trigger] d.read_length_specific_counts@.contains_key(l) ==> exists|i: int|
                            0 <= i < entries@.len() && #[trigger] entries@[i].0 == l && counts_parsed(
                                kv(entries@[i].1@),
                                opt_kv(entries@[i].2),
                                d.read_length_specific_counts@[l],
                            )
                },
                Err(e) => e == Error::BadGcKey && exists|i: int|
                    0 <= i < entries@.len() && !counts_keys_parse(
                        kv(#[trigger] entries@[i].1@),
                        opt_kv(entries@[i].2),
                    ),
            },
    {
        proof {
            broadcast use vstd::std_specs::hash::axiom_u32_obeys_hash_table_key_model;
            broadcast use vstd::std_specs::hash::axiom_random_state_builds_valid_hashers;
        }
        let mut map: HashMap<u32, Counts> = HashMap::new();
        let n = entries.len();
        let mut i: usize = 0;
        while i < n
            invariant
                n == entries@.len(),
                i <= n,
                vstd::std_specs::hash::obeys_key_model::<u32>(),
                vstd::std_specs::hash::builds_valid_hashers::<std::hash::RandomState>(),
                forall|j: int|
                    0 <= j < i ==> counts_keys_parse(kv(#[trigger] entries@[j].1@), opt_kv(entries@[j].2)),
                forall|l: u32|
                    #[trigger] map@.contains_key(l) <==> exists|j: int| 0 <= j < i && #[trigger] entries@[j].0 == l,
                forall|l: u32|
                    #[trigger] map@.contains_key(l) ==> exists|j: int|
                        0 <= j < i && #[trigger] entries@[j].0 == l && counts_parsed(
                            kv(entries@[j].1@),
                            opt_kv(entries@[j].2),
                            map@[l],
                        ),
            decreases n - i,
        {
            let c = match Counts::from_rs_counts(&entries[i].1, &entries[i].2) {
                Ok(c) => c,
                Err(e) => return Err(e),
            };
            let ghost old_map = map@;
            map.insert(entries[i].0, c);
            proof {
                assert forall|l: u32| #[trigger] map@.contains_key(l) implies exists|j: int|
                    0 <= j < i + 1 && #[trigger] entries@[j].0 == l && counts_parsed(
                        kv(entries@[j].1@),
                        opt_kv(entries@[j].2),
                        map@[l],
                    ) by {
                    if l == entries@[i as int].0 {
                        assert(entries@[i as int].0 == l);
                    } else {
                        assert(old_map.contains_key(l));
                    }
                }
                assert forall|l: u32| #[trigger] map@.contains_key(l) <==> exists|j: int|
                    0 <= j < i + 1 && #[trigger] entries@[j].0 == l by {
                    if exists|j: int| 0 <= j < i + 1 && #[trigger] entries@[j].0 == l {
                        let j = choose|j: int| 0 <= j < i + 1 && #[trigger] entries@[j].0 == l;
                        if j < i {
                            assert(old_map.contains_key(l));
                        }
                    }
                }
            }
            i = i + 1;
        }
        Ok(RefDist { read_lengths, read_length_specific_counts: map })
    }

    /// The listed read length closest to `rl` (the earliest on a tie) and its
    /// histograms; `None` when no length is listed or the closest has no
    /// histograms.
    pub fn get_closest_reference(&self, rl: u32) -> (r: Option<(u32, &Counts)>)
        ensures
            match r {
                Some((l, c)) => exists|i: int|
                    is_closest(self.read_lengths@, rl, i) && #[trigger] self.read_lengths@[i] == l
                        && self.read_length_specific_counts@.contains_key(l) && *c
                        == self.read_length_specific_counts@[l],
                None => self.read_lengths@.len() == 0 || exists|i: int|
                    is_closest(self.read_lengths@, rl, i) && !self.read_length_specific_counts@.contains_key(
                        #[trigger] self.read_lengths@[i],
                    ),
            },
    {
        proof {
            broadcast use vstd::std_specs::hash::axiom_u32_obeys_hash_table_key_model;
            broadcast use vstd::std_specs::hash::axiom_random_state_builds_valid_hashers;
        }
        match closest_index(self.read_lengths.as_slice(), rl) {
            None => None,
            Some(i) => {
                let l = self.read_lengths[i];
                match self.read_length_specific_counts.get(&l) {
                    Some(c) => Some((l, c)),
                    None => None,
                }
            },
        }
    }
}

} // verus!
