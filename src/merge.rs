use vstd::prelude::*;

use crate::buckets::{has_key, kv, lemma_weight_unique, weight};
use crate::counts::slot;
use crate::dataset::{keys_parse, materialized, merge_error, merged, DataSet};
use crate::error::Error;
use crate::fli::{key_of, merge_key_of, Fli, FliView, MergeKey};

verus! {

/// The concrete kind of merge key for an identity: the run's kind, or the
/// inferred one when the run's kind is `Default`.
pub open spec fn resolved_kind(v: FliView, m: MergeKey) -> Option<MergeKey> {
    if m == MergeKey::Default {
        merge_key_of(v)
    } else {
        Some(m)
    }
}

/// Why no merge key can be derived for an identity, if none can.
pub open spec fn merge_key_error(v: FliView, m: MergeKey) -> Option<Error> {
    match resolved_kind(v, m) {
        None => Some(Error::NoMergeKeyKind),
        Some(k) => if key_of(v, k) is None {
            Some(Error::NoMergeKey)
        } else {
            None
        },
    }
}

/// The groups are well formed, and no two share a key (their path).
pub open spec fn groups_wf(s: Seq<DataSet>) -> bool {
    &&& forall|i: int| 0 <= i < s.len() ==> (#[trigger] s[i]).wf()
    &&& forall|i: int, j: int| 0 <= i < j < s.len() ==> #[trigger] s[i].path@ != #[trigger] s[j].path@
}

/// The index of the group whose key is `key`, if there is one.
pub open spec fn group_of(s: Seq<DataSet>, key: Seq<char>) -> Option<int> {
    if exists|i: int| 0 <= i < s.len() && #[trigger] s[i].path@ == key {
        Some(choose|i: int| 0 <= i < s.len() && #[trigger] s[i].path@ == key)
    } else {
        None
    }
}

/// Why a dataset cannot join the groups of a run whose key kind is `m`: no
/// key can be derived, or it cannot be merged into the group of its key.
pub open spec fn aggregate_error(s: Seq<DataSet>, d: DataSet, m: MergeKey) -> Option<Error> {
    match merge_key_error(d.fli@, m) {
        Some(e) => Some(e),
        None => match group_of(s, key_of(d.fli@, resolved_kind(d.fli@, m)->Some_0)->Some_0) {
            Some(i) => merge_error(s[i], d),
            None => None,
        },
    }
}

/// Derives the kind and the value of the merge key of an identity: the
/// kind `m`, or for `Default` the kind inferred from the identity.
pub fn get_merge_key(fli: &Fli, m: MergeKey) -> (r: Result<(MergeKey, String), Error>)
    ensures
        match r {
            Ok((k, s)) => merge_key_error(fli@, m) is None && resolved_kind(fli@, m) == Some(k)
                && key_of(fli@, k) == Some(s@),
            Err(e) => merge_key_error(fli@, m) == Some(e),
        },
{
    let k = if m == MergeKey::Default {
        match fli.find_merge_key() {
            Some(k) => k,
            None => return Err(Error::NoMergeKeyKind),
        }
    } else {
        m
    };
    match fli.get_key(k) {
        Some(s) => Ok((k, s)),
        None => Err(Error::NoMergeKey),
    }
}

fn find_group(groups: &Vec<DataSet>, key: &String) -> (r: Option<usize>)
    ensures
        match r {
            Some(i) => i < groups@.len() && groups@[i as int].path@ == key@,
            None => forall|i: int| 0 <= i < groups@.len() ==> #[trigger] groups@[i].path@ != key@,
        },
{
    let mut i: usize = 0;
    while i < groups.len()
        invariant
            i <= groups@.len(),
            forall|j: int| 0 <= j < i ==> #[trigger] groups@[j].path@ != key@,
        decreases groups@.len() - i,
    {
        if groups[i].path == *key {
            return Some(i);
        }
        i = i + 1;
    }
    None
}

/// Adds a dataset to the groups of a merge run whose key kind is `m`: into
/// the group with the same key value if there is one, else as a new group
/// named after the key. Returns the run's key kind from now on, which is
/// never `Default` again. On error the groups are unchanged.
pub fn merge_dataset(d: DataSet, m: MergeKey, groups: &mut Vec<DataSet>) -> (r: Result<MergeKey, Error>)
    requires
        d.wf(),
        groups_wf(old(groups)@),
    ensures
        groups_wf(final(groups)@),
        match r {
            Err(e) => final(groups)@ == old(groups)@ && aggregate_error(old(groups)@, d, m) == Some(e),
            Ok(k) => {
                &&& merge_key_error(d.fli@, m) is None
                &&& resolved_kind(d.fli@, m) == Some(k)
                &&& k != MergeKey::Default
                &&& match group_of(old(groups)@, key_of(d.fli@, k)->Some_0) {
                    Some(i) => {
                        &&& merge_error(old(groups)@[i], d) is None
                        &&& final(groups)@.len() == old(groups)@.len()
                        &&& merged(old(groups)@[i], d, final(groups)@[i])
                        &&& forall|j: int|
                            0 <= j < old(groups)@.len() && j != i ==> #[trigger] final(groups)@[j]
                                == old(groups)@[j]
                    },
                    None => {
                        &&& final(groups)@ == old(groups)@.push(final(groups)@.last())
                        &&& final(groups)@.last() == (DataSet {
                            path: final(groups)@.last().path,
                            ..d
                        })
                        &&& final(groups)@.last().path@ == key_of(d.fli@, k)->Some_0
                    },
                }
            },
        },
{
    let (k, key) = match get_merge_key(&d.fli, m) {
        Ok(x) => x,
        Err(e) => return Err(e),
    };
    proof {
        reveal(merge_key_of);
        assert(k != MergeKey::Default);
    }
    match find_group(groups, &key) {
        Some(i) => {
            proof {
                assert(exists|j: int| 0 <= j < old(groups)@.len() && #[trigger] old(groups)@[j].path@ == key@);
                let c = choose|j: int| 0 <= j < old(groups)@.len() && #[trigger] old(groups)@[j].path@ == key@;
                if c != i {
                    assert(old(groups)@[c].path@ != old(groups)@[i as int].path@);
                }
            }
            let ghost old_groups = groups@;
            match groups[i].merge(&d) {
                Ok(_) => {},
                Err(e) => {
                    assert(groups@ =~= old_groups);
                    return Err(e);
                },
            }
            proof {
                assert forall|x: int, y: int| 0 <= x < y < groups@.len() implies #[trigger] groups@[x].path@
                    != #[trigger] groups@[y].path@ by {
                    assert(old_groups[x].path@ != old_groups[y].path@);
                }
            }
        },
        None => {
            let mut d = d;
            d.set_path(key);
            let ghost old_groups = groups@;
            groups.push(d);
            proof {
                assert forall|x: int, y: int| 0 <= x < y < groups@.len() implies #[trigger] groups@[x].path@
                    != #[trigger] groups@[y].path@ by {
                    if y < old_groups.len() {
                        assert(old_groups[x].path@ != old_groups[y].path@);
                    }
                }
                assert(groups@ =~= old_groups.push(groups@.last()));
            }
        },
    }
    Ok(k)
}

/// Builds the GC histogram of every group; refused if a bucket key of some
/// group does not parse.
pub fn mk_all_gc_counts(groups: &mut Vec<DataSet>) -> (r: Result<(), Error>)
    ensures
        final(groups)@.len() == old(groups)@.len(),
        match r {
            Ok(_) => forall|i: int|
                0 <= i < old(groups)@.len() ==> materialized(old(groups)@[i], #[trigger] final(groups)@[i]),
            Err(e) => e == Error::BadGcKey && exists|i: int|
                0 <= i < old(groups)@.len() && !keys_parse(kv(#[trigger] old(groups)@[i].gc_hash@)),
        },
{
    let n = groups.len();
    let mut i: usize = 0;
    while i < n
        invariant
            n == groups@.len(),
            n == old(groups)@.len(),
            i <= n,
            forall|j: int| i <= j < n ==> #[trigger] groups@[j] == old(groups)@[j],
            forall|j: int| 0 <= j < i ==> materialized(old(groups)@[j], #[trigger] groups@[j]),
        decreases n - i,
    {
        match groups[i].mk_gc_counts() {
            Ok(_) => {},
            Err(e) => {
                assert(!keys_parse(kv(old(groups)@[i as int].gc_hash@)));
                return Err(e);
            },
        }
        i = i + 1;
    }
    Ok(())
}

/// Merging a dataset into a group that holds the same dataset (under the
/// group's own name, as the aggregation step stores it) doubles every tally,
/// every per-cycle tally and every bucket count, keeps the bucket keys, and
/// leaves the maximum read length unchanged.
pub proof fn lemma_merge_self_doubles(g: DataSet, d: DataSet, r: DataSet)
    requires
        d.wf(),
        g == (DataSet { path: g.path, ..d }),
        merged(g, d, r),
    ensures
        r.max_read_length == d.max_read_length,
        forall|k: int| 0 <= k < 5 ==> #[trigger] r.cts.0@[k] == 2 * d.cts.0@[k],
        r.per_pos_cts@.len() == d.per_pos_cts@.len(),
        forall|i: int, k: int|
            0 <= i < d.per_pos_cts@.len() && 0 <= k < 5 ==> #[trigger] r.per_pos_cts@[i].0@[k] == 2
                * d.per_pos_cts@[i].0@[k],
        forall|i: int|
            0 <= i < d.gc_hash@.len() ==> weight(kv(r.gc_hash@), #[trigger] kv(d.gc_hash@)[i].0) == 2
                * d.gc_hash@[i].1,
        forall|key: Seq<char>| #[trigger] has_key(kv(r.gc_hash@), key) <==> has_key(kv(d.gc_hash@), key),
{
    assert forall|i: int, k: int|
        0 <= i < d.per_pos_cts@.len() && 0 <= k < 5 implies #[trigger] r.per_pos_cts@[i].0@[k] == 2
            * d.per_pos_cts@[i].0@[k] by {
        assert(slot(d.per_pos_cts@, i, k) == d.per_pos_cts@[i].0@[k]);
        assert(slot(g.per_pos_cts@, i, k) == d.per_pos_cts@[i].0@[k]);
    }
    assert forall|i: int| 0 <= i < d.gc_hash@.len() implies weight(
        kv(r.gc_hash@),
        #[trigger] kv(d.gc_hash@)[i].0,
    ) == 2 * d.gc_hash@[i].1 by {
        lemma_weight_unique(kv(d.gc_hash@), kv(d.gc_hash@)[i].0);
    }
}

} // verus!
