use vstd::prelude::*;

verus! {

/// The raw GC-bucket list of a dataset: each key, `"a:b"`, with its count.
/// The dataset keeps each key once.
pub type BucketList = Vec<(String, u64)>;

/// The keys and counts of a bucket list, as values.
pub open spec fn kv(l: Seq<(String, u64)>) -> Seq<(Seq<char>, u64)> {
    l.map_values(|e: (String, u64)| (e.0@, e.1))
}

/// The total count that the list gives key `k`.
pub open spec fn weight(l: Seq<(Seq<char>, u64)>, k: Seq<char>) -> int
    decreases l.len(),
{
    if l.len() == 0 {
        0
    } else {
        weight(l.drop_last(), k) + if l.last().0 == k {
            l.last().1 as int
        } else {
            0
        }
    }
}

/// The list holds key `k`.
pub open spec fn has_key(l: Seq<(Seq<char>, u64)>, k: Seq<char>) -> bool {
    exists|i: int| 0 <= i < l.len() && #[trigger] l[i].0 == k
}

/// No key occurs twice in the list.
pub open spec fn unique_keys(l: Seq<(Seq<char>, u64)>) -> bool {
    forall|i: int, j: int| 0 <= i < j < l.len() ==> #[trigger] l[i].0 != #[trigger] l[j].0
}

/// The total counts of every key in two lists sum to at most 64 bits.
pub open spec fn bucket_sums_fit(a: Seq<(Seq<char>, u64)>, b: Seq<(Seq<char>, u64)>) -> bool {
    forall|k: Seq<char>| #[trigger] weight(a, k) + #[trigger] weight(b, k) <= u64::MAX
}

/// `r` holds, once each, the keys of `a` and `b`, each with the sum of its
/// counts in both.
pub open spec fn buckets_merged(
    a: Seq<(Seq<char>, u64)>,
    b: Seq<(Seq<char>, u64)>,
    r: Seq<(Seq<char>, u64)>,
) -> bool {
    &&& unique_keys(r)
    &&& forall|k: Seq<char>| #[trigger] weight(r, k) == weight(a, k) + weight(b, k)
    &&& forall|k: Seq<char>| #[trigger] has_key(r, k) <==> has_key(a, k) || has_key(b, k)
}

proof fn lemma_weight_push(l: Seq<(Seq<char>, u64)>, e: (Seq<char>, u64), k: Seq<char>)
    ensures
        weight(l.push(e), k) == weight(l, k) + if e.0 == k {
            e.1 as int
        } else {
            0
        },
{
    assert(l.push(e).drop_last() =~= l);
}

proof fn lemma_weight_update(l: Seq<(Seq<char>, u64)>, i: int, v: u64, k: Seq<char>)
    requires
        0 <= i < l.len(),
    ensures
        weight(l.update(i, (l[i].0, v)), k) == weight(l, k) + if l[i].0 == k {
            v - l[i].1
        } else {
            0
        },
    decreases l.len(),
{
    let u = l.update(i, (l[i].0, v));
    if i == l.len() - 1 {
        assert(u.drop_last() =~= l.drop_last());
    } else {
        lemma_weight_update(l.drop_last(), i, v, k);
        assert(u.drop_last() =~= l.drop_last().update(i, (l[i].0, v)));
    }
}

/// In a list without repeated keys, a key weighs its one count, and a key
/// that is absent weighs nothing.
pub proof fn lemma_weight_unique(l: Seq<(Seq<char>, u64)>, k: Seq<char>)
    requires
        unique_keys(l),
    ensures
        !has_key(l, k) ==> weight(l, k) == 0,
        forall|i: int| 0 <= i < l.len() && l[i].0 == k ==> weight(l, k) == l[i].1,
    decreases l.len(),
{
    if l.len() > 0 {
        let d = l.drop_last();
        assert(unique_keys(d)) by {
            assert forall|i: int, j: int| 0 <= i < j < d.len() implies #[trigger] d[i].0
                != #[trigger] d[j].0 by {
                assert(l[i].0 != l[j].0);
            }
        }
        lemma_weight_unique(d, k);
        if l.last().0 == k {
            assert(!has_key(d, k)) by {
                if has_key(d, k) {
                    let i = choose|i: int| 0 <= i < d.len() && #[trigger] d[i].0 == k;
                    assert(l[i].0 != l[l.len() - 1].0);
                }
            }
        }
        if !has_key(l, k) {
            assert(!has_key(d, k)) by {
                if has_key(d, k) {
                    let i = choose|i: int| 0 <= i < d.len() && #[trigger] d[i].0 == k;
                    assert(l[i].0 == k);
                }
            }
            assert(l[l.len() - 1].0 != k);
        }
        assert forall|i: int| 0 <= i < l.len() && l[i].0 == k implies weight(l, k) == l[i].1 by {
            if i < l.len() - 1 {
                assert(d[i].0 == k);
                assert(l[i].0 != l[l.len() - 1].0);
            } else {
                assert(!has_key(d, k)) by {
                    if has_key(d, k) {
                        let j = choose|j: int| 0 <= j < d.len() && #[trigger] d[j].0 == k;
                        assert(l[j].0 != l[l.len() - 1].0);
                    }
                }
            }
        }
    }
}

proof fn lemma_weight_prefix(l: Seq<(Seq<char>, u64)>, j: int, k: Seq<char>)
    requires
        0 <= j <= l.len(),
    ensures
        weight(l.subrange(0, j), k) <= weight(l, k),
    decreases l.len(),
{
    if j < l.len() {
        lemma_weight_prefix(l.drop_last(), j, k);
        assert(l.drop_last().subrange(0, j) =~= l.subrange(0, j));
        assert(l.last().1 >= 0);
    } else {
        assert(l.subrange(0, j) =~= l);
    }
}

fn find_key(l: &Vec<(String, u64)>, key: &String) -> (r: Option<usize>)
    ensures
        match r {
            Some(i) => i < l@.len() && l@[i as int].0@ == key@,
            None => !has_key(kv(l@), key@),
        },
{
    let mut i: usize = 0;
    while i < l.len()
        invariant
            i <= l@.len(),
            forall|j: int| 0 <= j < i ==> l@[j].0@ != key@,
        decreases l@.len() - i,
    {
        if l[i].0 == *key {
            return Some(i);
        }
        i = i + 1;
    }
    assert(!has_key(kv(l@), key@)) by {
        if has_key(kv(l@), key@) {
            let j = choose|j: int| 0 <= j < kv(l@).len() && #[trigger] kv(l@)[j].0 == key@;
            assert(l@[j].0@ == key@);
        }
    }
    None
}

/// A copy of a bucket list.
pub fn copy_buckets(a: &Vec<(String, u64)>) -> (r: Vec<(String, u64)>)
    ensures
        kv(r@) == kv(a@),
{
    let mut r: Vec<(String, u64)> = Vec::with_capacity(a.len());
    let mut i: usize = 0;
    while i < a.len()
        invariant
            i <= a@.len(),
            r@.len() == i,
            kv(r@) == kv(a@).subrange(0, i as int),
        decreases a@.len() - i,
    {
        let k: String = a[i].0.clone();
        let v: u64 = a[i].1;
        let ghost old_r = r@;
        r.push((k, v));
        assert forall|x: int| 0 <= x < i + 1 implies #[trigger] kv(r@)[x] == kv(a@)[x] by {
            if x < i {
                assert(r@[x] == old_r[x]);
                assert(kv(old_r)[x] == kv(a@)[x]);
            }
        }
        assert(kv(r@) =~= kv(a@).subrange(0, i + 1));
        i = i + 1;
    }
    assert(kv(a@).subrange(0, i as int) =~= kv(a@));
    r
}

/// Adds the counts of `b` to a copy of `a`, key by key: keys of `b` that
/// `a` lacks are appended. `None` if a key's total does not fit 64 bits.
pub fn merge_buckets(a: &Vec<(String, u64)>, b: &Vec<(String, u64)>) -> (r: Option<
    Vec<(String, u64)>,
>)
    requires
        unique_keys(kv(a@)),
    ensures
        r is Some <==> bucket_sums_fit(kv(a@), kv(b@)),
        r matches Some(v) ==> buckets_merged(kv(a@), kv(b@), kv(v@)),
{
    let mut res = copy_buckets(a);
    let ghost ka = kv(a@);
    let ghost kb = kv(b@);
    let mut j: usize = 0;
    assert forall|k: Seq<char>| #[trigger] weight(kv(res@), k) == weight(ka, k) + weight(kb.subrange(0, 0), k) by {
        assert(kb.subrange(0, 0).len() == 0);
    }
    assert forall|k: Seq<char>| #[trigger] has_key(kv(res@), k) <==> has_key(ka, k) || has_key(kb.subrange(0, 0), k) by {
    }
    while j < b.len()
        invariant
            ka == kv(a@),
            kb == kv(b@),
            j <= b@.len(),
            unique_keys(kv(res@)),
            forall|k: Seq<char>| #[trigger] weight(kv(res@), k) == weight(ka, k) + weight(kb.subrange(0, j as int), k),
            forall|k: Seq<char>| #[trigger] has_key(kv(res@), k) <==> has_key(ka, k) || has_key(kb.subrange(0, j as int), k),
        decreases b@.len() - j,
    {
        let ghost old_res = kv(res@);
        let ghost key = b@[j as int].0@;
        let ghost p = kb.subrange(0, j as int);
        let ghost p1 = kb.subrange(0, j + 1);
        assert(p1 =~= p.push(kb[j as int]));
        assert forall|k: Seq<char>| #[trigger] weight(p1, k) == weight(p, k) + if key == k {
            b@[j as int].1 as int
        } else {
            0
        } by {
            lemma_weight_push(p, kb[j as int], k);
        }
        assert forall|k: Seq<char>| #[trigger] has_key(p1, k) <==> has_key(p, k) || key == k by {
            if has_key(p1, k) && !(key == k) {
                let i = choose|i: int| 0 <= i < p1.len() && #[trigger] p1[i].0 == k;
                assert(p[i].0 == k);
            }
            if has_key(p, k) {
                let i = choose|i: int| 0 <= i < p.len() && #[trigger] p[i].0 == k;
                assert(p1[i].0 == k);
            }
            if key == k {
                assert(p1[j as int].0 == k);
            }
        }
        let v = b[j].1;
        match find_key(&res, &b[j].0) {
            Some(i) => {
                let w = res[i].1;
                proof {
                    lemma_weight_unique(old_res, key);
                    assert(old_res[i as int].0 == key);
                }
                if w > u64::MAX - v {
                    proof {
                        lemma_weight_prefix(kb, j + 1, key);
                        assert(!(weight(ka, key) + weight(kb, key) <= u64::MAX));
                    }
                    return None;
                }
                let s = res[i].0.clone();
                res.set(i, (s, w + v));
                proof {
                    assert(kv(res@) =~= old_res.update(i as int, (old_res[i as int].0, (w + v) as u64)));
                    assert forall|k: Seq<char>| #[trigger] weight(kv(res@), k) == weight(ka, k) + weight(p1, k) by {
                        lemma_weight_update(old_res, i as int, (w + v) as u64, k);
                    }
                    assert forall|k: Seq<char>| #[trigger] has_key(kv(res@), k) <==> has_key(ka, k) || has_key(p1, k) by {
                        if has_key(kv(res@), k) {
                            let t = choose|t: int| 0 <= t < kv(res@).len() && #[trigger] kv(res@)[t].0 == k;
                            assert(old_res[t].0 == k);
                        }
                        if has_key(old_res, k) {
                            let t = choose|t: int| 0 <= t < old_res.len() && #[trigger] old_res[t].0 == k;
                            assert(kv(res@)[t].0 == k);
                        }
                    }
                    assert forall|x: int, y: int| 0 <= x < y < kv(res@).len() implies #[trigger] kv(res@)[x].0
                        != #[trigger] kv(res@)[y].0 by {
                        assert(old_res[x].0 != old_res[y].0);
                    }
                }
            },
            None => {
                let s = b[j].0.clone();
                res.push((s, v));
                proof {
                    assert(kv(res@) =~= old_res.push((key, v)));
                    assert forall|k: Seq<char>| #[trigger] weight(kv(res@), k) == weight(ka, k) + weight(p1, k) by {
                        lemma_weight_push(old_res, (key, v), k);
                    }
                    assert forall|k: Seq<char>| #[trigger] has_key(kv(res@), k) <==> has_key(ka, k) || has_key(p1, k) by {
                        if has_key(kv(res@), k) {
                            let t = choose|t: int| 0 <= t < kv(res@).len() && #[trigger] kv(res@)[t].0 == k;
                            if t < old_res.len() {
                                assert(old_res[t].0 == k);
                            }
                        }
                        if has_key(old_res, k) {
                            let t = choose|t: int| 0 <= t < old_res.len() && #[trigger] old_res[t].0 == k;
                            assert(kv(res@)[t].0 == k);
                        }
                        if k == key {
                            assert(kv(res@)[old_res.len() as int].0 == k);
                        }
                    }
                    assert forall|x: int, y: int| 0 <= x < y < kv(res@).len() implies #[trigger] kv(res@)[x].0
                        != #[trigger] kv(res@)[y].0 by {
                        if y < old_res.len() {
                            assert(old_res[x].0 != old_res[y].0);
                        } else {
                            assert(old_res[x].0 != key) by {
                                if old_res[x].0 == key {
                                    assert(has_key(old_res, key));
                                }
                            }
                        }
                    }
                }
            },
        }
        j = j + 1;
    }
    assert(kb.subrange(0, j as int) =~= kb);
    assert forall|k: Seq<char>| #[trigger] weight(ka, k) + #[trigger] weight(kb, k) <= u64::MAX by {
        lemma_weight_unique(kv(res@), k);
        if has_key(kv(res@), k) {
            let t = choose|t: int| 0 <= t < kv(res@).len() && #[trigger] kv(res@)[t].0 == k;
            assert(kv(res@)[t].1 <= u64::MAX);
        }
    }
    Some(res)
}

} // verus!
