use gc_analysis::counts::{Counts, RawCounts};
use gc_analysis::dataset::{DataSet, RawDataSet};
use gc_analysis::error::Error;
use gc_analysis::fli::{BisulfiteType, Fli, MergeKey};
use gc_analysis::gc::{gc_totals, GcHistKey};
use gc_analysis::kmcv::KmcvHeaderCore;
use gc_analysis::kmers::KmerCounts;
use gc_analysis::merge::{merge_dataset, mk_all_gc_counts};
use gc_analysis::pipeline::{regression_window, work_queue_capacity, worker_count};
use gc_analysis::reference::{closest_index, Counts as RefCounts, RefDist};

fn raw(a: u64, c: u64, g: u64, t: u64, n: Option<u64>, other: Option<u64>) -> RawCounts {
    RawCounts { a, c, g, t, n, other }
}

fn fli_with_sample(s: &str) -> Fli {
    Fli {
        sample: Some(s.to_string()),
        barcode: None,
        library: None,
        flowcell: None,
        index: None,
        lane: Some(1),
        read_end: Some(1),
    }
}

fn kmers(counts: Vec<(u32, u64)>) -> KmerCounts {
    KmerCounts {
        kmcv: KmcvHeaderCore {
            version_major: 2,
            version_minor: 0,
            kmer_length: 12,
            max_hits: 8,
            n_contigs: 1,
            n_targets: counts.len() as u32,
            rnd_id: 42,
        },
        total_reads: 10,
        mapped_reads: 9,
        total_bases: 1000,
        mapped_bases: 900,
        counts,
    }
}

fn raw_dataset(sample: &str, trim: usize, max_len: usize, scale: u64) -> RawDataSet {
    let per_pos_cts = (trim + 1..=max_len)
        .map(|k| (k as u32, raw(scale * k as u64, scale, 2 * scale, 3 * scale, Some(1), None)))
        .collect();
    RawDataSet {
        trim,
        min_qual: 20,
        max_read_length: max_len,
        bisulfite: BisulfiteType::NotTreated,
        fli: fli_with_sample(sample),
        cts: raw(10 * scale, 20 * scale, 30 * scale, 40 * scale, Some(2), Some(3)),
        per_pos_cts,
        gc_hash: vec![("3:7".to_string(), 5 * scale), ("5:5".to_string(), scale)],
        kmer_counts: Some(kmers(vec![(1, 100 * scale), (2, 200 * scale)])),
    }
}

#[test]
fn raw_record_becomes_dataset() {
    let d = DataSet::from_raw(raw_dataset("S", 2, 6, 1), "s1.json".to_string()).unwrap();
    assert_eq!(d.path(), "s1.json");
    assert_eq!(d.trim(), 2);
    assert_eq!(d.max_read_len(), 6);
    assert_eq!(d.per_pos_cts().len(), 4);
    // slot order A, C, T, G, other
    assert_eq!(d.cts.cts(), &[10, 20, 40, 30, 5]);
    assert_eq!(d.per_pos_cts()[0].cts(), &[3, 1, 3, 2, 1]);
    assert!(d.gc_counts().is_none());
    assert_eq!(*d.bisulfite(), BisulfiteType::NotTreated);
}

#[test]
fn raw_record_with_gap_is_refused() {
    let mut t = raw_dataset("S", 2, 6, 1);
    t.per_pos_cts[1].0 = 9;
    assert_eq!(DataSet::from_raw(t, "x".to_string()).err(), Some(Error::CycleMismatch));
    let mut t = raw_dataset("S", 2, 6, 1);
    t.max_read_length = 7;
    assert_eq!(DataSet::from_raw(t, "x".to_string()).err(), Some(Error::CycleMismatch));
    let mut t = raw_dataset("S", 2, 6, 1);
    t.trim = 7;
    assert_eq!(DataSet::from_raw(t, "x".to_string()).err(), Some(Error::CycleMismatch));
}

#[test]
fn raw_record_overflow_is_refused() {
    let mut t = raw_dataset("S", 0, 3, 1);
    t.cts.n = Some(u64::MAX);
    assert_eq!(DataSet::from_raw(t, "x".to_string()).err(), Some(Error::CountOverflow));
}

#[test]
fn repeated_bucket_keys_are_summed() {
    let mut t = raw_dataset("S", 0, 3, 1);
    t.gc_hash.push(("3:7".to_string(), 4));
    let d = DataSet::from_raw(t, "x".to_string()).unwrap();
    assert_eq!(d.gc_hash, vec![("3:7".to_string(), 9), ("5:5".to_string(), 1)]);
}

#[test]
fn gc_histogram_is_materialized() {
    let mut d = DataSet::from_raw(raw_dataset("S", 0, 3, 1), "x".to_string()).unwrap();
    d.mk_gc_counts().unwrap();
    assert_eq!(d.gc_counts().unwrap(), &[(GcHistKey(3, 7), 5), (GcHistKey(5, 5), 1)]);
    let mut t = raw_dataset("S", 0, 3, 1);
    t.gc_hash.push(("x:1".to_string(), 1));
    let mut d = DataSet::from_raw(t, "x".to_string()).unwrap();
    assert_eq!(d.mk_gc_counts(), Err(Error::BadGcKey));
    assert!(d.gc_counts().is_none());
}

#[test]
fn gc_key_parsing() {
    assert_eq!(GcHistKey::from_str("12:34"), Ok(GcHistKey(12, 34)));
    assert_eq!(GcHistKey::from_str("+5:0"), Ok(GcHistKey(5, 0)));
    assert_eq!(GcHistKey::from_str("4294967295:1"), Ok(GcHistKey(u32::MAX, 1)));
    assert_eq!(GcHistKey::from_str("4294967296:1"), Err(Error::BadGcKey));
    assert_eq!(GcHistKey::from_str("1:2:3"), Err(Error::BadGcKey));
    assert_eq!(GcHistKey::from_str("12"), Err(Error::BadGcKey));
    assert_eq!(GcHistKey::from_str(":3"), Err(Error::BadGcKey));
    assert_eq!(GcHistKey::from_str("-1:3"), Err(Error::BadGcKey));
    assert_eq!(GcHistKey::from_str("+:3"), Err(Error::BadGcKey));
    assert_eq!(GcHistKey(1, 2).counts(), (1, 2));
}

#[test]
fn mean_gc_parts() {
    // (3,7) x5 and (5,5) x1: strong = 35 + 5, total = 50 + 10
    let h = [(GcHistKey(3, 7), 5u64), (GcHistKey(5, 5), 1)];
    assert_eq!(gc_totals(&h), Some((40, 60)));
    let (s, t) = gc_totals(&h).unwrap();
    let m = s as f64 / t as f64;
    assert!((0.0..=1.0).contains(&m));
    assert_eq!(gc_totals(&[]), None);
    assert_eq!(gc_totals(&[(GcHistKey(3, 7), 0)]), None);
    assert_eq!(gc_totals(&[(GcHistKey(0, 0), 9)]), None);
    assert_eq!(gc_totals(&[(GcHistKey(4, 0), 9)]), Some((0, 36)));
}

#[test]
fn merging_a_dataset_with_itself_doubles_counts() {
    let d = DataSet::from_raw(raw_dataset("S", 1, 5, 1), "a".to_string()).unwrap();
    let mut groups = Vec::new();
    let k = merge_dataset(d, MergeKey::Default, &mut groups).unwrap();
    assert_eq!(k, MergeKey::Sample);
    let d = DataSet::from_raw(raw_dataset("S", 1, 5, 1), "a".to_string()).unwrap();
    merge_dataset(d, k, &mut groups).unwrap();
    assert_eq!(groups.len(), 1);
    let g = &groups[0];
    assert_eq!(g.path(), "S");
    assert_eq!(g.max_read_len(), 5);
    assert_eq!(g.cts.cts(), &[20, 40, 80, 60, 10]);
    assert_eq!(g.per_pos_cts().len(), 4);
    assert_eq!(g.per_pos_cts()[3].cts(), &[10, 2, 6, 4, 2]);
    assert_eq!(g.gc_hash, vec![("3:7".to_string(), 10), ("5:5".to_string(), 2)]);
    assert_eq!(g.kmer_counts().unwrap().counts, vec![(2, 200), (4, 400)]);
}

#[test]
fn two_inputs_with_one_sample_give_one_group_with_summed_counts() {
    let mut groups = Vec::new();
    let a = DataSet::from_raw(raw_dataset("NA12878", 0, 3, 1), "a.json".to_string()).unwrap();
    let b = DataSet::from_raw(raw_dataset("NA12878", 0, 5, 2), "b.json".to_string()).unwrap();
    let k = merge_dataset(a, MergeKey::Default, &mut groups).unwrap();
    let k = merge_dataset(b, k, &mut groups).unwrap();
    assert_eq!(k, MergeKey::Sample);
    mk_all_gc_counts(&mut groups).unwrap();
    assert_eq!(groups.len(), 1);
    let g = &groups[0];
    assert_eq!(g.path(), "NA12878");
    assert_eq!(g.max_read_len(), 5);
    assert_eq!(g.cts.cts(), &[30, 60, 120, 90, 10]);
    assert_eq!(g.per_pos_cts().len(), 5);
    assert_eq!(g.per_pos_cts()[0].cts(), &[1 + 2, 1 + 2, 3 + 6, 2 + 4, 2]);
    assert_eq!(g.per_pos_cts()[4].cts(), &[10, 2, 6, 4, 1]);
    let kc = g.kmer_counts().unwrap();
    assert_eq!(kc.counts, vec![(2, 300), (4, 600)]);
    assert_eq!(kc.total_reads, 20);
    assert_eq!(kc.total_bases, 2000);
    assert_eq!(g.gc_counts().unwrap(), &[(GcHistKey(3, 7), 15), (GcHistKey(5, 5), 3)]);
}

#[test]
fn different_samples_give_different_groups() {
    let mut groups = Vec::new();
    let a = DataSet::from_raw(raw_dataset("A", 0, 3, 1), "a.json".to_string()).unwrap();
    let b = DataSet::from_raw(raw_dataset("B", 0, 3, 1), "b.json".to_string()).unwrap();
    let k = merge_dataset(a, MergeKey::Sample, &mut groups).unwrap();
    merge_dataset(b, k, &mut groups).unwrap();
    assert_eq!(groups.len(), 2);
    assert_eq!(groups[1].path(), "B");
}

#[test]
fn incompatible_datasets_are_not_merged() {
    let mut groups = Vec::new();
    let a = DataSet::from_raw(raw_dataset("A", 0, 3, 1), "a.json".to_string()).unwrap();
    let mut t = raw_dataset("A", 0, 3, 1);
    t.min_qual = 30;
    let b = DataSet::from_raw(t, "b.json".to_string()).unwrap();
    merge_dataset(a, MergeKey::Sample, &mut groups).unwrap();
    assert_eq!(merge_dataset(b, MergeKey::Sample, &mut groups), Err(Error::IncompatibleDatasets));
    let mut t = raw_dataset("A", 0, 3, 1);
    t.kmer_counts.as_mut().unwrap().kmcv.rnd_id = 43;
    let c = DataSet::from_raw(t, "c.json".to_string()).unwrap();
    assert_eq!(merge_dataset(c, MergeKey::Sample, &mut groups), Err(Error::KmerIncompatible));
    assert_eq!(groups[0].cts.cts(), &[10, 20, 40, 30, 5]);
    let mut t = raw_dataset("A", 0, 3, 1);
    t.kmer_counts = None;
    let e = DataSet::from_raw(t, "e.json".to_string()).unwrap();
    let mut d = DataSet::from_raw(raw_dataset("A", 0, 3, 1), "d.json".to_string()).unwrap();
    assert_eq!(d.merge(&e), Err(Error::IncompatibleDatasets));
}

#[test]
fn merge_overflow_is_refused() {
    let mut a = DataSet::from_raw(raw_dataset("A", 0, 3, 1), "a".to_string()).unwrap();
    let mut t = raw_dataset("A", 0, 3, 1);
    t.gc_hash = vec![("3:7".to_string(), u64::MAX)];
    let b = DataSet::from_raw(t, "b".to_string()).unwrap();
    assert_eq!(a.merge(&b), Err(Error::CountOverflow));
    assert_eq!(a.gc_hash, vec![("3:7".to_string(), 5), ("5:5".to_string(), 1)]);
}

#[test]
fn merge_key_missing_is_an_error() {
    let mut groups = Vec::new();
    let a = DataSet::from_raw(raw_dataset("A", 0, 3, 1), "a".to_string()).unwrap();
    assert_eq!(merge_dataset(a, MergeKey::Barcode, &mut groups), Err(Error::NoMergeKey));
    assert!(groups.is_empty());
}

#[test]
fn merge_widens_identity_and_length() {
    let mut a = DataSet::from_raw(raw_dataset("A", 0, 3, 1), "a".to_string()).unwrap();
    let mut t = raw_dataset("A", 0, 4, 1);
    t.fli.lane = Some(2);
    let b = DataSet::from_raw(t, "b".to_string()).unwrap();
    a.merge(&b).unwrap();
    assert_eq!(a.max_read_len(), 4);
    assert_eq!(a.fli_mut().lane, None);
    assert_eq!(a.fli_mut().sample, Some("A".to_string()));
    a.set_path("g".to_string());
    assert_eq!(a.path(), "g");
}

#[test]
fn counts_add_slotwise() {
    let mut a = Counts([1, 2, 3, 4, 5]);
    a.add(&Counts([10, 20, 30, 40, 50]));
    assert_eq!(a.cts(), &[11, 22, 33, 44, 55]);
    assert_eq!(Counts::from_raw(&raw(1, 2, 3, 4, None, Some(7))).unwrap().cts(), &[1, 2, 4, 3, 7]);
}

#[test]
fn nearest_reference_length() {
    assert_eq!(closest_index(&[50, 100, 150], 120), Some(1));
    assert_eq!(closest_index(&[50, 100, 150], 75), Some(0));
    assert_eq!(closest_index(&[50, 100, 150], 1000), Some(2));
    assert_eq!(closest_index(&[], 75), None);
}

#[test]
fn reference_lookup_returns_closest_histograms() {
    let entries = vec![
        (50u32, vec![("1:1".to_string(), 3u64)], None),
        (100, vec![("2:1".to_string(), 4)], Some(vec![("0:3".to_string(), 1)])),
    ];
    let r = RefDist::from_raw(vec![50, 100, 150], entries).unwrap();
    let (l, c) = r.get_closest_reference(120).unwrap();
    assert_eq!(l, 100);
    assert_eq!(c.regular(), &[(GcHistKey(2, 1), 4)]);
    assert_eq!(c.bisulfite().unwrap(), &[(GcHistKey(0, 3), 1)]);
    let (l, c) = r.get_closest_reference(75).unwrap();
    assert_eq!(l, 50);
    assert!(c.bisulfite().is_none());
    assert!(r.get_closest_reference(140).is_none());
    let bad = vec![(50u32, vec![("1-1".to_string(), 3u64)], None)];
    assert_eq!(RefDist::from_raw(vec![50], bad).err(), Some(Error::BadGcKey));
    assert_eq!(
        RefCounts::from_rs_counts(&vec![], &Some(vec![("q".to_string(), 1)])).err(),
        Some(Error::BadGcKey)
    );
}

#[test]
fn regression_needs_three_cycles_after_the_first_third() {
    assert_eq!(regression_window(0), None);
    assert_eq!(regression_window(3), None);
    assert_eq!(regression_window(4), Some(1));
    assert_eq!(regression_window(5), Some(1));
    assert_eq!(regression_window(100), Some(33));
}

#[test]
fn worker_counts() {
    assert_eq!(worker_count(Some(4), 8, 2), Some(4));
    assert_eq!(worker_count(None, 8, 2), Some(2));
    assert_eq!(worker_count(None, 3, 10), Some(3));
    assert_eq!(worker_count(None, 8, 0), None);
    assert_eq!(worker_count(Some(0), 8, 2), None);
    assert_eq!(work_queue_capacity(3), 6);
}

#[test]
fn dataset_report_columns() {
    let mut t = raw_dataset("S", 12, 15, 1);
    t.bisulfite = BisulfiteType::NonStranded;
    let d = DataSet::from_raw(t, "dir/s1.json".to_string()).unwrap();
    assert_eq!(d.columns(), "S\tNA\tNA\tNA\tNA\t1\t1\tdir/s1.json\tNon-stranded\t12\t20");
}
