use gc_analysis::error::Error;
use gc_analysis::fli::{BisulfiteType, Fli, MergeKey};
use gc_analysis::merge::get_merge_key;
use gc_analysis::report::{report_header, KMER_COLUMNS, REPORT_COLUMNS};

fn empty_fli() -> Fli {
    Fli {
        sample: None,
        barcode: None,
        library: None,
        flowcell: None,
        index: None,
        lane: None,
        read_end: None,
    }
}

#[test]
fn sample_only_infers_sample() {
    let mut f = empty_fli();
    f.sample = Some("S1".to_string());
    assert_eq!(f.find_merge_key(), Some(MergeKey::Sample));
    assert_eq!(get_merge_key(&f, MergeKey::Default), Ok((MergeKey::Sample, "S1".to_string())));
}

#[test]
fn flowcell_lane_index_infers_fli() {
    let mut f = empty_fli();
    f.flowcell = Some("FC7".to_string());
    f.lane = Some(3);
    f.index = Some("ACGT".to_string());
    assert_eq!(f.find_merge_key(), Some(MergeKey::Fli));
    assert_eq!(f.fli(), Some("FC7_3_ACGT".to_string()));
    assert_eq!(get_merge_key(&f, MergeKey::Default), Ok((MergeKey::Fli, "FC7_3_ACGT".to_string())));
}

#[test]
fn no_identity_fails_key_derivation() {
    let f = empty_fli();
    assert_eq!(f.find_merge_key(), None);
    assert_eq!(get_merge_key(&f, MergeKey::Default), Err(Error::NoMergeKeyKind));
    assert_eq!(get_merge_key(&f, MergeKey::Sample), Err(Error::NoMergeKey));
}

#[test]
fn priority_order_of_inference() {
    let mut f = empty_fli();
    f.library = Some("L".to_string());
    f.flowcell = Some("FC".to_string());
    f.lane = Some(1);
    f.index = Some("I".to_string());
    assert_eq!(f.find_merge_key(), Some(MergeKey::Library));
    f.barcode = Some("B".to_string());
    assert_eq!(f.find_merge_key(), Some(MergeKey::Barcode));
    f.lane = None;
    assert_eq!(f.fli(), None);
    assert_eq!(f.get_key(MergeKey::Default), None);
    assert_eq!(f.get_key(MergeKey::Library), Some("L".to_string()));
}

#[test]
fn fli_key_writes_lane_in_decimal() {
    let mut f = empty_fli();
    f.flowcell = Some("X".to_string());
    f.index = Some("Y".to_string());
    for (lane, text) in [(0u8, "X_0_Y"), (9, "X_9_Y"), (10, "X_10_Y"), (99, "X_99_Y"), (100, "X_100_Y"), (255, "X_255_Y")] {
        f.lane = Some(lane);
        assert_eq!(f.get_key(MergeKey::Fli), Some(text.to_string()));
    }
}

#[test]
fn common_identity_clears_differences() {
    let mut a = empty_fli();
    a.sample = Some("S".to_string());
    a.barcode = Some("B1".to_string());
    a.lane = Some(1);
    a.read_end = Some(1);
    let mut b = a.clone();
    b.barcode = Some("B2".to_string());
    b.lane = Some(2);
    a.find_common(&b);
    assert_eq!(a.sample, Some("S".to_string()));
    assert_eq!(a.barcode, None);
    assert_eq!(a.lane, None);
    assert_eq!(a.read_end, Some(1));
}

#[test]
fn bisulfite_ordinals_and_names() {
    assert_eq!(BisulfiteType::from_ordinal(0), Some(BisulfiteType::NotTreated));
    assert_eq!(BisulfiteType::from_ordinal(3), Some(BisulfiteType::NonStranded));
    assert_eq!(BisulfiteType::from_ordinal(4), None);
    assert_eq!(BisulfiteType::NotTreated.name(), "None");
    assert_eq!(BisulfiteType::NonStranded.name(), "Non-stranded");
}

#[test]
fn error_messages_are_nonempty() {
    assert!(!Error::BadMagic.message().is_empty());
    assert_ne!(Error::BadMagic.message(), Error::BadVersion.message());
}

#[test]
fn identity_report_columns() {
    let mut f = empty_fli();
    assert_eq!(f.columns(), "NA\tNA\tNA\tNA\tNA\tNA\tNA");
    f.sample = Some("S1".to_string());
    f.index = Some("ACGT".to_string());
    f.lane = Some(12);
    f.read_end = Some(2);
    assert_eq!(f.columns(), "S1\tNA\tNA\tNA\tACGT\t12\t2");
}

#[test]
fn report_header_kmer_columns() {
    let h = report_header(false);
    assert!(h.starts_with("Sample\tBarcode\t"));
    assert!(h.ends_with("b(T)\tlog10 p_b(T)"));
    assert_eq!(h, REPORT_COLUMNS);
    let k = report_header(true);
    assert_eq!(k, format!("{REPORT_COLUMNS}{KMER_COLUMNS}"));
    assert!(k.ends_with("\tFold_80_base_penalty"));
    assert_eq!(k.split('\t').count(), 22 + 9);
}
