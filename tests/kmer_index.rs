use gc_analysis::error::Error;
use gc_analysis::kmcv::{Kmcv, KmcvHeader, Target};
use gc_analysis::kmers::{coverage_ranks, KmerCounts};

fn header(version: u8, kmer_length: u8, rnd_id: u32, n_contigs: u32, n_targets: u32) -> Vec<u8> {
    let mut b = vec![b'K', b'M', b'C', b'V', version, 1, kmer_length, 4];
    b.extend_from_slice(&rnd_id.to_le_bytes());
    b.extend_from_slice(&n_contigs.to_le_bytes());
    b.extend_from_slice(&n_targets.to_le_bytes());
    b.resize(52, 0);
    b
}

fn contig(b: &mut Vec<u8>, name: &[u8]) {
    b.extend_from_slice(&(name.len() as u16).to_le_bytes());
    b.extend_from_slice(name);
}

fn target(b: &mut Vec<u8>, contig: u32, start: u32, end: u32) {
    b.extend_from_slice(&contig.to_le_bytes());
    b.extend_from_slice(&start.to_le_bytes());
    b.extend_from_slice(&end.to_le_bytes());
}

fn sample_index() -> Vec<u8> {
    let mut b = header(2, 16, 0xdead_beef, 2, 3);
    contig(&mut b, b"chr1");
    contig(&mut b, b"chr2");
    target(&mut b, 1, 100, 199);
    target(&mut b, 0, 10, 10);
    target(&mut b, 1, 500, 749);
    b
}

#[test]
fn header_fields_are_read() {
    let b = header(2, 16, 0x0102_0304, 7, 9);
    let h = KmcvHeader::read(&b).unwrap();
    assert_eq!(h.core.version_major, 2);
    assert_eq!(h.core.version_minor, 1);
    assert_eq!(h.core.kmer_length, 16);
    assert_eq!(h.core.max_hits, 4);
    assert_eq!(h.core.rnd_id, 0x0102_0304);
    assert_eq!(h.core.n_contigs, 7);
    assert_eq!(h.core.n_targets, 9);
}

#[test]
fn header_rejects_wrong_magic() {
    let mut b = header(2, 16, 1, 0, 0);
    b[3] = b'X';
    assert_eq!(KmcvHeader::read(&b).unwrap_err(), Error::BadMagic);
}

#[test]
fn header_rejects_wrong_version() {
    let b = header(3, 16, 1, 0, 0);
    assert_eq!(KmcvHeader::read(&b).unwrap_err(), Error::BadVersion);
    let b = header(1, 16, 1, 0, 0);
    assert_eq!(KmcvHeader::read(&b).unwrap_err(), Error::BadVersion);
}

#[test]
fn header_rejects_long_kmers() {
    let b = header(2, 17, 1, 0, 0);
    assert_eq!(KmcvHeader::read(&b).unwrap_err(), Error::KmerLengthTooLarge);
}

#[test]
fn header_rejects_short_buffer() {
    let b = header(2, 16, 1, 0, 0);
    assert_eq!(KmcvHeader::read(&b[..51]).unwrap_err(), Error::Truncated);
}

#[test]
fn whole_index_is_read() {
    let k = Kmcv::read(&sample_index()).unwrap();
    assert_eq!(k.contigs.len(), 2);
    assert_eq!(k.contigs[0].name, "chr1");
    assert_eq!(k.contigs[1].name, "chr2");
    assert_eq!(k.contigs[0].targets, vec![1]);
    assert_eq!(k.contigs[1].targets, vec![0, 2]);
    assert_eq!(k.get_target_size(0), Some(100));
    assert_eq!(k.get_target_size(1), Some(1));
    assert_eq!(k.get_target_size(2), Some(250));
    assert_eq!(k.get_target_size(3), None);
}

#[test]
fn target_size_counts_both_ends() {
    let t = Target { start: 0, end: u32::MAX };
    assert_eq!(t.size(), 1u64 << 32);
    let t = Target { start: 5, end: 5 };
    assert_eq!(t.size(), 1);
}

#[test]
fn index_rejects_bad_contig_index() {
    let mut b = header(2, 16, 1, 1, 1);
    contig(&mut b, b"chr1");
    target(&mut b, 1, 0, 10);
    assert_eq!(Kmcv::read(&b).unwrap_err(), Error::ContigOutOfRange);
}

#[test]
fn index_rejects_reversed_target() {
    let mut b = header(2, 16, 1, 1, 1);
    contig(&mut b, b"chr1");
    target(&mut b, 0, 11, 10);
    assert_eq!(Kmcv::read(&b).unwrap_err(), Error::EndBeforeStart);
}

#[test]
fn index_rejects_bad_names() {
    let mut b = header(2, 16, 1, 1, 0);
    contig(&mut b, &[0xff, 0xfe]);
    assert_eq!(Kmcv::read(&b).unwrap_err(), Error::ContigNameNotUtf8);
    let mut b = header(2, 16, 1, 1, 0);
    contig(&mut b, b"");
    assert_eq!(Kmcv::read(&b).unwrap_err(), Error::EmptyContigName);
}

#[test]
fn index_rejects_truncation() {
    let b = sample_index();
    assert_eq!(Kmcv::read(&b[..b.len() - 1]).unwrap_err(), Error::Truncated);
    assert_eq!(Kmcv::read(&b[..60]).unwrap_err(), Error::Truncated);
}

fn kmer_counts(rnd_id: u32, counts: Vec<(u32, u64)>) -> KmerCounts {
    let h = KmcvHeader::read(&header(2, 16, rnd_id, 1, counts.len() as u32)).unwrap();
    KmerCounts {
        kmcv: h.core,
        total_reads: 100,
        mapped_reads: 80,
        total_bases: 15000,
        mapped_bases: 12000,
        counts,
    }
}

#[test]
fn kmer_counts_add_elementwise() {
    let mut a = kmer_counts(7, vec![(1, 150), (2, 300)]);
    let b = kmer_counts(7, vec![(10, 1500), (0, 0)]);
    a.add(&b).unwrap();
    assert_eq!(a.counts, vec![(11, 1650), (2, 300)]);
    assert_eq!(a.total_reads, 200);
    assert_eq!(a.mapped_reads, 160);
    assert_eq!(a.total_bases, 30000);
    assert_eq!(a.mapped_bases, 24000);
}

#[test]
fn kmer_counts_refuse_other_index() {
    let mut a = kmer_counts(7, vec![(1, 150)]);
    let b = kmer_counts(8, vec![(1, 150)]);
    assert_eq!(a.add(&b), Err(Error::KmerIncompatible));
    assert_eq!(a.counts, vec![(1, 150)]);
    assert_eq!(a.total_reads, 100);
}

#[test]
fn kmer_counts_refuse_other_length() {
    let mut a = kmer_counts(7, vec![(1, 150)]);
    let mut b = kmer_counts(7, vec![(1, 150)]);
    b.counts.push((1, 1));
    assert_eq!(a.add(&b), Err(Error::KmerTargetsMismatch));
}

#[test]
fn kmer_counts_refuse_overflow() {
    let mut a = kmer_counts(7, vec![(u32::MAX, 150)]);
    let b = kmer_counts(7, vec![(1, 150)]);
    assert_eq!(a.add(&b), Err(Error::CountOverflow));
    assert_eq!(a.counts, vec![(u32::MAX, 150)]);
}

#[test]
fn target_coverage_pairs_bases_with_sizes() {
    let k = Kmcv::read(&sample_index()).unwrap();
    let c = kmer_counts(7, vec![(1, 150), (2, 3), (0, 0)]);
    assert_eq!(c.target_coverage(&k), Some(vec![(150, 100), (3, 1), (0, 250)]));
    let c = kmer_counts(7, vec![(1, 1); 4]);
    assert_eq!(c.target_coverage(&k), None);
}

#[test]
fn coverage_rank_indices() {
    let r = coverage_ranks(10, 3);
    assert_eq!(r.quartiles, (2, 5, 7));
    assert_eq!(r.fold_80, Some(3 + 12 / 10));
    let r = coverage_ranks(4, 4);
    assert_eq!(r.quartiles, (1, 2, 3));
    assert_eq!(r.fold_80, None);
    let r = coverage_ranks(1, 0);
    assert_eq!(r.quartiles, (0, 0, 0));
    assert_eq!(r.fold_80, Some(0));
}
