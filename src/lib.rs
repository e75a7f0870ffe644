//! Verified core of a sequencing-QC summary analyser: the KMCV k-mer index
//! reader, dataset identities and merge keys, dataset merging and key-based
//! aggregation, GC-bucket parsing and the integer parts of the statistics.
pub mod error;
pub mod kmcv;
pub mod fli;
pub mod kmers;
pub mod gc;
pub mod counts;
pub mod buckets;
pub mod dataset;
pub mod merge;
pub mod reference;
pub mod pipeline;
pub mod report;
