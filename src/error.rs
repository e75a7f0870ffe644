use vstd::prelude::*;

verus! {

/// Every way in which the library refuses its input.
#[derive(Clone, Copy, Debug, PartialEq, Eq, Structural)]
pub enum Error {
    /// The k-mer index ended before a block was complete.
    Truncated,
    /// The k-mer index does not start with `KMCV`.
    BadMagic,
    /// The major version of the k-mer index is not 2.
    BadVersion,
    /// The k-mer length does not fit the k-mer representation.
    KmerLengthTooLarge,
    /// A contig name of length zero.
    EmptyContigName,
    /// A contig name that is not UTF-8.
    ContigNameNotUtf8,
    /// A target that refers to a contig that does not exist.
    ContigOutOfRange,
    /// A target whose end lies before its start.
    EndBeforeStart,
    /// Two k-mer count sets were made against different k-mer indices.
    KmerIncompatible,
    /// Two k-mer count sets with a different number of targets.
    KmerTargetsMismatch,
    /// A sum of counts does not fit its integer type.
    CountOverflow,
    /// The per-cycle counts do not cover the cycles after the trim exactly.
    CycleMismatch,
    /// A GC-bucket key that is not of the form `a:b`.
    BadGcKey,
    /// Two datasets made with different parameters.
    IncompatibleDatasets,
    /// No kind of merge key can be inferred from a dataset's identity.
    NoMergeKeyKind,
    /// A dataset has no value for the run's merge key kind.
    NoMergeKey,
}

impl Error {
    /// A human-readable description of the error.
    pub fn message(&self) -> &'static str {
        match self {
            Error::Truncated => "k-mer file ended unexpectedly",
            Error::BadMagic => "incorrect magic number in header block of k-mer file",
            Error::BadVersion => "incorrect version for k-mer file (expected V2)",
            Error::KmerLengthTooLarge => "k-mer length too large for k-mer type",
            Error::EmptyContigName => "contig name length is zero",
            Error::ContigNameNotUtf8 => "contig name not UTF-8",
            Error::ContigOutOfRange => "contig id from target definition not in range",
            Error::EndBeforeStart => "end coordinate of target less than start",
            Error::KmerIncompatible => "cannot merge datasets as k-mer files are not compatible",
            Error::KmerTargetsMismatch => "cannot merge k-mer counts with different numbers of targets",
            Error::CountOverflow => "count overflow while merging datasets",
            Error::CycleMismatch => "per cycle counts do not match trim and maximum read length",
            Error::BadGcKey => "counts keys not in correct format",
            Error::IncompatibleDatasets => "cannot merge datasets generated with different parameters",
            Error::NoMergeKeyKind => "couldn't determine merge key type for dataset",
            Error::NoMergeKey => "couldn't establish merge key for dataset",
        }
    }
}

} // verus!
