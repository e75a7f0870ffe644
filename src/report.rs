use vstd::prelude::*;
use vstd::string::StringExecFns;

verus! {

/// The report columns every row has.
pub const REPORT_COLUMNS: &'static str = "Sample\tBarcode\tLibrary\tFlowcell\tIndex\tLane\tRead-end\tFile\tBisulfite-type\tTrim\tMin-qual\tgc\tref-gc\tKL-distance\tb(A)\tlog10 p_b(A)\tb(C)\tlog10 p_b(C)\tb(G)\tlog10 p_b(G)\tb(T)\tlog10 p_b(T)";

/// The report columns of the k-mer coverage summary.
pub const KMER_COLUMNS: &'static str = "\tTotal-reads\tMapped-reads\tTotal-bases\tMapped-bases\tMean-coverage\tMedian-coverage\tMedian/Mean\tDispersion\tFold_80_base_penalty";

/// The header line of the report, without its line end: the k-mer coverage
/// columns are there exactly when the run has a k-mer index, so that the
/// header matches every row.
pub fn report_header(with_kmers: bool) -> (r: String)
    ensures
        r@ == REPORT_COLUMNS@ + if with_kmers {
            KMER_COLUMNS@
        } else {
            Seq::empty()
        },
{
    let mut s = String::from_str(REPORT_COLUMNS);
    if with_kmers {
        s.append(KMER_COLUMNS);
    }
    proof {
        if !with_kmers {
            assert(s@ =~= REPORT_COLUMNS@ + Seq::<char>::empty());
        }
    }
    s
}

} // verus!
