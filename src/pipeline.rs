use vstd::prelude::*;

verus! {

/// Observations a per-cycle regression needs.
pub const MIN_REGRESSION_CYCLES: usize = 3;

/// The first cycle kept for the per-cycle base regressions of `n_cycles`
/// cycles: the first third is left out, and when fewer than three cycles
/// remain no regression is made, for any base.
pub fn regression_window(n_cycles: usize) -> (r: Option<usize>)
    ensures
        n_cycles - n_cycles / 3 < MIN_REGRESSION_CYCLES <==> r is None,
        r matches Some(x0) ==> x0 == n_cycles / 3,
{
    let x0 = n_cycles / 3;
    if n_cycles - x0 < MIN_REGRESSION_CYCLES {
        None
    } else {
        Some(x0)
    }
}

/// The number of analysis workers: the configured number, else one per
/// input file up to the available parallelism; `None` if that is zero.
pub fn worker_count(configured: Option<usize>, available: usize, n_files: usize) -> (r: Option<usize>)
    ensures
        r matches Some(n) ==> n >= 1,
        match configured {
            Some(t) => r == if t >= 1 {
                Some(t)
            } else {
                None::<usize>
            },
            None => r == if available >= 1 && n_files >= 1 {
                Some(if available <= n_files {
                    available
                } else {
                    n_files
                })
            } else {
                None::<usize>
            },
        },
{
    let n = match configured {
        Some(t) => t,
        None => if available <= n_files {
            available
        } else {
            n_files
        },
    };
    if n >= 1 {
        Some(n)
    } else {
        None
    }
}

/// Capacity of the channel that feeds the analysis workers.
pub fn work_queue_capacity(workers: usize) -> (r: usize)
    requires
        workers <= usize::MAX / 2,
    ensures
        r == 2 * workers,
{
    2 * workers
}

} // verus!
