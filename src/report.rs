use crate::stats::RunStats;
use vstd::prelude::*;

verus! {

/// The quantiles the final report gives, in thousandths: minimum, p1,
/// p25, median, p75, p99 and maximum.
pub fn report_quantiles_permille() -> (r: Vec<u32>)
    ensures
        r@ == seq![0u32, 10, 250, 500, 750, 990, 1000],
{
    let r = vec![0u32, 10, 250, 500, 750, 990, 1000];
    proof {
        assert(r@ =~= seq![0u32, 10, 250, 500, 750, 990, 1000]);
    }
    r
}

/// The process status of a finished run: 1 when any unit failed, else 0,
/// whatever the latencies were.
pub fn exit_status(stats: &RunStats) -> (r: u8)
    requires
        stats.wf(),
    ensures
        r == (if stats.spec_errors().len() > 0 { 1u8 } else { 0u8 }),
{
    if stats.run_failed() {
        1
    } else {
        0
    }
}

/// The number of workers: the one asked for, or else four per unit of
/// available parallelism (one unit when that is unknown), held at
/// `usize::MAX`.
pub fn pool_size(requested: Option<usize>, parallelism: Option<usize>) -> (r: usize)
    ensures
        requested matches Some(n) ==> r == n,
        requested is None ==> r == ({
            let p = match parallelism {
                Some(p) => p as int,
                None => 1,
            };
            if 4 * p > usize::MAX {
                usize::MAX as int
            } else {
                4 * p
            }
        }),
{
    match requested {
        Some(n) => n,
        None => {
            let p: usize = match parallelism {
                Some(p) => p,
                None => 1,
            };
            if p > usize::MAX / 4 {
                usize::MAX
            } else {
                p * 4
            }
        },
    }
}

} // verus!
