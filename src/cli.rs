//! The settings of a benchmark run, and the figures it reports.
use vstd::prelude::*;

verus! {

/// What a benchmark run is asked to do.
#[derive(Clone, Debug, PartialEq, Eq)]
pub struct Cli {
    /// The size of the square matrices.
    pub size: usize,
    /// How many times each product is timed.
    pub iterations: usize,
    /// The number of worker threads asked for the parallel product.
    pub threads: usize,
    /// Time the parallel product alone.
    pub parallel_only: bool,
    /// A command to run instead of the benchmark.
    pub subcommands: Option<Commands>,
}

/// Commands other than the benchmark.
#[derive(Clone, Copy, Debug, PartialEq, Eq)]
pub enum Commands {
    /// Report the number of threads the machine runs at once.
    OsThreads,
}

/// The exact sum of `times`.
pub open spec fn total(times: Seq<u128>) -> int
    decreases times.len(),
{
    if times.len() == 0 {
        0
    } else {
        total(times.drop_last()) + times.last()
    }
}

/// No prefix of a sequence of times adds up to more than the whole.
proof fn lemma_total_prefix(times: Seq<u128>, k: int)
    requires
        0 <= k <= times.len(),
    ensures
        total(times.subrange(0, k)) <= total(times),
    decreases times.len(),
{
    if k < times.len() {
        assert(times.drop_last().subrange(0, k) =~= times.subrange(0, k));
        lemma_total_prefix(times.drop_last(), k);
    } else {
        assert(times.subrange(0, k) =~= times);
    }
}

/// The sum of `times` divided by `iterations`, rounded down; `None` where `iterations` is zero
/// or the sum does not fit in a `u128`.
pub fn average_millis(times: &Vec<u128>, iterations: usize) -> (r: Option<u128>)
    ensures
        r is Some <==> iterations > 0 && total(times@) <= u128::MAX,
        r matches Some(v) ==> v == total(times@) / (iterations as int),
{
    let mut sum: u128 = 0;
    let mut i: usize = 0;
    while i < times.len()
        invariant
            0 <= i <= times@.len(),
            sum as int == total(times@.subrange(0, i as int)),
        decreases times@.len() - i,
    {
        proof {
            assert(times@.subrange(0, i + 1).drop_last() =~= times@.subrange(0, i as int));
        }
        match sum.checked_add(times[i]) {
            Some(s) => sum = s,
            None => {
                proof {
                    lemma_total_prefix(times@, (i + 1) as int);
                }
                return None;
            },
        }
        i = i + 1;
    }
    proof {
        assert(times@.subrange(0, times@.len() as int) =~= times@);
    }
    if iterations == 0 {
        None
    } else {
        Some(sum / iterations as u128)
    }
}

} // verus!
