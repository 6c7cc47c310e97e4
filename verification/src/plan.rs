//! Validation and partitioning for the parallel estimate.
//!
//! A parallel estimate over `n` integration slices is carried out by
//! `num_threads` workers, each owning an equal contiguous range of slice
//! indices. This module checks the parameters, renders the exact error
//! messages, and computes the worker ranges, with proofs that the ranges
//! tile `[0, n)` with no overlap and no gap.

use crate::decimal::{dec_str, u32_to_dec};
use vstd::arithmetic::div_mod::{
    lemma_div_pos_is_pos, lemma_fundamental_div_mod, lemma_fundamental_div_mod_converse,
    lemma_mod_bound, lemma_multiply_divide_lt,
};
use vstd::arithmetic::mul::{
    lemma_mul_inequality, lemma_mul_is_commutative, lemma_mul_is_distributive_add,
    lemma_mul_nonnegative,
};
use vstd::prelude::*;
use vstd::string::StringExecFns;

verus! {

/// Upper bound on the number of worker threads a parallel estimate may use.
pub const MAX_THREADS: u32 = 64;

/// Why a request for a parallel estimate was rejected.
#[derive(Clone, Copy, Debug, PartialEq, Eq, Structural)]
pub enum ValidationError {
    /// The requested thread count lies outside `(0, MAX_THREADS]`; the field
    /// holds the offending count.
    InvalidThreadCount(u32),
    /// The step count is not an exact multiple of the thread count; the
    /// fields hold the step count and the thread count, in that order.
    UnevenPartition(u32, u32),
}

impl ValidationError {
    /// The explanation carried to the caller, offending values included.
    pub open spec fn spec_message(self) -> Seq<char> {
        match self {
            ValidationError::InvalidThreadCount(t) => "Invalid num_threads "@ + dec_str(
                t as nat,
            ) + ". It must be > 0 and <= "@ + dec_str(MAX_THREADS as nat),
            ValidationError::UnevenPartition(n, t) => "n "@ + dec_str(n as nat)
                + " must be a multiple of num_threads "@ + dec_str(t as nat),
        }
    }

    /// Renders the explanation, character for character.
    pub fn message(&self) -> (r: String)
        ensures
            r@ == self.spec_message(),
    {
        match self {
            ValidationError::InvalidThreadCount(t) => {
                let mut s = String::from_str("Invalid num_threads ");
                let digits = u32_to_dec(*t);
                s.append(digits.as_str());
                s.append(". It must be > 0 and <= ");
                let bound = u32_to_dec(MAX_THREADS);
                s.append(bound.as_str());
                s
            },
            ValidationError::UnevenPartition(n, t) => {
                let mut s = String::from_str("n ");
                let steps = u32_to_dec(*n);
                s.append(steps.as_str());
                s.append(" must be a multiple of num_threads ");
                let threads = u32_to_dec(*t);
                s.append(threads.as_str());
                s
            },
        }
    }
}

/// The parameters admit an exact partition: a positive thread count within
/// the bound, dividing the step count evenly.
pub open spec fn valid_params(n: u32, num_threads: u32) -> bool {
    0 < num_threads <= MAX_THREADS && n % num_threads == 0
}

/// The outcome of validating `(n, num_threads)`: the thread-count bound is
/// checked first, then divisibility, and the first failed check wins.
pub open spec fn spec_validate(n: u32, num_threads: u32) -> Result<(), ValidationError> {
    if num_threads == 0 || num_threads > MAX_THREADS {
        Err(ValidationError::InvalidThreadCount(num_threads))
    } else if n % num_threads != 0 {
        Err(ValidationError::UnevenPartition(n, num_threads))
    } else {
        Ok(())
    }
}

/// Checks that `num_threads` is in `(0, MAX_THREADS]` and that `n` splits
/// evenly across the threads, reporting the first violated rule.
pub fn validate(n: u32, num_threads: u32) -> (r: Result<(), ValidationError>)
    ensures
        r == spec_validate(n, num_threads),
        r is Ok <==> valid_params(n, num_threads),
{
    if num_threads == 0 || num_threads > MAX_THREADS {
        Err(ValidationError::InvalidThreadCount(num_threads))
    } else if n % num_threads != 0 {
        Err(ValidationError::UnevenPartition(n, num_threads))
    } else {
        Ok(())
    }
}

/// One worker's contiguous share of the slice indices `[0, n)`.
#[derive(Clone, Copy, Debug, PartialEq, Eq, Structural)]
pub struct WorkerRange {
    /// Index of the first slice the worker owns.
    pub offset: u32,
    /// Number of consecutive slices the worker owns.
    pub count: u32,
}

/// The number of slices each worker receives.
pub open spec fn slice_len(n: u32, num_threads: u32) -> int {
    n as int / num_threads as int
}

/// Index of the first slice of worker `i`.
pub open spec fn range_start(n: u32, num_threads: u32, i: int) -> int {
    slice_len(n, num_threads) * i
}

/// Slice index `k` belongs to worker `i`.
pub open spec fn in_worker_range(n: u32, num_threads: u32, i: int, k: int) -> bool {
    range_start(n, num_threads, i) <= k < range_start(n, num_threads, i) + slice_len(
        n,
        num_threads,
    )
}

/// The range of worker `i`: slices `[len*i, len*i + len)` for
/// `len = n / num_threads`, which stays within `[0, n)`.
pub fn worker_range(n: u32, num_threads: u32, i: u32) -> (r: WorkerRange)
    requires
        valid_params(n, num_threads),
        i < num_threads,
    ensures
        r.offset == range_start(n, num_threads, i as int),
        r.count == slice_len(n, num_threads),
        r.offset + r.count <= n,
{
    let len: u32 = n / num_threads;
    proof {
        lemma_range_end_within(n, num_threads, i as int);
    }
    WorkerRange { offset: len * i, count: len }
}

/// The end of worker `i`'s range does not pass `n`.
proof fn lemma_range_end_within(n: u32, num_threads: u32, i: int)
    requires
        valid_params(n, num_threads),
        0 <= i < num_threads,
    ensures
        0 <= range_start(n, num_threads, i),
        range_start(n, num_threads, i) + slice_len(n, num_threads) <= n,
{
    let len: int = slice_len(n, num_threads);
    lemma_mul_nonnegative(len, i);
    lemma_fundamental_div_mod(n as int, num_threads as int);
    assert(n as int == num_threads as int * len);
    lemma_mul_is_distributive_add(len, i, 1);
    assert(len * (i + 1) == len * i + len);
    lemma_mul_inequality(i + 1, num_threads as int, len);
    assert((i + 1) * len <= num_threads as int * len);
    lemma_mul_is_commutative(len, i + 1);
}

/// Computes all `num_threads` worker ranges, in worker-index order.
pub fn partition(n: u32, num_threads: u32) -> (r: Vec<WorkerRange>)
    requires
        valid_params(n, num_threads),
    ensures
        r@.len() == num_threads,
        forall|i: int|
            0 <= i < num_threads ==> (#[trigger] r@[i]).offset == range_start(n, num_threads, i)
                && r@[i].count == slice_len(n, num_threads),
{
    let mut ranges: Vec<WorkerRange> = Vec::new();
    let mut i: u32 = 0;
    while i < num_threads
        invariant
            valid_params(n, num_threads),
            i <= num_threads,
            ranges@.len() == i,
            forall|j: int|
                0 <= j < i ==> (#[trigger] ranges@[j]).offset == range_start(n, num_threads, j)
                    && ranges@[j].count == slice_len(n, num_threads),
        decreases num_threads - i,
    {
        let r = worker_range(n, num_threads, i);
        ranges.push(r);
        i = i + 1;
    }
    ranges
}

/// Validates the parameters and, on success, returns the worker ranges;
/// on failure, the exact validation error, with nothing computed.
pub fn plan_parallel(n: u32, num_threads: u32) -> (r: Result<Vec<WorkerRange>, ValidationError>)
    ensures
        r is Ok <==> valid_params(n, num_threads),
        r is Err ==> Err::<(), ValidationError>(r->Err_0) == spec_validate(n, num_threads),
        r is Ok ==> r->Ok_0@.len() == num_threads,
        r is Ok ==> forall|i: int|
            0 <= i < num_threads ==> (#[trigger] r->Ok_0@[i]).offset == range_start(
                n,
                num_threads,
                i,
            ) && r->Ok_0@[i].count == slice_len(n, num_threads),
{
    match validate(n, num_threads) {
        Ok(()) => Ok(partition(n, num_threads)),
        Err(e) => Err(e),
    }
}

/// Some worker owns slice index `k`.
pub open spec fn covered(n: u32, num_threads: u32, k: int) -> bool {
    exists|i: int| 0 <= i < num_threads && in_worker_range(n, num_threads, i, k)
}

/// The counts of a sequence of worker ranges, summed left to right.
pub open spec fn sum_counts(ranges: Seq<WorkerRange>) -> int
    decreases ranges.len(),
{
    if ranges.len() == 0 {
        0
    } else {
        ranges[0].count + sum_counts(ranges.drop_first())
    }
}

/// Summing a sequence whose counts are all `c` gives `len * c`.
proof fn lemma_sum_of_equal_counts(ranges: Seq<WorkerRange>, c: int)
    requires
        forall|i: int| 0 <= i < ranges.len() ==> (#[trigger] ranges[i]).count == c,
    ensures
        sum_counts(ranges) == ranges.len() * c,
    decreases ranges.len(),
{
    if ranges.len() > 0 {
        let rest = ranges.drop_first();
        assert forall|i: int| 0 <= i < rest.len() implies (#[trigger] rest[i]).count == c by {
            assert(rest[i] == ranges[i + 1]);
        }
        lemma_sum_of_equal_counts(rest, c);
        assert(ranges.len() * c == c + (ranges.len() - 1) * c) by (nonlinear_arith);
    }
}

/// Law: for valid parameters, the worker ranges tile the slice indices
/// `[0, n)` exactly — every index is owned by some worker (no gap), no index
/// is owned by two workers (no overlap), no range reaches outside `[0, n)`,
/// and the counts of the ranges sum to `n`. The workers therefore visit
/// exactly the sample points that a single sequential pass visits, each once.
pub proof fn lemma_partition_covers(n: u32, num_threads: u32, ranges: Seq<WorkerRange>)
    requires
        valid_params(n, num_threads),
        ranges.len() == num_threads,
        forall|i: int|
            0 <= i < num_threads ==> (#[trigger] ranges[i]).offset == range_start(n, num_threads, i)
                && ranges[i].count == slice_len(n, num_threads),
    ensures
        forall|k: int| 0 <= k < n ==> #[trigger] covered(n, num_threads, k),
        forall|i: int, k: int|
            0 <= i < num_threads && #[trigger] in_worker_range(n, num_threads, i, k) ==> 0 <= k
                < n,
        forall|i: int, j: int, k: int|
            0 <= i < num_threads && 0 <= j < num_threads && #[trigger] in_worker_range(
                n,
                num_threads,
                i,
                k,
            ) && #[trigger] in_worker_range(n, num_threads, j, k) ==> i == j,
        sum_counts(ranges) == n,
{
    let len: int = slice_len(n, num_threads);
    lemma_fundamental_div_mod(n as int, num_threads as int);
    assert(n as int == num_threads as int * len);
    lemma_mul_is_commutative(num_threads as int, len);

    assert forall|k: int| 0 <= k < n implies #[trigger] covered(n, num_threads, k) by {
        assert(len > 0) by (nonlinear_arith)
            requires
                n as int == num_threads as int * len,
                0 < num_threads,
                0 < n,
        ;
        let w = k / len;
        lemma_div_pos_is_pos(k, len);
        lemma_multiply_divide_lt(k, len, num_threads as int);
        lemma_fundamental_div_mod(k, len);
        lemma_mod_bound(k, len);
        lemma_mul_is_commutative(len, w);
        assert(0 <= w < num_threads && in_worker_range(n, num_threads, w, k));
    }
    assert forall|i: int, k: int|
        0 <= i < num_threads && #[trigger] in_worker_range(n, num_threads, i, k) implies 0 <= k
        < n by {
        lemma_range_end_within(n, num_threads, i);
    }
    assert forall|i: int, j: int, k: int|
        0 <= i < num_threads && 0 <= j < num_threads && #[trigger] in_worker_range(
            n,
            num_threads,
            i,
            k,
        ) && #[trigger] in_worker_range(n, num_threads, j, k) implies i == j by {
        lemma_mul_is_commutative(len, i);
        lemma_mul_is_commutative(len, j);
        lemma_fundamental_div_mod_converse(k, len, i, k - i * len);
        lemma_fundamental_div_mod_converse(k, len, j, k - j * len);
    }
    lemma_sum_of_equal_counts(ranges, len);
    lemma_mul_is_commutative(ranges.len() as int, len);
}

/// Law: validation is deterministic — two outcomes that both satisfy the
/// validation contract for the same inputs are one and the same value,
/// message-determining fields included.
pub proof fn lemma_validate_deterministic(
    n: u32,
    num_threads: u32,
    a: Result<(), ValidationError>,
    b: Result<(), ValidationError>,
)
    requires
        a == spec_validate(n, num_threads),
        b == spec_validate(n, num_threads),
    ensures
        a == b,
{
}

/// Law: partitioning is deterministic — any two range sequences that satisfy
/// the partition contract for the same `(n, num_threads)` are equal, so two
/// runs on identical inputs hand every worker identical work.
pub proof fn lemma_partition_deterministic(
    n: u32,
    num_threads: u32,
    a: Seq<WorkerRange>,
    b: Seq<WorkerRange>,
)
    requires
        valid_params(n, num_threads),
        a.len() == num_threads,
        forall|i: int|
            0 <= i < num_threads ==> (#[trigger] a[i]).offset == range_start(n, num_threads, i)
                && a[i].count == slice_len(n, num_threads),
        b.len() == num_threads,
        forall|i: int|
            0 <= i < num_threads ==> (#[trigger] b[i]).offset == range_start(n, num_threads, i)
                && b[i].count == slice_len(n, num_threads),
    ensures
        a == b,
{
    assert forall|i: int| 0 <= i < a.len() implies a[i] == b[i] by {
        assert(a[i].offset == b[i].offset && a[i].count == b[i].count);
    }
    assert(a =~= b);
}

} // verus!
