//! Verified planning core for a parallel estimator of the constant pi.
//!
//! The estimate itself is a midpoint-style numerical integration carried out
//! in floating point by an unverified host adapter; everything that can be
//! stated and checked over the integers lives here: validation of the
//! `(n, num_threads)` parameters, the exact error messages, and the partition
//! of the index range `[0, n)` into equal contiguous worker ranges.

mod decimal;
mod plan;

pub use decimal::{dec_digit, dec_str, u32_to_dec};
pub use plan::{
    covered, in_worker_range, lemma_partition_covers, lemma_partition_deterministic,
    lemma_validate_deterministic, partition, plan_parallel, range_start, slice_len, spec_validate,
    sum_counts, valid_params, validate, worker_range, ValidationError, WorkerRange, MAX_THREADS,
};
