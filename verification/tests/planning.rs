use pi_nif::{partition, plan_parallel, validate, worker_range, ValidationError, WorkerRange};

#[test]
fn zero_threads_rejected() {
    assert_eq!(
        plan_parallel(100, 0),
        Err(ValidationError::InvalidThreadCount(0))
    );
    assert_eq!(
        validate(100, 0),
        Err(ValidationError::InvalidThreadCount(0))
    );
}

#[test]
fn too_many_threads_rejected() {
    assert_eq!(
        plan_parallel(100, 65),
        Err(ValidationError::InvalidThreadCount(65))
    );
}

#[test]
fn uneven_partition_rejected() {
    assert_eq!(
        plan_parallel(100, 7),
        Err(ValidationError::UnevenPartition(100, 7))
    );
}

#[test]
fn max_thread_count_accepted() {
    assert_eq!(validate(64, 64), Ok(()));
    assert_eq!(validate(128, 64), Ok(()));
}

#[test]
fn thread_bound_checked_before_divisibility() {
    // 100 is not a multiple of 65 either, but the thread-count rule wins.
    assert_eq!(
        validate(100, 65),
        Err(ValidationError::InvalidThreadCount(65))
    );
}

#[test]
fn four_threads_over_hundred_slices() {
    let ranges = plan_parallel(100, 4).unwrap();
    assert_eq!(
        ranges,
        vec![
            WorkerRange {
                offset: 0,
                count: 25
            },
            WorkerRange {
                offset: 25,
                count: 25
            },
            WorkerRange {
                offset: 50,
                count: 25
            },
            WorkerRange {
                offset: 75,
                count: 25
            },
        ]
    );
}

#[test]
fn single_thread_owns_everything() {
    let ranges = partition(1, 1);
    assert_eq!(
        ranges,
        vec![WorkerRange {
            offset: 0,
            count: 1
        }]
    );
}

#[test]
fn single_worker_range() {
    assert_eq!(
        worker_range(100, 4, 3),
        WorkerRange {
            offset: 75,
            count: 25
        }
    );
}

fn assert_tiles(n: u32, num_threads: u32) {
    let ranges = partition(n, num_threads);
    assert_eq!(ranges.len(), num_threads as usize);
    let mut next: u32 = 0;
    let mut total: u64 = 0;
    for r in &ranges {
        assert_eq!(r.offset, next, "gap or overlap at offset {}", r.offset);
        next = r.offset + r.count;
        total += u64::from(r.count);
    }
    assert_eq!(next, n, "ranges do not end at n");
    assert_eq!(total, u64::from(n), "counts do not sum to n");
}

#[test]
fn ranges_tile_the_domain() {
    assert_tiles(100, 4);
    assert_tiles(1, 1);
    assert_tiles(64, 64);
    assert_tiles(1000, 8);
    assert_tiles(999, 3);
}

#[test]
fn ranges_tile_near_the_integer_limit() {
    // Largest multiple of 64 that fits in a u32: the offset arithmetic must
    // not overflow even here.
    let n: u32 = u32::MAX - 63;
    assert_eq!(n % 64, 0);
    assert_tiles(n, 64);
}

#[test]
fn planning_is_idempotent() {
    assert_eq!(plan_parallel(100, 4), plan_parallel(100, 4));
    assert_eq!(plan_parallel(100, 7), plan_parallel(100, 7));
    assert_eq!(plan_parallel(100, 0), plan_parallel(100, 0));
}

#[test]
fn invalid_thread_count_message() {
    assert_eq!(
        ValidationError::InvalidThreadCount(0).message(),
        "Invalid num_threads 0. It must be > 0 and <= 64"
    );
    assert_eq!(
        ValidationError::InvalidThreadCount(65).message(),
        "Invalid num_threads 65. It must be > 0 and <= 64"
    );
}

#[test]
fn uneven_partition_message() {
    assert_eq!(
        ValidationError::UnevenPartition(100, 7).message(),
        "n 100 must be a multiple of num_threads 7"
    );
}
