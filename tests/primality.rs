use prime_bitmap::classify::{is_prime_by, multi_thread_prime, outcomes_as_bools, parallel_outcomes, single_thread_prime, verdict_at, worker_pool, Primality, PoolError};
use prime_bitmap::primality::{basic_is_prime, complex_is_prime, Variant};

#[test]
fn naive_and_optimized_agree_up_to_ten_thousand() {
    for n in 1..=10000u32 {
        assert_eq!(basic_is_prime(n), complex_is_prime(n), "n = {}", n);
    }
}

#[test]
fn small_values() {
    assert!(!basic_is_prime(1));
    assert!(!complex_is_prime(1));
    assert!(basic_is_prime(2));
    assert!(complex_is_prime(2));
    assert!(basic_is_prime(3));
    assert!(complex_is_prime(3));
    assert!(!basic_is_prime(4));
    assert!(!complex_is_prime(4));
    assert!(basic_is_prime(97));
    assert!(complex_is_prime(97));
}

#[test]
fn perfect_squares_are_composite() {
    for r in [3u32, 5, 7, 11, 13, 101] {
        assert!(!complex_is_prime(r * r), "{}", r * r);
        assert!(!basic_is_prime(r * r), "{}", r * r);
    }
}

#[test]
fn optimized_at_the_top_of_the_range() {
    assert!(complex_is_prime(4294967291));
    assert!(!complex_is_prime(4294967295));
    assert!(!complex_is_prime(4294836225));
    assert!(complex_is_prime(65521));
}

#[test]
fn classify_one() {
    assert_eq!(single_thread_prime(1, Variant::Naive), vec![false]);
    assert_eq!(single_thread_prime(1, Variant::Optimized), vec![false]);
}

#[test]
fn classify_two() {
    assert_eq!(single_thread_prime(2, Variant::Naive), vec![false, true]);
    assert_eq!(single_thread_prime(2, Variant::Optimized), vec![false, true]);
}

#[test]
fn classify_nine_marks_nine_composite() {
    let expected = vec![false, true, true, false, true, false, true, false, false];
    assert_eq!(single_thread_prime(9, Variant::Naive), expected);
    assert_eq!(single_thread_prime(9, Variant::Optimized), expected);
    let pool = worker_pool(2).unwrap();
    assert_eq!(parallel_outcomes(9, Variant::Optimized, &pool), expected);
    assert!(!parallel_outcomes(9, Variant::Naive, &pool)[8]);
}

#[test]
fn classify_zero_is_empty() {
    assert!(single_thread_prime(0, Variant::Naive).is_empty());
    let pool = worker_pool(1).unwrap();
    assert!(multi_thread_prime(0, Variant::Optimized, &pool).is_empty());
}

#[test]
fn sequential_and_parallel_agree_for_any_worker_count() {
    let n = 2000u32;
    let naive = single_thread_prime(n, Variant::Naive);
    let optimized = single_thread_prime(n, Variant::Optimized);
    assert_eq!(naive, optimized);
    for workers in [1usize, 2, 8, 17] {
        let pool = worker_pool(workers).unwrap();
        assert_eq!(parallel_outcomes(n, Variant::Naive, &pool), naive, "workers = {}", workers);
        assert_eq!(parallel_outcomes(n, Variant::Optimized, &pool), optimized, "workers = {}", workers);
    }
}

#[test]
fn parallel_slots_hold_outcomes() {
    let pool = worker_pool(3).unwrap();
    let cells = multi_thread_prime(6, Variant::Naive, &pool);
    assert_eq!(
        cells,
        vec![
            Primality::Composite,
            Primality::Prime,
            Primality::Prime,
            Primality::Composite,
            Primality::Prime,
            Primality::Composite,
        ]
    );
    assert_eq!(outcomes_as_bools(&cells), vec![false, true, true, false, true, false]);
}

#[test]
fn zero_workers_is_refused() {
    assert!(matches!(worker_pool(0), Err(PoolError::NoWorkers)));
}

#[test]
fn verdict_for_an_index_is_for_the_next_integer() {
    assert_eq!(verdict_at(0, Variant::Naive), Primality::Composite);
    assert_eq!(verdict_at(1, Variant::Optimized), Primality::Prime);
    assert_eq!(verdict_at(8, Variant::Optimized), Primality::Composite);
    assert_eq!(verdict_at(10, Variant::Naive), Primality::Prime);
    assert!(is_prime_by(13, Variant::Naive));
    assert!(!is_prime_by(15, Variant::Optimized));
    assert!(Primality::Prime.is_prime());
    assert!(!Primality::Composite.is_prime());
}
