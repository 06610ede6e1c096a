use sensor_pipeline::numeric::{div_floor, isqrt, largest, smallest, total, total_of_squares};
use sensor_pipeline::stats::{RunningStats, StatisticsEngine, StatsError, Summary, SAMPLE_CAPACITY};

fn next_random(state: &mut u64) -> u64 {
    *state = state.wrapping_mul(6364136223846793005).wrapping_add(1442695040888963407);
    *state >> 33
}

fn naive_mean(values: &[i64]) -> i64 {
    let sum: i128 = values.iter().map(|v| *v as i128).sum();
    sum.div_euclid(values.len() as i128) as i64
}

fn naive_std_dev(values: &[i64]) -> i64 {
    let n = values.len() as i128;
    if n < 2 {
        return 0;
    }
    let sum: i128 = values.iter().map(|v| *v as i128).sum();
    let squares: i128 = values.iter().map(|v| (*v as i128) * (*v as i128)).sum();
    let variance = (n * squares - sum * sum) / (n * (n - 1));
    let mut root: i128 = 0;
    while (root + 1) * (root + 1) <= variance {
        root += 1;
    }
    root as i64
}

#[test]
fn mean_equals_the_arithmetic_mean_of_everything_seen() {
    let mut engine = StatisticsEngine::new();
    let id = String::from("S1");
    let mut seen: Vec<i64> = Vec::new();
    let mut state = 7u64;
    for _ in 0..500 {
        let value = (next_random(&mut state) % 2_000_001) as i64 - 1_000_000;
        seen.push(value);
        let summary = engine.update(&id, value).unwrap();
        assert_eq!(summary.mean, naive_mean(&seen));
        assert_eq!(summary.count, seen.len() as u64);
    }
}

#[test]
fn standard_deviation_matches_a_recomputation() {
    let mut stats = RunningStats::new();
    let mut seen: Vec<i64> = Vec::new();
    let mut state = 99u64;
    for _ in 0..60 {
        let value = (next_random(&mut state) % 5_001) as i64 - 2_500;
        seen.push(value);
        stats.update(value).unwrap();
        assert_eq!(stats.std_dev(), naive_std_dev(&seen));
        assert!(stats.std_dev() >= 0);
    }
}

#[test]
fn one_to_five() {
    let mut stats = RunningStats::new();
    for value in [1000, 2000, 3000, 4000, 5000] {
        stats.update(value).unwrap();
    }
    assert_eq!(stats.summary(), Summary { mean: 3000, std_dev: 1581, count: 5 });
}

#[test]
fn single_sample_has_no_spread() {
    let mut stats = RunningStats::new();
    stats.update(123_456).unwrap();
    assert_eq!(stats.summary(), Summary { mean: 123_456, std_dev: 0, count: 1 });
}

#[test]
fn empty_accumulator_reports_zeros() {
    let stats = RunningStats::new();
    assert_eq!(stats.summary(), Summary { mean: 0, std_dev: 0, count: 0 });
}

#[test]
fn identical_samples_have_no_spread() {
    let mut stats = RunningStats::new();
    for _ in 0..9 {
        stats.update(10_000).unwrap();
    }
    assert_eq!(stats.summary(), Summary { mean: 10_000, std_dev: 0, count: 9 });
}

#[test]
fn negative_mean_rounds_down() {
    let mut stats = RunningStats::new();
    stats.update(-1).unwrap();
    stats.update(-2).unwrap();
    assert_eq!(stats.mean(), -2);
}

#[test]
fn sample_out_of_range_is_refused_and_changes_nothing() {
    let mut stats = RunningStats::new();
    stats.update(5).unwrap();
    assert_eq!(stats.update(1_000_000_001), Err(StatsError::OutOfRange));
    assert_eq!(stats.update(-1_000_000_001), Err(StatsError::OutOfRange));
    assert_eq!(stats.update(i64::MIN), Err(StatsError::OutOfRange));
    assert_eq!(stats.summary(), Summary { mean: 5, std_dev: 0, count: 1 });
    assert!(stats.update(1_000_000_000).is_ok());
    assert!(stats.update(-1_000_000_000).is_ok());
    assert_eq!(stats.count(), 3);
}

#[test]
fn extreme_samples_do_not_overflow() {
    let mut stats = RunningStats::new();
    for i in 0..1000 {
        let value = if i % 2 == 0 { 1_000_000_000 } else { -1_000_000_000 };
        stats.update(value).unwrap();
    }
    assert_eq!(stats.mean(), 0);
    assert_eq!(stats.std_dev(), 1_000_500_375);
    assert!(SAMPLE_CAPACITY >= 4_000_000_000);
}

#[test]
fn engine_keeps_sensors_apart() {
    let mut engine = StatisticsEngine::new();
    let a = String::from("a");
    let b = String::from("b");
    engine.update(&a, 1000).unwrap();
    engine.update(&b, 9000).unwrap();
    let summary = engine.update(&a, 3000).unwrap();
    assert_eq!(summary, Summary { mean: 2000, std_dev: 1414, count: 2 });
    assert_eq!(engine.summary(&b), Summary { mean: 9000, std_dev: 0, count: 1 });
    assert_eq!(engine.summary(&String::from("c")), Summary { mean: 0, std_dev: 0, count: 0 });
}

#[test]
fn engine_refuses_without_creating_a_stream() {
    let mut engine = StatisticsEngine::new();
    let id = String::from("x");
    assert_eq!(engine.update(&id, 2_000_000_000), Err(StatsError::OutOfRange));
    assert_eq!(engine.summary(&id).count, 0);
}

#[test]
fn count_never_decreases() {
    let mut engine = StatisticsEngine::new();
    let id = String::from("S1");
    let mut last = 0;
    for value in [1, 2_000_000_000, 3, -5_000_000_000, 4] {
        let _ = engine.update(&id, value);
        let count = engine.summary(&id).count;
        assert!(count >= last);
        last = count;
    }
    assert_eq!(last, 3);
}

#[test]
fn integer_square_roots() {
    assert_eq!(isqrt(0), 0);
    assert_eq!(isqrt(1), 1);
    assert_eq!(isqrt(3), 1);
    assert_eq!(isqrt(4), 2);
    assert_eq!(isqrt(2_500_000), 1581);
    assert_eq!(isqrt(u128::MAX), u64::MAX);
    assert_eq!(isqrt((u64::MAX as u128) * (u64::MAX as u128)), u64::MAX);
    assert_eq!(isqrt((u64::MAX as u128) * (u64::MAX as u128) - 1), u64::MAX - 1);
}

#[test]
fn floor_division() {
    assert_eq!(div_floor(7, 2), 3);
    assert_eq!(div_floor(-7, 2), -4);
    assert_eq!(div_floor(-8, 2), -4);
    assert_eq!(div_floor(0, 5), 0);
    assert_eq!(div_floor(-1, 1000), -1);
    assert_eq!(div_floor(i128::MIN, 1), i128::MIN);
    assert_eq!(div_floor(i128::MIN, i128::MAX), -2);
}

#[test]
fn vector_aggregates() {
    let values: Vec<u64> = vec![5, 3, 9, 3];
    assert_eq!(total(&values), 20);
    assert_eq!(total_of_squares(&values, 9), 124);
    assert_eq!(smallest(&values), 3);
    assert_eq!(largest(&values), 9);
    assert_eq!(total(&Vec::new()), 0);
    assert_eq!(total(&vec![u64::MAX, u64::MAX]), 2 * (u64::MAX as u128));
}
