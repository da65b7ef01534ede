use aule::identification::{
    find_time_at_value, first_order_times, second_order_times, table_indexes,
    FirstOrderModelError, SecondOrderModelError, TimedKey,
};

/// Samples of a step response: (time in nanoseconds, value).
fn response() -> Vec<(u128, f32)> {
    vec![(0, 0.0), (1_000, 0.2), (2_000, 0.5), (3_000, 0.8), (4_000, 0.95), (5_000, 1.0)]
}

/// The order keys of each sample's distance to `target`.
fn keyed(samples: &[(u128, f32)], target: f32) -> Vec<TimedKey> {
    samples
        .iter()
        .map(|&(time, v)| TimedKey { time, key: (v - target).abs().to_bits() as u64 })
        .collect()
}

fn bound() -> u64 {
    f32::INFINITY.to_bits() as u64
}

#[test]
fn find_time_picks_closest_sample() {
    let samples = response();
    assert_eq!(find_time_at_value(&keyed(&samples, 0.45), bound()), Some(2_000));
    assert_eq!(find_time_at_value(&keyed(&samples, 0.0), bound()), Some(0));
    assert_eq!(find_time_at_value(&keyed(&samples, 7.0), bound()), Some(5_000));
}

#[test]
fn find_time_prefers_first_of_equal_distances() {
    let samples = vec![(10, 1.0_f32), (20, 3.0), (30, 1.0)];
    assert_eq!(find_time_at_value(&keyed(&samples, 2.0), bound()), Some(10));
}

#[test]
fn find_time_none_without_samples_or_finite_distance() {
    assert_eq!(find_time_at_value(&Vec::new(), bound()), None);
    let samples = vec![(10, f32::NAN), (20, f32::INFINITY)];
    assert_eq!(find_time_at_value(&keyed(&samples, 1.0), bound()), None);
}

#[test]
fn first_order_times_errors_and_times() {
    let samples = response();
    let levels = vec![keyed(&samples, 0.283), keyed(&samples, 0.632)];
    match first_order_times::<f32>(&levels, bound()) {
        Ok(times) => assert_eq!(times, vec![1_000, 2_000]),
        Err(e) => panic!("unexpected error {:?}", e),
    }
    let empty: Vec<Vec<TimedKey>> = vec![Vec::new(), Vec::new()];
    assert!(matches!(
        first_order_times::<f32>(&empty, bound()),
        Err(FirstOrderModelError::NotEnoughSamples)
    ));
    let nan = vec![(0, f32::NAN), (1, f32::NAN)];
    let levels = vec![keyed(&samples, 0.2), keyed(&nan, 0.5)];
    let levels = vec![levels[0][..2].to_vec(), levels[1].clone()];
    assert!(matches!(
        first_order_times::<f32>(&levels, bound()),
        Err(FirstOrderModelError::TimeNotfound)
    ));
}

#[test]
fn second_order_times_errors_and_times() {
    let samples = response();
    let levels = vec![keyed(&samples, 0.15), keyed(&samples, 0.45), keyed(&samples, 0.75)];
    match second_order_times::<f32>(&levels, bound()) {
        Ok(times) => assert_eq!(times, vec![1_000, 2_000, 3_000]),
        Err(e) => panic!("unexpected error {:?}", e),
    }
    let empty: Vec<Vec<TimedKey>> = vec![Vec::new()];
    assert!(matches!(
        second_order_times::<f32>(&empty, bound()),
        Err(SecondOrderModelError::NotEnoughSamples)
    ));
}

fn ratio_keys() -> Vec<u64> {
    [0.255_f64, 0.303, 0.360, 0.441, 0.528, 0.621, 0.693, 0.745, 0.800]
        .iter()
        .map(|r| r.to_bits())
        .collect()
}

#[test]
fn table_indexes_brackets_ratio() {
    let table = ratio_keys();
    assert_eq!(table_indexes(&table, 0.255_f64.to_bits()), (0, 0));
    assert_eq!(table_indexes(&table, 0.3_f64.to_bits()), (0, 1));
    assert_eq!(table_indexes(&table, 0.303_f64.to_bits()), (1, 1));
    assert_eq!(table_indexes(&table, 0.5_f64.to_bits()), (3, 4));
    assert_eq!(table_indexes(&table, 0.79_f64.to_bits()), (7, 8));
    assert_eq!(table_indexes(&table, 0.8_f64.to_bits()), (8, 8));
    assert_eq!(table_indexes(&table, 0.1_f64.to_bits()), (0, 1));
}
