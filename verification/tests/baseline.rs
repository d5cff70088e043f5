use bencher_core::baseline::{StdDev, MAX_MEASURE};
use bencher_core::SCALE;

#[test]
fn single_data_point_gives_no_baseline() {
    let history = vec![100 * SCALE];
    assert_eq!(StdDev::new(&history), None);
    assert_eq!(StdDev::new(&Vec::new()), None);
}

#[test]
fn bessel_corrected_statistics() {
    // 100, 102, 98, 101, 99 as fixed-point values.
    let history = vec![100 * SCALE, 102 * SCALE, 98 * SCALE, 101 * SCALE, 99 * SCALE];
    let b = StdDev::new(&history).unwrap();
    // mean 100.0
    assert_eq!(b.mean, 100 * SCALE);
    // std_dev = sqrt(10 / 4) = 1.5811...
    assert_eq!(b.std_dev, 15811);
    assert_eq!(b.count, 5);
}

#[test]
fn two_points_baseline() {
    let history = vec![10 * SCALE, 20 * SCALE];
    let b = StdDev::new(&history).unwrap();
    assert_eq!(b.mean, 15 * SCALE);
    // variance = 2 * 50000^2 / 1; sqrt = 50000 * sqrt(2) truncated.
    assert_eq!(b.std_dev, 70710);
}

#[test]
fn try_new_rejects_out_of_range() {
    let history = vec![MAX_MEASURE + 1, MAX_MEASURE + 1];
    assert!(StdDev::try_new(&history).is_err());
    let history = vec![MAX_MEASURE, MAX_MEASURE];
    let b = StdDev::try_new(&history).unwrap().unwrap();
    assert_eq!(b.mean, MAX_MEASURE);
    assert_eq!(b.std_dev, 0);
}
