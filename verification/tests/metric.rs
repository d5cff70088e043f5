use core::cmp::Ordering;

use bencher_core::metric::{mean, median, option_add, option_eq, sum, JsonMetric};

fn m(value: u64, lower: Option<u64>, upper: Option<u64>) -> JsonMetric {
    JsonMetric { value, lower_bound: lower, upper_bound: upper }
}

#[test]
fn option_eq_cases() {
    assert!(option_eq(None, None));
    assert!(option_eq(Some(3), Some(3)));
    assert!(!option_eq(Some(3), Some(4)));
    assert!(!option_eq(Some(3), None));
    assert!(!option_eq(None, Some(3)));
}

#[test]
fn option_add_policy() {
    assert_eq!(option_add(Some(1), 10, Some(2), 20), Some(3));
    assert_eq!(option_add(Some(1), 10, None, 20), Some(21));
    assert_eq!(option_add(None, 10, Some(2), 20), Some(12));
    assert_eq!(option_add(None, 10, None, 20), None);
    assert_eq!(option_add(Some(u64::MAX), 0, Some(1), 0), Some(u64::MAX));
}

#[test]
fn add_is_commutative_on_values() {
    let a = m(1, None, Some(2));
    let b = m(2, Some(3), None);
    let ab = a.add(b);
    let ba = b.add(a);
    assert_eq!(ab, ba);
    assert_eq!(ab.value, 3);
    assert_eq!(ab.lower_bound, Some(4));
    assert_eq!(ab.upper_bound, Some(4));
}

#[test]
fn mean_of_singleton_is_identity() {
    let a = m(7, Some(1), None);
    let v = vec![a];
    assert_eq!(mean(&v), Some(a));
}

#[test]
fn mean_divides_componentwise() {
    let v = vec![m(10, Some(2), None), m(20, Some(4), None)];
    let avg = mean(&v).unwrap();
    assert_eq!(avg.value, 15);
    assert_eq!(avg.lower_bound, Some(3));
    assert_eq!(avg.upper_bound, None);
    assert_eq!(mean(&Vec::new()), None);
}

#[test]
fn median_even_equals_mean_of_central_pair() {
    let v = vec![m(1, None, None), m(3, None, None), m(5, None, None), m(9, None, None)];
    let med = median(&v).unwrap();
    let central = vec![v[1], v[2]];
    assert_eq!(Some(med), mean(&central));
    assert_eq!(med.value, 4);
}

#[test]
fn median_odd_is_middle() {
    let v = vec![m(1, None, None), m(3, None, None), m(5, None, None)];
    assert_eq!(median(&v).unwrap(), m(3, None, None));
    assert_eq!(median(&Vec::new()), None);
}

#[test]
fn total_order_breaks_ties_by_bounds() {
    let a = m(5, None, None);
    let b = m(5, None, Some(1));
    let c = m(5, Some(1), Some(1));
    assert_eq!(a.cmp(&b), Ordering::Less);
    assert_eq!(b.cmp(&c), Ordering::Less);
    assert_eq!(c.cmp(&c), Ordering::Equal);
    assert_eq!(c.cmp(&a), Ordering::Greater);
    assert_eq!(m(4, Some(9), Some(9)).cmp(&a), Ordering::Less);
}

#[test]
fn sum_folds_from_zero() {
    let v = vec![m(1, Some(1), None), m(2, None, None), m(3, None, Some(3))];
    let s = sum(&v);
    assert_eq!(s.value, 6);
    assert_eq!(s.lower_bound, Some(6));
    assert_eq!(s.upper_bound, Some(6));
    assert_eq!(sum(&Vec::new()), m(0, None, None));
}

#[test]
fn div_truncates() {
    let d = m(7, Some(5), None).div(2);
    assert_eq!(d, m(3, Some(2), None));
}
