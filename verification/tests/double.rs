//! Arithmetic, held against the machine's.

use energy_controller::double::Double;
use energy_controller::prices::{fits_percentile, percentile};
use energy_controller::weather::hundredths_of;

fn d(x: f64) -> Double {
    Double { bits: x.to_bits() }
}

fn agree(r: Double, x: f64) -> bool {
    (x.is_nan() && f64::from_bits(r.bits).is_nan()) || r.bits == x.to_bits()
}

fn special_values() -> Vec<f64> {
    let mut list = vec![
        0.0,
        1.0,
        0.5,
        1.5,
        2.5,
        0.1,
        0.3,
        0.85,
        100.0,
        1000.0,
        1e-3,
        1e300,
        1e-300,
        5e-324,
        1e-310,
        2.2250738585072014e-308,
        f64::MAX,
        f64::MIN_POSITIVE,
        f64::EPSILON,
        f64::INFINITY,
        4503599627370496.5,
        9007199254740993.0,
        123456.789,
        1.0 + f64::EPSILON,
        255.5,
        99.5,
        0.49999999999999994,
    ];
    let negated: Vec<f64> = list.iter().map(|x| -x).collect();
    list.extend(negated);
    list.push(f64::NAN);
    list
}

fn next(state: &mut u64) -> u64 {
    *state ^= *state << 13;
    *state ^= *state >> 7;
    *state ^= *state << 17;
    *state
}

fn check_pair(x: f64, y: f64) {
    assert!(agree(d(x).plus(d(y)), x + y), "{:e} + {:e}", x, y);
    assert!(agree(d(x).minus(d(y)), x - y), "{:e} - {:e}", x, y);
    assert!(agree(d(x).times(d(y)), x * y), "{:e} * {:e}", x, y);
    assert!(agree(d(x).over(d(y)), x / y), "{:e} / {:e}", x, y);
    assert_eq!(d(x).lt(d(y)), x < y, "{:e} < {:e}", x, y);
    assert_eq!(d(x).le(d(y)), x <= y, "{:e} <= {:e}", x, y);
}

fn check_one(x: f64) {
    assert!(agree(d(x).negated(), -x));
    assert_eq!(d(x).truncated_u8(), x as u8, "{:e}", x);
    assert_eq!(d(x).ceiling_u8(), x.ceil() as u8, "{:e}", x);
    assert_eq!(d(x).percent(), x.round().clamp(0.0, 100.0) as u8, "{:e}", x);
    assert_eq!(d(x).floor_u64(), x.floor() as u64, "{:e}", x);
    assert_eq!(d(x).ceiling_u64(), x.ceil() as u64, "{:e}", x);
    assert_eq!(d(x).truncated_i64(), x as i64, "{:e}", x);
    assert_eq!(d(x).rounded_i64(), x.round() as i64, "{:e}", x);
    assert_eq!(d(x).is_nan_number(), x.is_nan());
    assert_eq!(d(x).is_finite_number(), x.is_finite());
}

#[test]
fn arithmetic_agrees_on_special_values() {
    let values = special_values();
    for &x in &values {
        check_one(x);
        for &y in &values {
            check_pair(x, y);
        }
    }
}

#[test]
fn arithmetic_agrees_on_many_values() {
    let mut state = 0x9e37_79b9_7f4a_7c15u64;
    for _ in 0..3000 {
        let x = f64::from_bits(next(&mut state));
        let y = f64::from_bits(next(&mut state));
        check_one(x);
        check_pair(x, y);
        // Numbers of similar size, where sums cancel.
        let a = (next(&mut state) >> 11) as f64 / 1000.0;
        let b = (next(&mut state) >> 11) as f64 / 977.0;
        check_one(a);
        check_pair(a, b);
        check_pair(a, -b);
    }
}

#[test]
fn integers_become_the_nearest_numbers() {
    let mut state = 88172645463325252u64;
    for shift in 0..64 {
        for _ in 0..20 {
            let n = next(&mut state) >> shift;
            assert_eq!(Double::of_u64(n).bits, (n as f64).to_bits());
            let i = n as i64;
            assert_eq!(Double::of_i64(i).bits, (i as f64).to_bits());
            let wide = i as i128 * 0x1000_0000_0000;
            assert_eq!(Double::of_i128(wide).bits, (wide as f64).to_bits());
        }
    }
    assert_eq!(Double::of_i64(i64::MIN).bits, (i64::MIN as f64).to_bits());
    assert_eq!(Double::zero().bits, 0);
}

#[test]
fn negative_amounts_become_zero() {
    assert_eq!(d(-1.5).max_zero(), d(0.0));
    assert_eq!(d(f64::NAN).max_zero(), d(0.0));
    assert_eq!(d(2.5).max_zero(), d(2.5));
}

#[test]
fn hundredths_are_decimal_fractions() {
    assert_eq!(hundredths_of(85), d(0.85));
    assert_eq!(hundredths_of(25), d(0.25));
    assert_eq!(hundredths_of(30), d(0.3));
    assert_eq!(hundredths_of(1), d(0.01));
    assert_eq!(hundredths_of(150), d(1.5));
}

/// The percentile as the machine's arithmetic gives it.
fn expected_percentile(values: &[f64], p: f64) -> f64 {
    let mut data = values.to_vec();
    data.sort_by(|a, b| a.partial_cmp(b).unwrap());
    let rank = p * (data.len() - 1) as f64;
    let lower = rank.floor() as usize;
    let upper = rank.ceil() as usize;
    if lower == upper {
        data[lower]
    } else {
        let weight = rank - lower as f64;
        data[lower] * (1.0 - weight) + data[upper] * weight
    }
}

#[test]
fn percentiles_agree() {
    let values = [12.5, 3.0, 7.25, 18.0, -4.0, 3.0, 99.9, 0.1, 21.0];
    let data: Vec<Double> = values.iter().map(|&x| d(x)).collect();
    let mut sorted_values = values;
    sorted_values.sort_by(|a, b| a.partial_cmp(b).unwrap());
    let sorted: Vec<Double> = sorted_values.iter().map(|&x| d(x)).collect();
    for p in [0.0, 0.1, 0.25, 0.333, 0.5, 0.75, 0.95, 1.0] {
        let mut list = data.clone();
        assert_eq!(percentile(&mut list, d(p)), d(expected_percentile(&values, p)));
        assert_eq!(list, sorted);
        assert_eq!(percentile(&mut list, d(p)), d(expected_percentile(&values, p)));
    }
    assert_eq!(percentile(&mut data.clone(), d(0.0)), d(-4.0));
    assert_eq!(percentile(&mut data.clone(), d(1.0)), d(99.9));
    assert_eq!(percentile(&mut data.clone(), d(0.5)), d(7.25));
    assert_eq!(percentile(&mut vec![], d(0.5)), d(0.0));
    assert_eq!(percentile(&mut vec![d(5.0)], d(0.7)), d(5.0));
}

#[test]
fn a_percentile_leaves_the_list_sorted() {
    let mut data = vec![d(4.0), d(1.0), d(3.0), d(2.0)];
    assert_eq!(percentile(&mut data, d(0.75)), d(3.25));
    assert_eq!(data, vec![d(1.0), d(2.0), d(3.0), d(4.0)]);
}

#[test]
fn percentiles_outside_the_data_do_not_fit() {
    assert!(fits_percentile(10, d(1.0)));
    assert!(fits_percentile(10, d(-3.0)));
    assert!(!fits_percentile(10, d(1.2)));
    assert!(!fits_percentile(10, d(f64::INFINITY)));
    assert!(fits_percentile(0, d(7.0)));
}
