use share_interp::integer::Int;
use share_interp::interp::{lagrange_interpolation, InterpError, Polynomial};

fn ints(v: &[i64]) -> Vec<Int> {
    v.iter().map(|&n| Int::from_i64(n)).collect()
}

fn coefficient_texts(p: &Polynomial) -> Vec<String> {
    p.coefficients.iter().map(|q| q.text()).collect()
}

#[test]
fn recovers_square_of_x_plus_one() {
    let p = lagrange_interpolation(&ints(&[1, 2, 3]), &ints(&[4, 9, 16])).unwrap();
    assert_eq!(coefficient_texts(&p), vec!["1", "2", "1"]);
}

#[test]
fn single_sample_gives_constant() {
    let p = lagrange_interpolation(&ints(&[5]), &ints(&[7])).unwrap();
    assert_eq!(coefficient_texts(&p), vec!["7"]);
}

#[test]
fn recovers_degree_one_with_fraction() {
    // 1/2 x - 3 at x = 0 and 2
    let p = lagrange_interpolation(&ints(&[0, 2]), &ints(&[-3, -2])).unwrap();
    assert_eq!(coefficient_texts(&p), vec!["-3", "1/2"]);
}

#[test]
fn recovers_degree_three_with_fractions() {
    // 1/2 x^3 - x^2 + 1/2 x - 2 at x = 0, 1, 2, -1
    let p = lagrange_interpolation(&ints(&[0, 1, 2, -1]), &ints(&[-2, -2, -1, -4])).unwrap();
    assert_eq!(coefficient_texts(&p), vec!["-2", "1/2", "-1", "1/2"]);
}

#[test]
fn keeps_trailing_zero_coefficients() {
    let p = lagrange_interpolation(&ints(&[0, 1, 2]), &ints(&[1, 3, 5])).unwrap();
    assert_eq!(p.coefficients.len(), 3);
    assert_eq!(coefficient_texts(&p), vec!["1", "2", "0"]);
}

#[test]
fn repeated_abscissa_is_degenerate() {
    let r = lagrange_interpolation(&ints(&[2, 2]), &ints(&[5, 9]));
    assert_eq!(r.unwrap_err(), InterpError::DegenerateSampleSet);
    let r = lagrange_interpolation(&ints(&[1, 3, 2, 3]), &ints(&[1, 2, 3, 4]));
    assert_eq!(r.unwrap_err(), InterpError::DegenerateSampleSet);
}

#[test]
fn no_samples_is_insufficient() {
    let r = lagrange_interpolation(&ints(&[]), &ints(&[]));
    assert_eq!(r.unwrap_err(), InterpError::InsufficientSamples);
}

#[test]
fn large_ordinates_stay_exact() {
    // 10^30 + 7x at x = 1, 2
    let big = "1000000000000000000000000000000";
    let y1 = share_interp::decode::decode_value("1000000000000000000000000000007", 10).unwrap();
    let y2 = share_interp::decode::decode_value("1000000000000000000000000000014", 10).unwrap();
    let p = lagrange_interpolation(&ints(&[1, 2]), &vec![y1, y2]).unwrap();
    assert_eq!(coefficient_texts(&p), vec![big.to_string(), "7".to_string()]);
}

#[test]
fn renders_equation() {
    let p = lagrange_interpolation(&ints(&[1, 2, 3]), &ints(&[4, 9, 16])).unwrap();
    assert_eq!(p.equation(), "1x^2 + 2x + 1");
}

#[test]
fn renders_negative_and_fractional_terms() {
    let p = lagrange_interpolation(&ints(&[0, 1, 2, -1]), &ints(&[-2, -2, -1, -4])).unwrap();
    assert_eq!(p.equation(), "1/2x^3 - 1x^2 + 1/2x - 2");
}

#[test]
fn renders_skipping_zero_terms() {
    let p = lagrange_interpolation(&ints(&[0, 1, 2]), &ints(&[-1, 1, 3])).unwrap();
    assert_eq!(p.equation(), "2x - 1");
    let q = lagrange_interpolation(&ints(&[0, 1]), &ints(&[0, 0])).unwrap();
    assert_eq!(q.equation(), "");
    let n = lagrange_interpolation(&ints(&[0, 1]), &ints(&[0, -3])).unwrap();
    assert_eq!(n.equation(), " - 3x");
}
