use spline1d::ieee::ZERO_BITS;
use spline1d::Spline;

fn b(x: f64) -> u64 {
    x.to_bits()
}

fn bits(v: &[f64]) -> Vec<u64> {
    v.iter().map(|x| x.to_bits()).collect()
}

fn sample() -> Spline {
    let xx = bits(&[0.0, 1.0, 2.0, 4.0]);
    let yy = bits(&[0.0, 1.0, 1.5, 3.0]);
    let ss = bits(&[1.0, 0.75, 0.6, 0.75]);
    let leading = [[b(0.25), b(-0.5)], [b(0.1), b(-0.2)], [b(0.05), b(f64::NAN)]];
    Spline::new(&xx, &yy, &ss, &leading)
}

#[test]
fn new_assembles_coefficients() {
    let s = sample();
    assert_eq!(s.breaks_x, bits(&[0.0, 1.0, 2.0, 4.0]));
    assert_eq!(s.breaks_y, bits(&[0.0, 1.0, 1.5, 3.0]));
    assert_eq!(s.coeffs.len(), 3);
    assert_eq!(s.coeffs[0], [b(0.25), b(-0.5), b(1.0), b(0.0)]);
    assert_eq!(s.coeffs[1], [b(0.1), b(-0.2), b(0.75), b(1.0)]);
    assert_eq!(s.coeffs[2], [b(0.05), ZERO_BITS, b(0.6), b(1.5)]);
}

#[test]
fn new_replaces_every_nan_coefficient() {
    let xx = bits(&[0.0, 1.0]);
    let yy = bits(&[f64::NAN, 2.0]);
    let ss = bits(&[f64::NAN, 1.0]);
    let leading = [[b(f64::NAN), b(-f64::NAN)]];
    let s = Spline::new(&xx, &yy, &ss, &leading);
    assert_eq!(s.coeffs[0], [0, 0, 0, 0]);
    assert!(f64::from_bits(s.breaks_y[0]).is_nan());
}

#[test]
fn index_finds_interval() {
    let s = sample();
    assert_eq!(s.index(&b(0.5)), Some(0));
    assert_eq!(s.index(&b(1.5)), Some(1));
    assert_eq!(s.index(&b(3.0)), Some(2));
    assert_eq!(s.index(&b(4.5)), None);
    assert_eq!(s.index(&b(f64::NAN)), None);
}

#[test]
fn lookup_tries_first_interval_then_searches() {
    let s = sample();
    assert_eq!(s.lookup(&b(0.25)), Some(0));
    assert_eq!(s.lookup(&b(1.0)), Some(0));
    assert_eq!(s.lookup(&b(2.5)), Some(2));
    assert_eq!(s.lookup(&b(-1.0)), None);
    assert_eq!(s.lookup(&b(f64::INFINITY)), None);
}

#[test]
fn lookup_interval_holds_value() {
    let s = sample();
    for k in 0..=40 {
        let x = k as f64 * 0.1;
        let i = s.lookup(&b(x)).expect("inside the span");
        let lo = f64::from_bits(s.breaks_x[i]);
        let hi = f64::from_bits(s.breaks_x[i + 1]);
        assert!(lo <= x && x <= hi, "{x} not in [{lo}, {hi}]");
    }
}

#[test]
fn yvalue_reads_node_values() {
    let s = sample();
    assert_eq!(s.yvalue(2), b(1.5));
    assert_eq!(s.yvalue(3), b(3.0));
}

#[test]
fn max_value_index_first_maximum() {
    let xx = bits(&[0.0, 1.0, 2.0, 3.0, 4.0]);
    let yy = bits(&[1.0, 5.0, 2.0, 5.0, -1.0]);
    let ss = bits(&[0.0; 5]);
    let leading = [[0, 0]; 4];
    let s = Spline::new(&xx, &yy, &ss, &leading);
    assert_eq!(s.max_value_index(), 1);
}

#[test]
fn max_value_index_starts_from_first_coefficient() {
    let xx = bits(&[0.0, 1.0, 2.0]);
    let yy = bits(&[f64::NAN, -1.0, -2.0]);
    let ss = bits(&[0.0; 3]);
    let leading = [[0, 0]; 2];
    let s = Spline::new(&xx, &yy, &ss, &leading);
    assert_eq!(s.max_value_index(), 0);
    let yy2 = bits(&[-3.0, -1.0, -2.0]);
    let s2 = Spline::new(&xx, &yy2, &ss, &leading);
    assert_eq!(s2.max_value_index(), 1);
}

#[test]
fn lookup_on_decreasing_breaks() {
    let xx = bits(&[3.0, 2.0, 0.0]);
    let yy = bits(&[1.0, 2.0, 3.0]);
    let ss = bits(&[0.0; 3]);
    let s = Spline::new(&xx, &yy, &ss, &[[0, 0]; 2]);
    assert_eq!(s.lookup(&b(2.5)), Some(0));
    assert_eq!(s.lookup(&b(1.0)), Some(1));
    assert_eq!(s.lookup(&b(3.5)), None);
}

#[test]
fn index_refuses_non_finite_even_without_breaks() {
    let s = Spline { breaks_x: vec![], breaks_y: vec![], coeffs: vec![] };
    assert_eq!(s.index(&b(f64::NAN)), None);
    let t = sample();
    assert_eq!(t.index(&b(f64::NEG_INFINITY)), None);
}

#[test]
fn lookup_returns_first_interval_at_a_break() {
    let s = sample();
    assert_eq!(s.lookup(&b(1.0)), Some(0));
    assert_eq!(s.lookup(&b(2.0)), Some(1));
    assert_eq!(s.lookup(&b(4.0)), Some(2));
}

#[test]
fn lookup_with_repeated_breaks() {
    let xx = bits(&[0.0, 1.0, 1.0, 2.0, 3.0]);
    let yy = bits(&[0.0; 5]);
    let s = Spline::new(&xx, &yy, &yy, &[[0, 0]; 4]);
    assert_eq!(s.lookup(&b(1.0)), Some(0));
    assert_eq!(s.lookup(&b(1.5)), Some(2));
    assert_eq!(s.lookup(&b(2.5)), Some(3));
    assert_eq!(s.index(&b(0.5)), Some(0));
}
