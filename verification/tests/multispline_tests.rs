use spline1d::{MultiSpline, Route, Spline};

fn bits(v: &[f64]) -> Vec<u64> {
    v.iter().map(|x| x.to_bits()).collect()
}

fn pair(xx: &[f64], tt: &[f64]) -> (Spline, Spline) {
    let n = xx.len();
    let leading = vec![[0u64, 0u64]; n - 1];
    let zeros = vec![0u64; n];
    let pp0 = Spline::new(&bits(xx), &bits(tt), &zeros, &leading);
    let pp1 = Spline::new(&bits(tt), &bits(xx), &zeros, &leading);
    (pp0, pp1)
}

fn sample() -> MultiSpline<String> {
    let tt = [0.0, 1.0, 2.0, 3.0];
    let mut m = MultiSpline::new(String::from("t"), &bits(&tt));
    let (a0, a1) = pair(&[10.0, 11.0, 13.0, 16.0], &tt);
    assert!(m.add_variable(String::from("x"), a0, a1));
    let (b0, b1) = pair(&[5.0, 4.0, 2.0, -1.0], &tt);
    assert!(m.add_variable(String::from("y"), b0, b1));
    m
}

#[test]
fn new_holds_only_principal() {
    let m: MultiSpline<String> = MultiSpline::new(String::from("t"), &bits(&[0.0, 1.0]));
    assert_eq!(m.number_variables(), 0);
    assert_eq!(m.len(), 2);
    assert_eq!(m.keys.get("t"), Some(&None));
    assert!(m.is_registered(&String::from("t")));
    assert!(!m.is_registered(&String::from("x")));
}

#[test]
fn add_variable_refuses_existing_keys() {
    let mut m = sample();
    let tt = [0.0, 1.0, 2.0, 3.0];
    let (p0, p1) = pair(&[1.0, 2.0, 3.0, 4.0], &tt);
    assert!(!m.add_variable(String::from("x"), p0.clone(), p1.clone()));
    assert!(!m.add_variable(String::from("t"), p0.clone(), p1.clone()));
    assert_eq!(m.number_variables(), 2);
    assert!(m.add_variable(String::from("z"), p0, p1));
    assert_eq!(m.number_variables(), 3);
    assert_eq!(m.keys.get("z"), Some(&Some(2)));
}

#[test]
fn route_between_keys() {
    let m = sample();
    let t = String::from("t");
    let x = String::from("x");
    let y = String::from("y");
    let q = String::from("q");
    assert_eq!(m.route(&x, &t), Some(Route::ToPrincipal(0)));
    assert_eq!(m.route(&t, &y), Some(Route::FromPrincipal(1)));
    assert_eq!(m.route(&x, &y), Some(Route::Through(0, 1)));
    assert_eq!(m.route(&t, &t), Some(Route::Identity));
    assert_eq!(m.route(&q, &t), None);
    assert_eq!(m.route(&t, &q), None);
}

#[test]
fn breaks_by_key_read_back() {
    let m = sample();
    assert_eq!(m.get_break_for_index_by_key(&String::from("x"), 2), Some(13.0f64.to_bits()));
    assert_eq!(m.get_break_for_index_by_key(&String::from("y"), 3), Some((-1.0f64).to_bits()));
    assert_eq!(m.get_break_for_index_by_key(&String::from("t"), 1), Some(1.0f64.to_bits()));
    assert_eq!(m.get_break_for_index_by_key(&String::from("t"), 4), None);
    assert_eq!(m.get_break_for_index_by_key(&String::from("x"), 4), None);
    assert_eq!(m.get_break_for_index_by_key(&String::from("w"), 0), None);
}

#[test]
fn breaks_by_idx() {
    let m = sample();
    assert_eq!(m.get_break_for_index_by_idx(1, 0), Some(5.0f64.to_bits()));
    assert_eq!(m.get_break_for_index_by_idx(0, 3), Some(16.0f64.to_bits()));
    assert_eq!(m.get_break_for_index_by_idx(7, 9), None);
}

#[test]
fn index_by_idx_searches_variable_breaks() {
    let m = sample();
    assert_eq!(m.index_by_idx(0, &12.0f64.to_bits()), Some(1));
    assert_eq!(m.index_by_idx(1, &0.0f64.to_bits()), Some(2));
    assert_eq!(m.index_by_idx(1, &6.0f64.to_bits()), None);
}

#[test]
fn integer_keys_work_too() {
    let tt = [0.0, 1.0, 2.0];
    let mut m: MultiSpline<u32> = MultiSpline::new(0, &bits(&tt));
    let (p0, p1) = pair(&[3.0, 4.0, 5.0], &tt);
    assert!(m.add_variable(7, p0, p1));
    assert_eq!(m.route(&7, &0), Some(Route::ToPrincipal(0)));
    assert_eq!(m.get_break_for_index_by_key(&7, 1), Some(4.0f64.to_bits()));
}

#[test]
fn adding_keeps_other_variables() {
    let mut m = sample();
    let before: Vec<Option<u64>> = (0..5).map(|i| m.get_break_for_index_by_key(&String::from("x"), i)).collect();
    let tt = [0.0, 1.0, 2.0, 3.0];
    let (p0, p1) = pair(&[-1.0, -2.0, -3.0, -4.0], &tt);
    assert!(m.add_variable(String::from("w"), p0, p1));
    let after: Vec<Option<u64>> = (0..5).map(|i| m.get_break_for_index_by_key(&String::from("x"), i)).collect();
    assert_eq!(before, after);
    assert_eq!(m.get_break_for_index_by_key(&String::from("w"), 3), Some((-4.0f64).to_bits()));
    assert_eq!(m.route(&String::from("w"), &String::from("x")), Some(Route::Through(2, 0)));
}
