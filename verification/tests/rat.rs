use ndinterp::rat::Rat;

#[test]
fn exact_sums_and_products() {
    let half = Rat::new(1, 2);
    let third = Rat::new(1, 3);
    assert!(half.add(third).unwrap().eq_val(&Rat::new(5, 6)));
    assert!(half.sub(third).unwrap().eq_val(&Rat::new(1, 6)));
    assert!(half.mul(third).unwrap().eq_val(&Rat::new(1, 6)));
    assert!(half.div(third).unwrap().eq_val(&Rat::new(3, 2)));
}

#[test]
fn division_by_negative_keeps_denominator_positive() {
    let one = Rat::from_int(1);
    let neg = Rat::new(-2, 1);
    let q = one.div(neg).unwrap();
    assert!(q.den() > 0);
    assert!(q.eq_val(&Rat::new(-1, 2)));
}

#[test]
fn value_equality_ignores_representation() {
    assert!(Rat::new(1, 2).eq_val(&Rat::new(2, 4)));
    assert!(!Rat::new(1, 2).eq_val(&Rat::new(2, 3)));
}

#[test]
fn ordering() {
    let a = Rat::new(1, 3);
    let b = Rat::new(1, 2);
    assert!(a.lt(&b));
    assert!(a.le(&b));
    assert!(!b.lt(&a));
    assert!(b.le(&b));
}

#[test]
fn overflow_is_detected() {
    let big = Rat::from_int(9_223_372_036_854_775_807);
    assert!(big.add(big).is_none());
    assert!(big.mul(big).is_none());
    assert!(big.add(Rat::from_int(-1)).is_some());
}

#[test]
fn negation_and_absolute_value() {
    let a = Rat::new(-3, 4);
    assert!(a.neg().eq_val(&Rat::new(3, 4)));
    assert!(a.abs().eq_val(&Rat::new(3, 4)));
    assert!(Rat::new(3, 4).abs().eq_val(&Rat::new(3, 4)));
}

#[test]
fn halving() {
    assert!(Rat::new(3, 2).half().unwrap().eq_val(&Rat::new(3, 4)));
}
