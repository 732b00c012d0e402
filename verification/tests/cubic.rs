use ndinterp::grid::cubic::Cubic;
use ndinterp::grid::Grid;
use ndinterp::interpolate::{InterpolationError, Interpolator};
use ndinterp::rat::Rat;

fn rats(xs: &[i64]) -> Vec<Rat> {
    xs.iter().map(|&x| Rat::from_int(x)).collect()
}

#[test]
fn hermite_reproduces_nodes() {
    // interpolating exactly at a grid node returns the stored value
    let cubic = Cubic::<1> {
        grid: Grid { xgrid: vec![rats(&[0, 1, 2, 3, 4])], values: rats(&[4, 3, 2, 1, 1]) },
    };
    for i in 0..4i64 {
        let expected = [4i64, 3, 2, 1][i as usize];
        let got = cubic.interpolate(Rat::from_int(i)).unwrap();
        assert!(got.eq_val(&Rat::from_int(expected)));
    }
}

#[test]
fn midpoint_of_linear_region() {
    let cubic = Cubic::<1> {
        grid: Grid { xgrid: vec![rats(&[0, 1, 2, 3, 4])], values: rats(&[4, 3, 2, 1, 1]) },
    };
    // between the first two nodes the data is linear with slope -1
    let got = cubic.interpolate(Rat::new(1, 2)).unwrap();
    assert!(got.eq_val(&Rat::new(7, 2)));
}

#[test]
fn linear_samples_reproduce_line() {
    // values[i] = 2 * axis[i] + 1: interpolation returns the exact line
    let cubic = Cubic::<1> {
        grid: Grid { xgrid: vec![rats(&[0, 1, 2, 3])], values: rats(&[1, 3, 5, 7]) },
    };
    let got = cubic.interpolate(Rat::new(1, 2)).unwrap();
    assert!(got.eq_val(&Rat::from_int(2)));
    let got = cubic.interpolate(Rat::new(5, 2)).unwrap();
    assert!(got.eq_val(&Rat::from_int(6)));
    let got = cubic.interpolate(Rat::new(9, 4)).unwrap();
    assert!(got.eq_val(&Rat::new(11, 2)));
}

#[test]
fn extrapolation_is_reported_with_query() {
    let cubic = Cubic::<1> {
        grid: Grid { xgrid: vec![rats(&[0, 1, 2, 3])], values: rats(&[1, 3, 5, 7]) },
    };
    match cubic.interpolate(Rat::from_int(9)) {
        Err(InterpolationError::ExtrapolationAbove(v)) => {
            assert!(v.eq_val(&Rat::from_int(9)))
        },
        _ => panic!("expected extrapolation above"),
    }
    match cubic.interpolate(Rat::from_int(-2)) {
        Err(InterpolationError::ExtrapolationBelow(v)) => {
            assert!(v.eq_val(&Rat::from_int(-2)))
        },
        _ => panic!("expected extrapolation below"),
    }
}

#[test]
fn arithmetic_limit_is_reported() {
    // the difference of the two sample values does not fit the exact range
    let big = 9_223_372_036_854_775_807i64;
    let cubic = Cubic::<1> {
        grid: Grid {
            xgrid: vec![rats(&[0, 1])],
            values: vec![Rat::from_int(-big), Rat::from_int(big)],
        },
    };
    assert!(matches!(
        cubic.interpolate(Rat::new(1, 2)),
        Err(InterpolationError::RangeExceeded)
    ));
}

#[test]
fn two_dimensional_linear_plane() {
    // f(x1, x2) = x1 + x2 sampled on [0..3] x [0..4], row-major values
    let ax1 = rats(&[0, 1, 2]);
    let ax2 = rats(&[0, 1, 2, 3]);
    let mut values = Vec::new();
    for i in 0..3i64 {
        for j in 0..4i64 {
            values.push(Rat::from_int(i + j));
        }
    }
    let cubic = Cubic::<2> { grid: Grid { xgrid: vec![ax1, ax2], values } };
    let q = vec![Rat::new(1, 2), Rat::new(3, 2)];
    let got = cubic.interpolate(&q).unwrap();
    assert!(got.eq_val(&Rat::from_int(2)));
    let q = vec![Rat::from_int(1), Rat::new(5, 4)];
    let got = cubic.interpolate(&q).unwrap();
    assert!(got.eq_val(&Rat::new(9, 4)));
}

#[test]
fn two_dimensional_node_reproduction() {
    // f(x1, x2) = x1 * x2 sampled on [0..3] x [0..4]; querying the node
    // (1, 1) returns the stored sample even though the data is curved
    let ax1 = rats(&[0, 1, 2]);
    let ax2 = rats(&[0, 1, 2, 3]);
    let mut values = Vec::new();
    for i in 0..3i64 {
        for j in 0..4i64 {
            values.push(Rat::from_int(i * j));
        }
    }
    let cubic = Cubic::<2> { grid: Grid { xgrid: vec![ax1, ax2], values } };
    let q = vec![Rat::from_int(1), Rat::from_int(1)];
    let got = cubic.interpolate(&q).unwrap();
    assert!(got.eq_val(&Rat::from_int(1)));
    let q = vec![Rat::from_int(0), Rat::from_int(1)];
    let got = cubic.interpolate(&q).unwrap();
    assert!(got.eq_val(&Rat::from_int(0)));
}

#[test]
fn two_dimensional_extrapolation() {
    let ax1 = rats(&[0, 1, 2]);
    let ax2 = rats(&[0, 1, 2, 3]);
    let mut values = Vec::new();
    for i in 0..3i64 {
        for j in 0..4i64 {
            values.push(Rat::from_int(i + j));
        }
    }
    let cubic = Cubic::<2> { grid: Grid { xgrid: vec![ax1, ax2], values } };
    let q = vec![Rat::from_int(7), Rat::new(3, 2)];
    match cubic.interpolate(&q) {
        Err(InterpolationError::ExtrapolationAbove(v)) => {
            assert!(v.eq_val(&Rat::from_int(7)))
        },
        _ => panic!("expected extrapolation above"),
    }
}
