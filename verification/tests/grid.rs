use ndinterp::grid::{Grid, GridSlice};
use ndinterp::interpolate::InterpolationError;
use ndinterp::rat::Rat;

fn rats(xs: &[i64]) -> Vec<Rat> {
    xs.iter().map(|&x| Rat::from_int(x)).collect()
}

fn gen_grid() -> Grid {
    let x = vec![rats(&[0, 1, 2, 3, 4])];
    let y = rats(&[4, 3, 2, 1, 1]);

    Grid { xgrid: x, values: y }
}

#[test]
fn check_derivative() {
    let grid = gen_grid();
    let grid_slice = GridSlice { x: &grid.xgrid[0], y: &grid.values };
    assert!(grid_slice.central_derivative_at(1).unwrap().eq_val(&Rat::from_int(-1)));
    assert!(grid_slice.central_derivative_at(3).unwrap().eq_val(&Rat::new(-1, 2)));
}

#[test]
fn check_index_search() {
    let grid = gen_grid();
    assert_eq!(grid.closest_below(&vec![Rat::new(1, 2)]).unwrap()[0], 0);
    assert_eq!(grid.closest_below(&vec![Rat::new(16, 5)]).unwrap()[0], 3);
}

#[test]
fn bracket_at_node_is_interior() {
    let grid = gen_grid();
    // a query exactly on a non-boundary node starts its own bracket
    assert_eq!(grid.closest_below(&vec![Rat::from_int(0)]).unwrap()[0], 0);
    assert_eq!(grid.closest_below(&vec![Rat::from_int(2)]).unwrap()[0], 2);
}

#[test]
fn forward_derivative_at_nodes() {
    let grid = gen_grid();
    let slice = GridSlice { x: &grid.xgrid[0], y: &grid.values };
    // (y[1] - y[0]) / (x[1] - x[0]) = -1
    assert!(slice.derivative_at(1).unwrap().eq_val(&Rat::from_int(-1)));
    // (y[4] - y[3]) / (x[4] - x[3]) = 0
    assert!(slice.derivative_at(4).unwrap().eq_val(&Rat::from_int(0)));
}

#[test]
fn query_above_maximum_is_extrapolation() {
    let grid = gen_grid();
    let q = Rat::from_int(5);
    match grid.closest_below(&vec![q]) {
        Err(InterpolationError::ExtrapolationAbove(v)) => {
            assert!(v.eq_val(&Rat::from_int(5)));
        },
        _ => panic!("expected extrapolation above"),
    }
}

#[test]
fn query_at_maximum_is_extrapolation() {
    let grid = gen_grid();
    // the final sample point itself is already extrapolation-above
    let q = Rat::from_int(4);
    assert!(matches!(
        grid.closest_below(&vec![q]),
        Err(InterpolationError::ExtrapolationAbove(_))
    ));
}

#[test]
fn query_below_minimum_is_extrapolation() {
    let grid = gen_grid();
    let q = Rat::from_int(-1);
    match grid.closest_below(&vec![q]) {
        Err(InterpolationError::ExtrapolationBelow(v)) => {
            assert!(v.eq_val(&Rat::from_int(-1)));
        },
        _ => panic!("expected extrapolation below"),
    }
}

#[test]
fn first_out_of_range_axis_decides() {
    // both coordinates are out of range; axis 0 decides the error
    let grid = Grid {
        xgrid: vec![rats(&[0, 1, 2]), rats(&[0, 1, 2])],
        values: rats(&[0, 0, 0, 0, 0, 0, 0, 0, 0]),
    };
    let q = vec![Rat::from_int(-3), Rat::from_int(7)];
    match grid.closest_below(&q) {
        Err(InterpolationError::ExtrapolationBelow(v)) => {
            assert!(v.eq_val(&Rat::from_int(-3)));
        },
        _ => panic!("expected extrapolation below on the first axis"),
    }
}
