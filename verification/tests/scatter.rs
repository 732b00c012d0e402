use ndinterp::interpolate::{Input, InterpolationError, Interpolator};
use ndinterp::metric::Metric;
use ndinterp::rat::Rat;
use ndinterp::scatter::invdist::InvDistBase;
use ndinterp::scatter::knn::{All, HNSW, KNN};
use ndinterp::scatter::utils::split_2d;

#[test]
fn test_all() {
    let all = All::<f64>::new(vec![]);

    assert_eq!(all.neighbors(&10.).len(), 0);
}

#[test]
fn all_returns_every_identifier() {
    let all = All::new(vec![(0usize, Rat::from_int(5)), (1, Rat::from_int(7))]);
    assert_eq!(all.neighbors(&Rat::from_int(0)), vec![0, 1]);
    assert_eq!(all.points().len(), 2);
}

#[test]
fn hnsw_starts_empty() {
    let finder = HNSW::<Rat>::new(4);
    assert_eq!(finder.k(), 4);
    assert_eq!(finder.neighbors(&Rat::from_int(0)).len(), 0);
}

#[test]
fn scalar_metric() {
    let a = Rat::from_int(3);
    let b = Rat::new(7, 2);
    assert!(Rat::distance(&a, &a).eq_val(&Rat::from_int(0)));
    assert!(Rat::distance(&a, &b).eq_val(&Rat::new(1, 2)));
    assert!(Rat::distance(&b, &a).eq_val(&Rat::new(1, 2)));
}

#[test]
fn squared_euclidean_metric() {
    let a = vec![Rat::from_int(1), Rat::from_int(2), Rat::from_int(3)];
    let b = vec![Rat::from_int(1), Rat::from_int(2), Rat::from_int(1)];
    assert!(<Vec<Rat> as Metric>::distance(&a, &a).eq_val(&Rat::from_int(0)));
    assert!(<Vec<Rat> as Metric>::distance(&a, &b).eq_val(&Rat::from_int(4)));
}

fn two_point_evaluator(v0: i64, v1: i64) -> InvDistBase<Rat, All<Rat>> {
    let p0 = Rat::from_int(0);
    let p1 = Rat::from_int(2);
    let mut ev = InvDistBase::new(vec![
        Input { point: p0, value: Rat::from_int(v0) },
        Input { point: p1, value: Rat::from_int(v1) },
    ]);
    ev.set_finder(All::new(vec![(0, p0), (1, p1)]));
    ev
}

#[test]
fn exact_match_returns_stored_value() {
    // querying a stored sample returns its value, whatever the rest holds
    let ev = two_point_evaluator(10, 20);
    let got = ev.interpolate(&Rat::from_int(0)).unwrap();
    assert!(got.eq_val(&Rat::from_int(10)));
    let got = ev.interpolate(&Rat::from_int(2)).unwrap();
    assert!(got.eq_val(&Rat::from_int(20)));
}

#[test]
fn near_match_returns_stored_value() {
    // a query within the exact-match threshold behaves like the sample
    let ev = two_point_evaluator(10, 20);
    let q = Rat::new(1, 100_000_000_000);
    let got = ev.interpolate(&q).unwrap();
    assert!(got.eq_val(&Rat::from_int(10)));
}

#[test]
fn two_equidistant_neighbors_average() {
    let ev = two_point_evaluator(10, 20);
    let got = ev.interpolate(&Rat::from_int(1)).unwrap();
    assert!(got.eq_val(&Rat::from_int(15)));
}

#[test]
fn closer_neighbor_weighs_more() {
    // query at 1/2: distances 1/2 and 3/2, weights 2 and 2/3
    // (10*2 + 20*2/3) / (2 + 2/3) = 100/8 = 12.5
    let ev = two_point_evaluator(10, 20);
    let got = ev.interpolate(&Rat::new(1, 2)).unwrap();
    assert!(got.eq_val(&Rat::new(25, 2)));
}

#[test]
fn missing_finder_is_reported() {
    let ev: InvDistBase<Rat, All<Rat>> =
        InvDistBase::new(vec![Input { point: Rat::from_int(0), value: Rat::from_int(1) }]);
    assert!(matches!(
        ev.interpolate(&Rat::from_int(0)),
        Err(InterpolationError::MissingFinder)
    ));
}

#[test]
fn empty_neighbor_set_is_reported() {
    let mut ev: InvDistBase<Rat, All<Rat>> =
        InvDistBase::new(vec![Input { point: Rat::from_int(0), value: Rat::from_int(1) }]);
    ev.set_finder(All::new(vec![]));
    assert!(matches!(
        ev.interpolate(&Rat::from_int(0)),
        Err(InterpolationError::NoNeighbors)
    ));
}

#[test]
fn unknown_identifier_is_reported() {
    let mut ev: InvDistBase<Rat, All<Rat>> =
        InvDistBase::new(vec![Input { point: Rat::from_int(0), value: Rat::from_int(1) }]);
    ev.set_finder(All::new(vec![(5, Rat::from_int(0))]));
    assert!(matches!(
        ev.interpolate(&Rat::from_int(0)),
        Err(InterpolationError::UnknownIdentifier)
    ));
}

#[test]
fn vector_points_average() {
    let p0 = vec![Rat::from_int(0), Rat::from_int(0)];
    let p1 = vec![Rat::from_int(2), Rat::from_int(0)];
    let mut ev: InvDistBase<Vec<Rat>, All<Vec<Rat>>> = InvDistBase::new(vec![
        Input { point: p0.clone(), value: Rat::from_int(4) },
        Input { point: p1.clone(), value: Rat::from_int(8) },
    ]);
    ev.set_finder(All::new(vec![(0, p0), (1, p1)]));
    let q = vec![Rat::from_int(1), Rat::from_int(0)];
    let got = ev.interpolate(&q).unwrap();
    assert!(got.eq_val(&Rat::from_int(6)));
}

#[test]
fn split_table_into_points_and_values() {
    let table = vec![
        vec![Rat::from_int(1), Rat::from_int(2), Rat::from_int(9)],
        vec![Rat::from_int(3), Rat::from_int(4), Rat::from_int(8)],
    ];
    let (points, values) = split_2d(table);
    assert_eq!(points.len(), 2);
    assert_eq!(values.len(), 2);
    assert_eq!(points[0].len(), 2);
    assert!(points[0][0].eq_val(&Rat::from_int(1)));
    assert!(points[1][1].eq_val(&Rat::from_int(4)));
    assert!(values[0].eq_val(&Rat::from_int(9)));
    assert!(values[1].eq_val(&Rat::from_int(8)));
}

#[test]
fn graph_finder_yields_no_neighbors() {
    let mut ev: InvDistBase<Rat, HNSW<Rat>> =
        InvDistBase::new(vec![Input { point: Rat::from_int(0), value: Rat::from_int(1) }]);
    ev.set_finder(HNSW::new(3));
    assert!(matches!(
        ev.interpolate(&Rat::from_int(0)),
        Err(InterpolationError::NoNeighbors)
    ));
}
