//! State shared by scattered-data evaluators: the dataset and its finder.
//!
//! A scattered dataset is a parallel pair of sequences — points and the
//! values at them, index-aligned, so a point's identifier is its position —
//! optionally together with a nearest-neighbour finder built over the same
//! point set.  Built once; immutable afterwards but for setting the finder.

use crate::interpolate::Input;
use crate::metric::Metric;
use crate::rat::{all_fit, seq_v, Rat, RatV};
use crate::scatter::knn::KNN;
use vstd::prelude::*;

verus! {

/// The points of a sequence of samples.
pub open spec fn input_points<Point>(s: Seq<Input<Point>>) -> Seq<Point> {
    Seq::new(s.len(), |i: int| s[i].point)
}

/// The values of a sequence of samples.
pub open spec fn input_values<Point>(s: Seq<Input<Point>>) -> Seq<RatV> {
    Seq::new(s.len(), |i: int| s[i].value@)
}

/// The dataset of a scattered-data evaluator: parallel points and values,
/// and an optional nearest-neighbour finder over them.
#[verifier::reject_recursive_types(Point)]
#[verifier::reject_recursive_types(Finder)]
pub struct Commons<Point, Finder> where Point: Metric, Finder: KNN<Point = Point> {
    /// The stored points; a point's identifier is its position.
    pub points: Vec<Point>,
    /// The stored sample values, parallel to the points.
    pub values: Vec<Rat>,
    /// The configured nearest-neighbour finder, if one has been set.
    pub finder: Option<Finder>,
}

impl<Point, Finder> Commons<Point, Finder> where Point: Metric, Finder: KNN<Point = Point> {
    /// The stored points; a point's identifier is its position here.
    pub open spec fn spec_points(self) -> Seq<Point> {
        self.points@
    }

    /// The stored sample values, parallel to the points.
    pub open spec fn spec_values(self) -> Seq<RatV> {
        seq_v(self.values@)
    }

    /// The configured finder, if one has been set.
    pub open spec fn spec_finder(self) -> Option<Finder> {
        self.finder
    }

    /// Points and values run parallel and every value is representable.
    pub open spec fn wf(self) -> bool {
        self.spec_points().len() == self.spec_values().len() && all_fit(self.spec_values())
    }

    /// Builds the dataset from samples; no finder is set yet.
    pub fn new(inputs: Vec<Input<Point>>) -> (r: Self)
        requires
            forall|i: int| 0 <= i < inputs@.len() ==> (#[trigger] inputs@[i].value).wf(),
        ensures
            r.wf(),
            r.spec_points() == input_points(inputs@),
            r.spec_values() == input_values(inputs@),
            r.spec_finder() is None,
    {
        let ghost orig = inputs@;
        let mut rest = inputs;
        let mut points: Vec<Point> = Vec::new();
        let mut values: Vec<Rat> = Vec::new();
        while rest.len() > 0
            invariant
                forall|i: int| 0 <= i < orig.len() ==> (#[trigger] orig[i].value).wf(),
                points@.len() == values@.len(),
                points@.len() + rest@.len() == orig.len(),
                points@ == input_points(orig).take(points@.len() as int),
                forall|i: int|
                    0 <= i < values@.len() ==> #[trigger] values@[i] == orig[i].value,
                rest@ == orig.subrange(points@.len() as int, orig.len() as int),
            decreases rest@.len(),
        {
            let ghost k = points@.len() as int;
            let e = rest.remove(0);
            points.push(e.point);
            values.push(e.value);
            proof {
                assert(e == orig[k]);
                assert(points@ =~= input_points(orig).take(k + 1));
                assert(rest@ =~= orig.subrange(k + 1, orig.len() as int));
            }
        }
        proof {
            assert(input_points(orig).take(points@.len() as int) =~= input_points(orig));
            assert(seq_v(values@) =~= input_values(orig));
        }
        Commons { points, values, finder: None }
    }

    /// Configure the nearest-neighbour finder the evaluator queries.
    pub fn set_finder(&mut self, finder: Finder)
        ensures
            final (self).spec_points() == old(self).spec_points(),
            final (self).spec_values() == old(self).spec_values(),
            final (self).spec_finder() == Some(finder),
    {
        self.finder = Some(finder)
    }
}

} // verus!
