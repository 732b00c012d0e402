//! Utilities to find K-nearest neighbours.
//!
//! To be used as part of a generic scattered interpolation algorithm.  A
//! finder is logically a mapping from a query point to a set of point
//! identifiers into the dataset it was built over; it stores only integer
//! identifiers, never references into the dataset.

use crate::metric::Metric;
use vstd::prelude::*;

verus! {

/// A queryable set of point identifiers.
///
/// Implementations may return identifiers in any order; callers must not
/// rely on order.
pub trait KNN: Sized {
    /// The point type queries are made with.
    type Point;

    /// The identifiers this finder returns for a query.
    spec fn spec_neighbors(&self, query: &Self::Point) -> Seq<usize>;

    /// Returns point identifiers.
    fn neighbors(&self, query: &Self::Point) -> (r: Vec<usize>)
        ensures
            r@ == self.spec_neighbors(query),
    ;
}

/// The identifiers of a sequence of identified points.
pub open spec fn firsts<Point>(s: Seq<(usize, Point)>) -> Seq<usize> {
    Seq::new(s.len(), |i: int| s[i].0)
}

/// The points of a sequence of identified points.
pub open spec fn seconds<Point>(s: Seq<(usize, Point)>) -> Seq<Point> {
    Seq::new(s.len(), |i: int| s[i].1)
}

/// The exhaustive finder: ignores the query and returns every identifier
/// it was built with.  Useful as a reference oracle and for small
/// datasets.
pub struct All<Point> {
    identifiers: Vec<usize>,
    points: Vec<Point>,
}

impl<Point> All<Point> {
    /// The identifiers the finder was built with.
    pub closed spec fn spec_identifiers(self) -> Seq<usize> {
        self.identifiers@
    }

    /// The points the finder was built with.
    pub closed spec fn spec_points(self) -> Seq<Point> {
        self.points@
    }

    /// Builds the finder over identified points; every identifier is
    /// retained.
    pub fn new(points: Vec<(usize, Point)>) -> (r: Self)
        ensures
            r.spec_identifiers() == firsts(points@),
            r.spec_points() == seconds(points@),
    {
        let ghost orig = points@;
        let mut rest = points;
        let mut identifiers: Vec<usize> = Vec::new();
        let mut pts: Vec<Point> = Vec::new();
        while rest.len() > 0
            invariant
                identifiers@.len() == pts@.len(),
                identifiers@.len() + rest@.len() == orig.len(),
                identifiers@ == firsts(orig).take(identifiers@.len() as int),
                pts@ == seconds(orig).take(pts@.len() as int),
                rest@ == orig.subrange(identifiers@.len() as int, orig.len() as int),
            decreases rest@.len(),
        {
            let ghost k = identifiers@.len() as int;
            let e = rest.remove(0);
            identifiers.push(e.0);
            pts.push(e.1);
            proof {
                assert(e == orig[k]);
                assert(identifiers@ =~= firsts(orig).take(k + 1));
                assert(pts@ =~= seconds(orig).take(k + 1));
                assert(rest@ =~= orig.subrange(k + 1, orig.len() as int));
            }
        }
        proof {
            assert(firsts(orig).take(identifiers@.len() as int) =~= firsts(orig));
            assert(seconds(orig).take(pts@.len() as int) =~= seconds(orig));
        }
        All { identifiers, points: pts }
    }

    /// The stored points.
    pub fn points(&self) -> (r: &Vec<Point>)
        ensures
            r@ == self.spec_points(),
    {
        &self.points
    }
}

impl<Point> KNN for All<Point> {
    type Point = Point;

    open spec fn spec_neighbors(&self, query: &Point) -> Seq<usize> {
        self.spec_identifiers()
    }

    fn neighbors(&self, query: &Point) -> (r: Vec<usize>) {
        let mut out: Vec<usize> = Vec::new();
        let mut i: usize = 0;
        let n = self.identifiers.len();
        while i < n
            invariant
                n == self.identifiers@.len(),
                0 <= i <= n,
                out@ == self.identifiers@.take(i as int),
            decreases n - i,
        {
            out.push(self.identifiers[i]);
            proof {
                assert(out@ =~= self.identifiers@.take(i + 1));
            }
            i = i + 1;
        }
        proof {
            assert(out@ =~= self.identifiers@);
        }
        out
    }
}

/// The node identifiers stored in a neighbour graph, in storage order.
pub uninterp spec fn graph_ids(g: petgraph::graph::UnGraph<usize, i64>) -> Seq<usize>;

#[verifier::external_type_specification]
#[verifier::external_body]
#[verifier::reject_recursive_types(N)]
#[verifier::reject_recursive_types(E)]
#[verifier::reject_recursive_types(Ty)]
#[verifier::reject_recursive_types(Ix)]
/// The graph type of the petgraph crate, opaque to the verifier.
pub struct ExGraph<N, E, Ty, Ix>(petgraph::graph::Graph<N, E, Ty, Ix>);

#[verifier::external_type_specification]
#[verifier::external_body]
/// The edge-type marker of the petgraph crate for undirected graphs.
pub struct ExUndirected(petgraph::Undirected);

/// Relies on petgraph's `Graph::new_undirected`: it creates a graph with
/// no nodes and no edges.
#[verifier::external_body]
fn graph_new() -> (g: petgraph::graph::UnGraph<usize, i64>)
    ensures
        graph_ids(g) == Seq::<usize>::empty(),
{
    petgraph::graph::UnGraph::new_undirected()
}

/// Relies on petgraph's `Graph::raw_nodes`: it exposes the node array in
/// storage order, each node carrying the weight it was added with.
#[verifier::external_body]
fn graph_node_ids(g: &petgraph::graph::UnGraph<usize, i64>) -> (r: Vec<usize>)
    ensures
        r@ == graph_ids(*g),
{
    g.raw_nodes().iter().map(|n| n.weight).collect()
}

/// The graph-based finder: returns the identifiers of the nodes of a
/// precomputed neighbour graph.  Only the lookup is specified here;
/// building and maintaining the graph is a separate, swappable concern,
/// so a fresh finder holds an empty graph.
pub struct HNSW<Point: Metric> {
    k: u32,
    graph: petgraph::graph::UnGraph<usize, i64>,
    marker: core::marker::PhantomData<Point>,
}

impl<Point: Metric> HNSW<Point> {
    /// The number of neighbours the finder is asked for.
    pub closed spec fn spec_k(self) -> u32 {
        self.k
    }

    /// The neighbour graph.
    pub closed spec fn spec_graph(self) -> petgraph::graph::UnGraph<usize, i64> {
        self.graph
    }

    /// Builds a finder for `k` neighbours over an empty graph.
    pub fn new(k: u32) -> (r: Self)
        ensures
            r.spec_k() == k,
            graph_ids(r.spec_graph()) == Seq::<usize>::empty(),
    {
        HNSW { k, graph: graph_new(), marker: core::marker::PhantomData }
    }

    /// The number of neighbours the finder is asked for.
    pub fn k(&self) -> (r: u32)
        ensures
            r == self.spec_k(),
    {
        self.k
    }
}

impl<Point: Metric> KNN for HNSW<Point> {
    type Point = Point;

    open spec fn spec_neighbors(&self, query: &Point) -> Seq<usize> {
        graph_ids(self.spec_graph())
    }

    fn neighbors(&self, query: &Point) -> (r: Vec<usize>) {
        graph_node_ids(&self.graph)
    }
}

} // verus!
