//! Helpers for assembling scattered datasets.

use crate::rat::Rat;
use vstd::prelude::*;

verus! {

/// Splits a table of rows into points and values: each row's last entry is
/// the sample value, the rest of the row is the point's coordinates.
pub fn split_2d(points: Vec<Vec<Rat>>) -> (r: (Vec<Vec<Rat>>, Vec<Rat>))
    requires
        forall|i: int| 0 <= i < points@.len() ==> (#[trigger] points@[i])@.len() >= 1,
    ensures
        r.0@.len() == points@.len(),
        r.1@.len() == points@.len(),
        forall|i: int|
            0 <= i < points@.len() ==> (#[trigger] r.0@[i])@ == points@[i]@.take(
                points@[i]@.len() - 1,
            ),
        forall|i: int|
            0 <= i < points@.len() ==> #[trigger] r.1@[i] == points@[i]@[points@[i]@.len() - 1],
{
    let ghost orig = points@;
    let mut rest = points;
    let mut pts: Vec<Vec<Rat>> = Vec::new();
    let mut values: Vec<Rat> = Vec::new();
    while rest.len() > 0
        invariant
            forall|i: int| 0 <= i < orig.len() ==> (#[trigger] orig[i])@.len() >= 1,
            pts@.len() == values@.len(),
            pts@.len() + rest@.len() == orig.len(),
            forall|i: int|
                0 <= i < pts@.len() ==> (#[trigger] pts@[i])@ == orig[i]@.take(
                    orig[i]@.len() - 1,
                ),
            forall|i: int|
                0 <= i < values@.len() ==> #[trigger] values@[i] == orig[i]@[orig[i]@.len() - 1],
            rest@ == orig.subrange(pts@.len() as int, orig.len() as int),
        decreases rest@.len(),
    {
        let ghost k = pts@.len() as int;
        let row = rest.remove(0);
        proof {
            assert(row == orig[k]);
        }
        let n = row.len();
        let value = row[n - 1];
        let mut coords: Vec<Rat> = Vec::new();
        let mut j: usize = 0;
        while j < n - 1
            invariant
                n == row@.len(),
                n >= 1,
                0 <= j <= n - 1,
                coords@ == row@.take(j as int),
            decreases n - 1 - j,
        {
            coords.push(row[j]);
            proof {
                assert(coords@ =~= row@.take(j + 1));
            }
            j = j + 1;
        }
        let ghost pre_p = pts@;
        let ghost pre_v = values@;
        pts.push(coords);
        values.push(value);
        proof {
            assert(rest@ =~= orig.subrange(k + 1, orig.len() as int));
            assert forall|i: int|
                0 <= i < pts@.len() implies (#[trigger] pts@[i])@ == orig[i]@.take(
                orig[i]@.len() - 1,
            ) by {
                if i < k {
                    assert(pts@[i] == pre_p[i]);
                }
            }
        }
    }
    (pts, values)
}

} // verus!
