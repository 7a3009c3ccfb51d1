//! A line through two points and its edge function, the signed-area test
//! behind the triangle routines.

use vstd::prelude::*;
use crate::arith::prod;
use crate::vec::{Vector, COORD_LIMIT};

verus! {

/// Twice the signed area of the triangle `(a, b, p)`: zero when `p` lies
/// on the line through `a` and `b`, and of opposite signs on its two
/// sides.
pub open spec fn edge_spec(a: Vector, b: Vector, p: Vector) -> int {
    (p.x - a.x) * (b.y - a.y) - (p.y - a.y) * (b.x - a.x)
}

/// A structure describing a line between 2 points.
pub struct Line(pub Vector, pub Vector);

impl Line {
    /// Determine if a point is on the line or to a side:
    /// zero is on the line, the two signs are the two sides.
    pub fn edge_function(&self, point: Vector) -> (r: i64)
        requires
            self.0.bounded(),
            self.1.bounded(),
            point.bounded(),
        ensures
            r == edge_spec(self.0, self.1, point),
    {
        prod(
            point.x - self.0.x,
            self.1.y - self.0.y,
            Ghost(2 * COORD_LIMIT as int),
            Ghost(2 * COORD_LIMIT as int),
        ) - prod(
            point.y - self.0.y,
            self.1.x - self.0.x,
            Ghost(2 * COORD_LIMIT as int),
            Ghost(2 * COORD_LIMIT as int),
        )
    }
}

} // verus!
