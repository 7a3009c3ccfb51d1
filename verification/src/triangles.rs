//! Triangles over integer coordinates: point containment by the three
//! edge functions, and integer barycentric weights.

use vstd::prelude::*;
use crate::line::{edge_spec, Line};
use crate::vec::Vector;

verus! {

/// The three edge functions of a point against a triangle always add up
/// to the edge function of the triangle's own third vertex: a polynomial
/// identity, so in particular nonnegative weights force a positive area.
proof fn lemma_edge_sum(ax: int, ay: int, bx: int, by: int, cx: int, cy: int, px: int, py: int)
    ensures
        ((px - bx) * (cy - by) - (py - by) * (cx - bx)) + ((px - cx) * (ay - cy) - (py - cy) * (ax
            - cx)) + ((px - ax) * (by - ay) - (py - ay) * (bx - ax)) == (cx - ax) * (by - ay) - (cy
            - ay) * (bx - ax),
{
    assert(((px - bx) * (cy - by) - (py - by) * (cx - bx)) + ((px - cx) * (ay - cy) - (py - cy) * (
    ax - cx)) + ((px - ax) * (by - ay) - (py - ay) * (bx - ax)) == (cx - ax) * (by - ay) - (cy - ay)
        * (bx - ax)) by (nonlinear_arith);
}

/// Triangle Edge Descriptor.
pub enum TriangleEdge {
    /// Edge from Points A to B
    AB,
    /// Edge from Points B to C
    BC,
    /// Edge from Points C to A
    CA,
}

/// Triangle class.
pub struct Triangle {
    /// Position of point a
    pub a: Vector,
    /// Position of point b
    pub b: Vector,
    /// Position of point c
    pub c: Vector,
}

impl Triangle {
    /// Create a new Triangle.
    pub fn new(a: Vector, b: Vector, c: Vector) -> (t: Self)
        ensures
            t == (Triangle { a, b, c }),
    {
        Triangle { a, b, c }
    }

    /// Check if a point lies strictly inside the triangle: all three
    /// edge functions are positive (so the vertices must wind the way
    /// that makes them positive).
    pub fn point_inside_triangle(&self, point: Vector) -> (r: bool)
        requires
            self.a.bounded(),
            self.b.bounded(),
            self.c.bounded(),
            point.bounded(),
        ensures
            r == (edge_spec(self.a, self.b, point) > 0 && edge_spec(self.b, self.c, point) > 0
                && edge_spec(self.c, self.a, point) > 0),
    {
        let a = Line(self.a, self.b);
        let b = Line(self.b, self.c);
        let c = Line(self.c, self.a);
        a.edge_function(point) > 0 && b.edge_function(point) > 0 && c.edge_function(point) > 0
    }

    /// The barycentric weights of `point`, each divided (integer
    /// division) by twice the triangle's signed area.  `None` when the
    /// point lies outside the triangle (a negative weight) or the
    /// triangle is degenerate (zero area).
    pub fn barycentric_coordinates(&self, point: Vector) -> (r: Option<(i64, i64, i64)>)
        requires
            self.a.bounded(),
            self.b.bounded(),
            self.c.bounded(),
            point.bounded(),
        ensures
            ({
                let area = edge_spec(self.a, self.b, self.c);
                let w0 = edge_spec(self.b, self.c, point);
                let w1 = edge_spec(self.c, self.a, point);
                let w2 = edge_spec(self.a, self.b, point);
                &&& (r is Some <==> (w0 >= 0 && w1 >= 0 && w2 >= 0 && area != 0))
                &&& (r matches Some(t) ==> t.0 == w0 / area && t.1 == w1 / area && t.2 == w2
                    / area)
            }),
    {
        let area = Line(self.a, self.b).edge_function(self.c);
        let w0 = Line(self.b, self.c).edge_function(point);
        let w1 = Line(self.c, self.a).edge_function(point);
        let w2 = Line(self.a, self.b).edge_function(point);
        proof {
            lemma_edge_sum(
                self.a.x as int,
                self.a.y as int,
                self.b.x as int,
                self.b.y as int,
                self.c.x as int,
                self.c.y as int,
                point.x as int,
                point.y as int,
            );
            assert(w0 + w1 + w2 == area);
        }
        if w0 >= 0 && w1 >= 0 && w2 >= 0 && area != 0 {
            Some((w0 / area, w1 / area, w2 / area))
        } else {
            None
        }
    }
}

} // verus!
