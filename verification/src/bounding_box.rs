//! An axis-aligned bounding box described by its minimum corner and its
//! (non-negative) extent on each axis.

use vstd::prelude::*;
use crate::vec::Vector;

verus! {

/// An Axis Aligned Bounding Box.
#[derive(Debug, Clone, Copy, PartialEq, Eq, Structural)]
pub struct AABB {
    /// The minimum corner.
    pub start: Vector,
    /// Size of the box on each axis.
    pub size: Vector,
}

impl AABB {
    /// True when the corner arithmetic `start + size` cannot overflow,
    /// so the containment and intersection tests are well defined.
    pub open spec fn arith_safe(self) -> bool {
        &&& self.start.x + self.size.x <= i64::MAX
        &&& self.start.y + self.size.y <= i64::MAX
        &&& self.start.z + self.size.z <= i64::MAX
        &&& i64::MIN <= self.start.x + self.size.x
        &&& i64::MIN <= self.start.y + self.size.y
        &&& i64::MIN <= self.start.z + self.size.z
    }

    /// The point lies within `[start, start + size]` on every axis.
    pub open spec fn contains(self, p: Vector) -> bool {
        &&& self.start.x <= p.x <= self.start.x + self.size.x
        &&& self.start.y <= p.y <= self.start.y + self.size.y
        &&& self.start.z <= p.z <= self.start.z + self.size.z
    }

    /// The two closed boxes share at least one point on every axis.
    pub open spec fn meets(self, o: AABB) -> bool {
        &&& self.start.x <= o.start.x + o.size.x && o.start.x <= self.start.x + self.size.x
        &&& self.start.y <= o.start.y + o.size.y && o.start.y <= self.start.y + self.size.y
        &&& self.start.z <= o.start.z + o.size.z && o.start.z <= self.start.z + self.size.z
    }

    /// Create a new AABB from its minimum corner and size.
    pub fn new(start: Vector, size: Vector) -> (b: AABB)
        ensures
            b == (AABB { start, size }),
    {
        AABB { start, size }
    }

    /// Check whether a point is inside the box (closed on all sides).
    pub fn point_inside(&self, p: Vector) -> (r: bool)
        requires
            self.arith_safe(),
        ensures
            r == self.contains(p),
    {
        (p.x >= self.start.x && p.x <= self.start.x + self.size.x)
            && (p.y >= self.start.y && p.y <= self.start.y + self.size.y)
            && (p.z >= self.start.z && p.z <= self.start.z + self.size.z)
    }

    /// Check whether another box overlaps this one.
    pub fn intersection(&self, o: AABB) -> (r: bool)
        requires
            self.arith_safe(),
            o.arith_safe(),
        ensures
            r == self.meets(o),
    {
        (self.start.x <= o.start.x + o.size.x && self.start.x + self.size.x >= o.start.x)
            && (self.start.y <= o.start.y + o.size.y && self.start.y + self.size.y >= o.start.y)
            && (self.start.z <= o.start.z + o.size.z && self.start.z + self.size.z >= o.start.z)
    }
}

} // verus!
