//! A 3-component vector generic in its scalar type.  Construction and
//! tuple conversion work for any scalar; the arithmetic is provided for
//! the `i64` instantiation with exact contracts.

use vstd::prelude::*;
use crate::arith::prod;
use crate::vec::COORD_LIMIT;

verus! {

/// A point or direction in three dimensions.
#[derive(Debug, Default, Clone, Copy, PartialEq, Eq, PartialOrd, Ord)]
pub struct Vector3<N> {
    /// X component.
    pub x: N,
    /// Y component.
    pub y: N,
    /// Z component.
    pub z: N,
}

/// Shorthand for [`Vector3::new`].
pub fn vec3<N>(x: N, y: N, z: N) -> (v: Vector3<N>)
    ensures
        v == (Vector3 { x, y, z }),
{
    Vector3::new(x, y, z)
}

impl<N> Vector3<N> {
    /// Build a vector from its three components.
    pub fn new(x: N, y: N, z: N) -> (v: Self)
        ensures
            v == (Vector3 { x, y, z }),
    {
        Vector3 { x, y, z }
    }
}

impl<N: Copy> Vector3<N> {
    /// All three components set to the same value.
    pub fn from_one(xyz: N) -> (v: Self)
        ensures
            v == (Vector3 { x: xyz, y: xyz, z: xyz }),
    {
        Vector3 { x: xyz, y: xyz, z: xyz }
    }

    /// Build a vector from a tuple `(x, y, z)`.
    pub fn from_tuple(tuple: &(N, N, N)) -> (v: Self)
        ensures
            v == (Vector3 { x: tuple.0, y: tuple.1, z: tuple.2 }),
    {
        Vector3 { x: tuple.0, y: tuple.1, z: tuple.2 }
    }

    /// The components as a tuple `(x, y, z)`.
    pub fn to_tuple(&self) -> (t: (N, N, N))
        ensures
            t == (self.x, self.y, self.z),
    {
        (self.x, self.y, self.z)
    }
}

impl Vector3<i64> {
    /// All components within the coordinate limit, so sums of products
    /// stay inside `i64`.
    pub open spec fn bounded(self) -> bool {
        &&& -COORD_LIMIT <= self.x <= COORD_LIMIT
        &&& -COORD_LIMIT <= self.y <= COORD_LIMIT
        &&& -COORD_LIMIT <= self.z <= COORD_LIMIT
    }

    /// The squared length `x*x + y*y + z*z`.
    pub fn magnitude_sq(&self) -> (r: i64)
        requires
            self.bounded(),
        ensures
            r == self.x * self.x + self.y * self.y + self.z * self.z,
    {
        prod(self.x, self.x, Ghost(COORD_LIMIT as int), Ghost(COORD_LIMIT as int)) + prod(
            self.y,
            self.y,
            Ghost(COORD_LIMIT as int),
            Ghost(COORD_LIMIT as int),
        ) + prod(self.z, self.z, Ghost(COORD_LIMIT as int), Ghost(COORD_LIMIT as int))
    }

    /// The squared distance between two points.
    pub fn dist_sq(&self, other: &Self) -> (r: i64)
        requires
            self.bounded(),
            other.bounded(),
        ensures
            r == (self.x - other.x) * (self.x - other.x) + (self.y - other.y) * (self.y
                - other.y) + (self.z - other.z) * (self.z - other.z),
    {
        let dx = self.x - other.x;
        let dy = self.y - other.y;
        let dz = self.z - other.z;
        prod(dx, dx, Ghost(2 * COORD_LIMIT as int), Ghost(2 * COORD_LIMIT as int)) + prod(
            dy,
            dy,
            Ghost(2 * COORD_LIMIT as int),
            Ghost(2 * COORD_LIMIT as int),
        ) + prod(dz, dz, Ghost(2 * COORD_LIMIT as int), Ghost(2 * COORD_LIMIT as int))
    }

    /// The dot product.
    pub fn dot(&self, other: &Self) -> (r: i64)
        requires
            self.bounded(),
            other.bounded(),
        ensures
            r == self.x * other.x + self.y * other.y + self.z * other.z,
    {
        prod(self.x, other.x, Ghost(COORD_LIMIT as int), Ghost(COORD_LIMIT as int)) + prod(
            self.y,
            other.y,
            Ghost(COORD_LIMIT as int),
            Ghost(COORD_LIMIT as int),
        ) + prod(self.z, other.z, Ghost(COORD_LIMIT as int), Ghost(COORD_LIMIT as int))
    }

    /// The cross product.
    pub fn cross(&self, other: &Self) -> (r: Self)
        requires
            self.bounded(),
            other.bounded(),
        ensures
            r.x == self.y * other.z - self.z * other.y,
            r.y == self.z * other.x - self.x * other.z,
            r.z == self.x * other.y - self.y * other.x,
    {
        let lim = Ghost(COORD_LIMIT as int);
        Vector3 {
            x: prod(self.y, other.z, lim, lim) - prod(self.z, other.y, lim, lim),
            y: prod(self.z, other.x, lim, lim) - prod(self.x, other.z, lim, lim),
            z: prod(self.x, other.y, lim, lim) - prod(self.y, other.x, lim, lim),
        }
    }

    /// The scaled component sums `t * (a + b)` on each axis: a blend of
    /// the two vectors weighted by `t`.
    pub fn lerp(&self, other: &Self, t: i64) -> (r: Self)
        requires
            self.bounded(),
            other.bounded(),
            -COORD_LIMIT <= t <= COORD_LIMIT,
        ensures
            r.x == t * (self.x + other.x),
            r.y == t * (self.y + other.y),
            r.z == t * (self.z + other.z),
    {
        let lim = Ghost(COORD_LIMIT as int);
        let lim2 = Ghost(2 * COORD_LIMIT as int);
        Vector3 {
            x: prod(t, self.x + other.x, lim, lim2),
            y: prod(t, self.y + other.y, lim, lim2),
            z: prod(t, self.z + other.z, lim, lim2),
        }
    }
}

} // verus!
