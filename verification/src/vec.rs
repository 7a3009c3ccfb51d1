//! The workhorse 3-component vector with `i64` coordinates, and its
//! 4-component sibling.  The z component doubles as a "2D" marker: the
//! two-argument constructor sets it to zero.
//!
//! Comparison between vectors is componentwise: one vector is smaller
//! than another only when every component agrees; mixed components
//! compare as incomparable.

use vstd::prelude::*;
use core::cmp::Ordering;
use crate::arith::prod;

verus! {

/// `v` clamped into the interval `[lo, hi]`.
pub open spec fn clamp_spec(v: int, lo: int, hi: int) -> int {
    if v < lo {
        lo
    } else if v > hi {
        hi
    } else {
        v
    }
}

/// The sum of a list of components.
pub open spec fn coord_sum(s: Seq<int>) -> int
    decreases s.len(),
{
    if s.len() == 0 {
        0
    } else {
        s[0] + coord_sum(s.drop_first())
    }
}

/// The super trait for all vector types: the integer-exact operations
/// the vector types share.  Lengths, distances and normalization are
/// floating-point work outside the verified core.
pub trait VectorTrait: Sized + Clone + Copy {
    /// The components as mathematical integers, x first.
    spec fn coords(self) -> Seq<int>;

    /// Create a vector from two components; the rest are zero.
    fn new2(x: i64, y: i64) -> (v: Self)
        ensures
            v.coords().len() >= 3,
            v.coords()[0] == x as int,
            v.coords()[1] == y as int,
            forall|k: int| 2 <= k < v.coords().len() ==> v.coords()[k] == 0,
    ;

    /// Create a vector from three components; the rest are zero.
    fn new3(x: i64, y: i64, z: i64) -> (v: Self)
        ensures
            v.coords().len() >= 3,
            v.coords()[0] == x as int,
            v.coords()[1] == y as int,
            v.coords()[2] == z as int,
            forall|k: int| 3 <= k < v.coords().len() ==> v.coords()[k] == 0,
    ;

    /// Clamp each component between the matching components of `min` and
    /// `max`.
    fn clamp(&self, min: Self, max: Self) -> (r: Self)
        requires
            min.coords().len() == self.coords().len(),
            max.coords().len() == self.coords().len(),
            forall|k: int|
                0 <= k < self.coords().len() ==> #[trigger] min.coords()[k] <= max.coords()[k],
        ensures
            r.coords().len() == self.coords().len(),
            forall|k: int|
                0 <= k < r.coords().len() ==> #[trigger] r.coords()[k] == clamp_spec(
                    self.coords()[k],
                    min.coords()[k],
                    max.coords()[k],
                ),
    ;

    /// All components added together.
    fn sum(&self) -> (r: i64)
        requires
            self.coords().len() <= 4,
            forall|k: int|
                0 <= k < self.coords().len() ==> -COORD_LIMIT <= #[trigger] self.coords()[k]
                    <= COORD_LIMIT,
        ensures
            r == coord_sum(self.coords()),
    ;
}

/// Coordinate magnitude accepted by the nonlinear operations (products of
/// two coordinate differences summed three times stay well inside `i64`).
pub const COORD_LIMIT: i64 = 750_000_000;

/// A point or direction in up to three dimensions.
#[derive(Debug, Clone, Copy, PartialEq, Eq, Structural)]
pub struct Vector {
    /// X coordinate of the vector
    pub x: i64,
    /// Y coordinate of the vector
    pub y: i64,
    /// Z coordinate of the vector
    pub z: i64,
}

impl Vector {
    /// Build a two-dimensional vector; z is fixed at zero.
    pub fn new2(x: i64, y: i64) -> (v: Vector)
        ensures
            v == (Vector { x, y, z: 0 }),
    {
        Vector { x, y, z: 0 }
    }

    /// Build a three-dimensional vector.
    pub fn new3(x: i64, y: i64, z: i64) -> (v: Vector)
        ensures
            v == (Vector { x, y, z }),
    {
        Vector { x, y, z }
    }

    /// All components within the coordinate limit.
    pub open spec fn bounded(self) -> bool {
        &&& -COORD_LIMIT <= self.x <= COORD_LIMIT
        &&& -COORD_LIMIT <= self.y <= COORD_LIMIT
        &&& -COORD_LIMIT <= self.z <= COORD_LIMIT
    }

    /// Cross product of two vectors.
    pub fn cross(a: &Vector, b: &Vector) -> (r: Vector)
        requires
            a.bounded(),
            b.bounded(),
        ensures
            r.x == a.y * b.z - a.z * b.y,
            r.y == a.z * b.x - a.x * b.z,
            r.z == a.x * b.y - a.y * b.x,
    {
        let lim = Ghost(COORD_LIMIT as int);
        Vector::new3(
            prod(a.y, b.z, lim, lim) - prod(a.z, b.y, lim, lim),
            prod(a.z, b.x, lim, lim) - prod(a.x, b.z, lim, lim),
            prod(a.x, b.y, lim, lim) - prod(a.y, b.x, lim, lim),
        )
    }

    /// Clamp each component between the matching components of `min` and
    /// `max`.
    pub fn clamp(&self, min: Vector, max: Vector) -> (r: Vector)
        requires
            min.x <= max.x,
            min.y <= max.y,
            min.z <= max.z,
        ensures
            r.x == clamp_spec(self.x as int, min.x as int, max.x as int),
            r.y == clamp_spec(self.y as int, min.y as int, max.y as int),
            r.z == clamp_spec(self.z as int, min.z as int, max.z as int),
    {
        Vector {
            x: clamp_i64(self.x, min.x, max.x),
            y: clamp_i64(self.y, min.y, max.y),
            z: clamp_i64(self.z, min.z, max.z),
        }
    }

    /// All components added together.
    pub fn sum(&self) -> (r: i64)
        requires
            self.bounded(),
        ensures
            r == self.x + self.y + self.z,
    {
        self.x + self.y + self.z
    }
}

/// Clamp one value between two others.
fn clamp_i64(v: i64, lo: i64, hi: i64) -> (r: i64)
    requires
        lo <= hi,
    ensures
        r == clamp_spec(v as int, lo as int, hi as int),
{
    if v < lo {
        lo
    } else if v > hi {
        hi
    } else {
        v
    }
}

impl vstd::std_specs::cmp::PartialOrdSpecImpl for Vector {
    open spec fn obeys_partial_cmp_spec() -> bool {
        true
    }

    open spec fn partial_cmp_spec(&self, other: &Vector) -> Option<Ordering> {
        if self.x < other.x && self.y < other.y && self.z < other.z {
            Some(Ordering::Less)
        } else if self.x == other.x && self.y == other.y && self.z == other.z {
            Some(Ordering::Equal)
        } else if self.x > other.x && self.y > other.y && self.z > other.z {
            Some(Ordering::Greater)
        } else {
            None
        }
    }
}

impl PartialOrd for Vector {
    /// Componentwise comparison: orderings that disagree between
    /// components compare as incomparable.
    fn partial_cmp(&self, other: &Vector) -> (r: Option<Ordering>) {
        if self.x < other.x && self.y < other.y && self.z < other.z {
            Some(Ordering::Less)
        } else if self.x == other.x && self.y == other.y && self.z == other.z {
            Some(Ordering::Equal)
        } else if self.x > other.x && self.y > other.y && self.z > other.z {
            Some(Ordering::Greater)
        } else {
            None
        }
    }
}

impl Default for Vector {
    /// The origin.
    fn default() -> (v: Vector)
        ensures
            v == (Vector { x: 0, y: 0, z: 0 }),
    {
        Vector { x: 0, y: 0, z: 0 }
    }
}

impl VectorTrait for Vector {
    /// Three components.
    open spec fn coords(self) -> Seq<int> {
        seq![self.x as int, self.y as int, self.z as int]
    }

    fn new2(x: i64, y: i64) -> (v: Self) {
        Vector::new2(x, y)
    }

    fn new3(x: i64, y: i64, z: i64) -> (v: Self) {
        Vector::new3(x, y, z)
    }

    fn clamp(&self, min: Self, max: Self) -> (r: Self) {
        proof {
            assert(min.coords()[0] <= max.coords()[0]);
            assert(min.coords()[1] <= max.coords()[1]);
            assert(min.coords()[2] <= max.coords()[2]);
        }
        let r = Vector::clamp(self, min, max);
        proof {
            assert forall|k: int|
                0 <= k < r.coords().len() implies #[trigger] r.coords()[k] == clamp_spec(
                self.coords()[k],
                min.coords()[k],
                max.coords()[k],
            ) by {
                if k == 0 {
                } else if k == 1 {
                } else {
                    assert(k == 2);
                }
            }
        }
        r
    }

    fn sum(&self) -> (r: i64) {
        proof {
            assert(self.coords()[0] == self.x as int);
            assert(self.coords()[1] == self.y as int);
            assert(self.coords()[2] == self.z as int);
        }
        let r = Vector::sum(self);
        proof {
            reveal_with_fuel(coord_sum, 4);
            assert(self.coords().drop_first() =~= seq![self.y as int, self.z as int]);
            assert(self.coords().drop_first().drop_first() =~= seq![self.z as int]);
            assert(self.coords().drop_first().drop_first().drop_first() =~= Seq::<int>::empty());
        }
        r
    }
}

impl vstd::std_specs::convert::FromSpecImpl<(i64, i64)> for Vector {
    open spec fn obeys_from_spec() -> bool {
        true
    }

    open spec fn from_spec(value: (i64, i64)) -> Vector {
        Vector { x: value.0, y: value.1, z: 0 }
    }
}

impl From<(i64, i64)> for Vector {
    /// A two-dimensional point as a vector.
    fn from(value: (i64, i64)) -> (v: Vector) {
        Vector::new2(value.0, value.1)
    }
}

impl vstd::std_specs::convert::FromSpecImpl<(i64, i64, i64)> for Vector {
    open spec fn obeys_from_spec() -> bool {
        true
    }

    open spec fn from_spec(value: (i64, i64, i64)) -> Vector {
        Vector { x: value.0, y: value.1, z: value.2 }
    }
}

impl From<(i64, i64, i64)> for Vector {
    /// A three-dimensional point as a vector.
    fn from(value: (i64, i64, i64)) -> (v: Vector) {
        Vector::new3(value.0, value.1, value.2)
    }
}

/// Vector shorthand.
pub fn vector3(x: i64, y: i64, z: i64) -> (v: Vector)
    ensures
        v == (Vector { x, y, z }),
{
    Vector::new3(x, y, z)
}

/// A vector with four components.
#[derive(Debug, Clone, Copy, PartialEq, Eq, Structural)]
pub struct Vector4 {
    /// X coordinate of the vector
    pub x: i64,
    /// Y coordinate of the vector
    pub y: i64,
    /// Z coordinate of the vector
    pub z: i64,
    /// W coordinate of the vector
    pub w: i64,
}

impl Vector4 {
    /// Build a vector from all four components.
    pub fn new4(x: i64, y: i64, z: i64, w: i64) -> (v: Vector4)
        ensures
            v == (Vector4 { x, y, z, w }),
    {
        Vector4 { x, y, z, w }
    }

    /// Build a vector from two components; z and w are zero.
    pub fn new2(x: i64, y: i64) -> (v: Vector4)
        ensures
            v == (Vector4 { x, y, z: 0, w: 0 }),
    {
        Vector4 { x, y, z: 0, w: 0 }
    }

    /// Build a vector from three components; w is zero.
    pub fn new3(x: i64, y: i64, z: i64) -> (v: Vector4)
        ensures
            v == (Vector4 { x, y, z, w: 0 }),
    {
        Vector4 { x, y, z, w: 0 }
    }

    /// Clamp each component between the matching components of `min` and
    /// `max`.
    pub fn clamp(&self, min: Vector4, max: Vector4) -> (r: Vector4)
        requires
            min.x <= max.x,
            min.y <= max.y,
            min.z <= max.z,
            min.w <= max.w,
        ensures
            r.x == clamp_spec(self.x as int, min.x as int, max.x as int),
            r.y == clamp_spec(self.y as int, min.y as int, max.y as int),
            r.z == clamp_spec(self.z as int, min.z as int, max.z as int),
            r.w == clamp_spec(self.w as int, min.w as int, max.w as int),
    {
        Vector4 {
            x: clamp_i64(self.x, min.x, max.x),
            y: clamp_i64(self.y, min.y, max.y),
            z: clamp_i64(self.z, min.z, max.z),
            w: clamp_i64(self.w, min.w, max.w),
        }
    }

    /// All components added together.
    pub fn sum(&self) -> (r: i64)
        requires
            -COORD_LIMIT <= self.x <= COORD_LIMIT,
            -COORD_LIMIT <= self.y <= COORD_LIMIT,
            -COORD_LIMIT <= self.z <= COORD_LIMIT,
            -COORD_LIMIT <= self.w <= COORD_LIMIT,
        ensures
            r == self.x + self.y + self.z + self.w,
    {
        self.x + self.y + self.z + self.w
    }
}

impl vstd::std_specs::cmp::PartialOrdSpecImpl for Vector4 {
    open spec fn obeys_partial_cmp_spec() -> bool {
        true
    }

    open spec fn partial_cmp_spec(&self, other: &Vector4) -> Option<Ordering> {
        if self.x < other.x && self.y < other.y && self.z < other.z && self.w < other.w {
            Some(Ordering::Less)
        } else if self.x == other.x && self.y == other.y && self.z == other.z && self.w
            == other.w {
            Some(Ordering::Equal)
        } else if self.x > other.x && self.y > other.y && self.z > other.z && self.w > other.w {
            Some(Ordering::Greater)
        } else {
            None
        }
    }
}

impl PartialOrd for Vector4 {
    /// Componentwise comparison: orderings that disagree between
    /// components compare as incomparable.
    fn partial_cmp(&self, other: &Vector4) -> (r: Option<Ordering>) {
        if self.x < other.x && self.y < other.y && self.z < other.z && self.w < other.w {
            Some(Ordering::Less)
        } else if self.x == other.x && self.y == other.y && self.z == other.z && self.w
            == other.w {
            Some(Ordering::Equal)
        } else if self.x > other.x && self.y > other.y && self.z > other.z && self.w > other.w {
            Some(Ordering::Greater)
        } else {
            None
        }
    }
}

impl Default for Vector4 {
    /// The origin.
    fn default() -> (v: Vector4)
        ensures
            v == (Vector4 { x: 0, y: 0, z: 0, w: 0 }),
    {
        Vector4 { x: 0, y: 0, z: 0, w: 0 }
    }
}

impl VectorTrait for Vector4 {
    /// Four components.
    open spec fn coords(self) -> Seq<int> {
        seq![self.x as int, self.y as int, self.z as int, self.w as int]
    }

    fn new2(x: i64, y: i64) -> (v: Self) {
        Vector4::new2(x, y)
    }

    fn new3(x: i64, y: i64, z: i64) -> (v: Self) {
        Vector4::new3(x, y, z)
    }

    fn clamp(&self, min: Self, max: Self) -> (r: Self) {
        proof {
            assert(min.coords()[0] <= max.coords()[0]);
            assert(min.coords()[1] <= max.coords()[1]);
            assert(min.coords()[2] <= max.coords()[2]);
            assert(min.coords()[3] <= max.coords()[3]);
        }
        let r = Vector4::clamp(self, min, max);
        proof {
            assert forall|k: int|
                0 <= k < r.coords().len() implies #[trigger] r.coords()[k] == clamp_spec(
                self.coords()[k],
                min.coords()[k],
                max.coords()[k],
            ) by {
                if k == 0 {
                } else if k == 1 {
                } else if k == 2 {
                } else {
                    assert(k == 3);
                }
            }
        }
        r
    }

    fn sum(&self) -> (r: i64) {
        proof {
            assert(self.coords()[0] == self.x as int);
            assert(self.coords()[1] == self.y as int);
            assert(self.coords()[2] == self.z as int);
            assert(self.coords()[3] == self.w as int);
        }
        let r = Vector4::sum(self);
        proof {
            reveal_with_fuel(coord_sum, 5);
            assert(self.coords().drop_first() =~= seq![
                self.y as int,
                self.z as int,
                self.w as int,
            ]);
            assert(self.coords().drop_first().drop_first() =~= seq![
                self.z as int,
                self.w as int,
            ]);
            assert(self.coords().drop_first().drop_first().drop_first() =~= seq![self.w as int]);
            assert(self.coords().drop_first().drop_first().drop_first().drop_first()
                =~= Seq::<int>::empty());
        }
        r
    }
}

} // verus!
