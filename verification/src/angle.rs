//! An angle tagged with the unit it was given in.  The numeric
//! conversions between the units live outside the verified core; here
//! the value is exact data.

use vstd::prelude::*;

verus! {

/// An angle, remembering whether it was stated in radians or degrees.
#[derive(Debug, Clone, Copy, PartialEq, Eq, PartialOrd, Ord)]
pub enum Angle<N> {
    /// A value in radians.
    Radians(N),
    /// A value in degrees.
    Degrees(N),
}

impl<N: Copy> Angle<N> {
    /// The numeric value as given, whatever its unit.
    pub fn raw_value(&self) -> (v: N)
        ensures
            v == match *self {
                Angle::Radians(x) => x,
                Angle::Degrees(x) => x,
            },
    {
        match self {
            Angle::Radians(v) => *v,
            Angle::Degrees(v) => *v,
        }
    }
}

} // verus!
