//! Projection descriptions: the six planes of an orthographic volume and
//! the four parameters of a perspective one.  Building the floating-point
//! projection matrices from these is numeric work outside the verified
//! core; the descriptions themselves are exact.

use vstd::prelude::*;
use crate::angle::Angle;

verus! {

/// An orthographic viewing volume.
#[derive(Debug, Default, Clone, Copy, PartialEq, Eq, PartialOrd, Ord)]
pub struct OrthographicProjection<N> {
    /// Left clipping plane.
    pub left: N,
    /// Right clipping plane.
    pub right: N,
    /// Top clipping plane.
    pub top: N,
    /// Bottom clipping plane.
    pub bottom: N,
    /// Near clipping plane.
    pub near: N,
    /// Far clipping plane.
    pub far: N,
}

/// Shorthand for [`OrthographicProjection::new`].
pub fn ortho<N>(left: N, right: N, top: N, bottom: N, near: N, far: N) -> (p:
    OrthographicProjection<N>)
    ensures
        p == (OrthographicProjection { left, right, top, bottom, near, far }),
{
    OrthographicProjection { left, right, top, bottom, near, far }
}

impl<N> OrthographicProjection<N> {
    /// Describe an orthographic volume by its six planes.
    pub fn new(left: N, right: N, top: N, bottom: N, near: N, far: N) -> (p: Self)
        ensures
            p == (OrthographicProjection { left, right, top, bottom, near, far }),
    {
        OrthographicProjection { left, right, top, bottom, near, far }
    }
}

impl OrthographicProjection<i64> {
    /// Describe a volume centred on the origin: the planes sit half the
    /// width and height away on each side (halving by integer division).
    pub fn from_width_height(width: i64, height: i64, near: i64, far: i64) -> (p: Self)
        requires
            width >= 0,
            height >= 0,
        ensures
            p.left == width / 2,
            p.right == -(width / 2),
            p.top == height / 2,
            p.bottom == -(height / 2),
            p.near == near,
            p.far == far,
    {
        let h_width = width / 2;
        let h_height = height / 2;
        OrthographicProjection {
            left: h_width,
            right: -h_width,
            top: h_height,
            bottom: -h_height,
            near,
            far,
        }
    }
}

/// A perspective viewing volume.
#[derive(Debug, Clone, Copy, PartialEq, Eq, PartialOrd, Ord)]
pub struct PerspectiveProjection<N> {
    /// Vertical field of view.
    pub fovy: Angle<N>,
    /// Width over height of the viewport.
    pub aspect: N,
    /// Near clipping plane.
    pub near: N,
    /// Far clipping plane.
    pub far: N,
}

impl<N> PerspectiveProjection<N> {
    /// Describe a perspective volume by field of view, aspect ratio and
    /// clipping planes.
    pub fn new(fovy: Angle<N>, aspect: N, near: N, far: N) -> (p: Self)
        ensures
            p == (PerspectiveProjection { fovy, aspect, near, far }),
    {
        PerspectiveProjection { fovy, aspect, near, far }
    }
}

} // verus!
