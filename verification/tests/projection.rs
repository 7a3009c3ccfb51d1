use vecto_rs::angle::Angle;
use vecto_rs::projection::{ortho, OrthographicProjection, PerspectiveProjection};

#[test]
fn ortho_construction() {
    let p = ortho(-1i64, 1, 1, -1, 0, 10);
    assert_eq!(p, OrthographicProjection::new(-1, 1, 1, -1, 0, 10));
    assert_eq!((p.left, p.right, p.top, p.bottom, p.near, p.far), (-1, 1, 1, -1, 0, 10));
}

#[test]
fn ortho_from_width_height() {
    let p = OrthographicProjection::from_width_height(800, 600, 1, 100);
    assert_eq!((p.left, p.right), (400, -400));
    assert_eq!((p.top, p.bottom), (300, -300));
    assert_eq!((p.near, p.far), (1, 100));
    // odd sizes halve by integer division
    let q = OrthographicProjection::from_width_height(5, 3, 0, 1);
    assert_eq!((q.left, q.top), (2, 1));
}

#[test]
fn perspective_construction() {
    let p = PerspectiveProjection::new(Angle::Degrees(90i64), 2, 1, 100);
    assert_eq!(p.fovy, Angle::Degrees(90));
    assert_eq!((p.aspect, p.near, p.far), (2, 1, 100));
    assert_eq!(p.fovy.raw_value(), 90);
    assert_eq!(Angle::Radians(3i64).raw_value(), 3);
    assert!(Angle::Radians(1i64) != Angle::Degrees(1i64));
}
