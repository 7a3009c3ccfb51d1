use vecto_rs::triangles::{Triangle, TriangleEdge};
use vecto_rs::vec::Vector;

#[test]
fn triangles_new() {
    let a = Vector::new2(0, 0);
    let b = Vector::new2(0, 5);
    let c = Vector::new2(5, 0);

    let tri = Triangle::new(a, b, c);

    assert_eq!(a, tri.a);
    assert_eq!(b, tri.b);
    assert_eq!(c, tri.c);
}

#[test]
fn triangle_edge_names_exist() {
    // the three edge descriptors are plain tags
    let edges = [TriangleEdge::AB, TriangleEdge::BC, TriangleEdge::CA];
    assert!(matches!(edges[0], TriangleEdge::AB));
    assert!(matches!(edges[1], TriangleEdge::BC));
    assert!(matches!(edges[2], TriangleEdge::CA));
}

#[test]
fn triangle_point_inside() {
    // wound so the edge functions are positive on the inside
    let tri = Triangle::new(Vector::new2(0, 0), Vector::new2(0, 10), Vector::new2(10, 0));
    assert!(tri.point_inside_triangle(Vector::new2(2, 2)));
    assert!(!tri.point_inside_triangle(Vector::new2(9, 9)));
    assert!(!tri.point_inside_triangle(Vector::new2(-1, 5)));
    // a vertex is not strictly inside
    assert!(!tri.point_inside_triangle(Vector::new2(0, 0)));
}

#[test]
fn triangle_barycentric() {
    let tri = Triangle::new(Vector::new2(0, 0), Vector::new2(0, 10), Vector::new2(10, 0));
    // at a vertex, one integer weight ratio is one and the others zero
    assert_eq!(tri.barycentric_coordinates(Vector::new2(0, 0)), Some((1, 0, 0)));
    assert_eq!(tri.barycentric_coordinates(Vector::new2(0, 10)), Some((0, 1, 0)));
    assert_eq!(tri.barycentric_coordinates(Vector::new2(10, 0)), Some((0, 0, 1)));
    // outside the triangle a weight goes negative
    assert_eq!(tri.barycentric_coordinates(Vector::new2(-1, 0)), None);
    // a degenerate (zero-area) triangle has no coordinates
    let flat = Triangle::new(Vector::new2(0, 0), Vector::new2(5, 0), Vector::new2(9, 0));
    assert_eq!(flat.barycentric_coordinates(Vector::new2(1, 0)), None);
}
