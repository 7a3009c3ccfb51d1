use vecto_rs::bounding_box::AABB;
use vecto_rs::vec::Vector;

#[test]
fn aabb_new() {
    let start = Vector::new2(0, 0);
    let size = Vector::new2(5, 5);

    let aabb = AABB::new(start, size);

    assert_eq!(aabb.start, start);
    assert_eq!(aabb.size, size);
}

#[test]
fn aabb_point_inside() {
    let aabb = AABB::new(Vector::new2(0, 0), Vector::new2(5, 5));
    assert!(aabb.point_inside(Vector::new2(2, 2)));
    assert!(aabb.point_inside(Vector::new2(0, 0)));
    assert!(aabb.point_inside(Vector::new2(5, 5)));
    assert!(!aabb.point_inside(Vector::new2(6, 2)));
    assert!(!aabb.point_inside(Vector::new2(2, -1)));
    assert!(!aabb.point_inside(Vector::new3(2, 2, 1)));
}

#[test]
fn aabb_intersection() {
    let a = AABB::new(Vector::new2(0, 0), Vector::new2(5, 5));
    let b = AABB::new(Vector::new2(3, 0), Vector::new2(5, 5));
    let c = AABB::new(Vector::new2(6, 0), Vector::new2(5, 5));

    assert!(a.intersection(b));
    assert!(b.intersection(a));
    assert!(!a.intersection(c));
    // boxes touching at an edge count as intersecting (closed boxes)
    assert!(a.intersection(AABB::new(Vector::new2(5, 0), Vector::new2(5, 5))));
}
