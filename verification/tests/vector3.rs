use vecto_rs::vector::{vec3, Vector3};

#[test]
fn test_tuples() {
    let v: Vector3<f32> = Vector3::from_tuple(&(0., 1., 2.));
    assert_eq!(v.to_tuple(), (0., 1., 2.));
}

#[test]
fn vector3_construction() {
    let v = vec3(4i64, 5, 6);
    assert_eq!(v, Vector3::new(4, 5, 6));
    assert_eq!(Vector3::from_one(9i64), Vector3::new(9, 9, 9));
}

#[test]
fn vector3_magnitude_sq() {
    let v: Vector3<i64> = Vector3::new(0, 1, 2);
    let zero: Vector3<i64> = Vector3::new(0, 0, 0);
    assert_eq!(v.magnitude_sq(), 5);
    assert_eq!(v.dist_sq(&zero), 5);
    assert_eq!(Vector3::new(3i64, 4, 0).magnitude_sq(), 25);
}

#[test]
fn vector3_products() {
    let a: Vector3<i64> = Vector3::new(1, 0, 0);
    let b: Vector3<i64> = Vector3::new(0, 1, 0);
    assert_eq!(a.dot(&b), 0);
    assert_eq!(a.cross(&b), Vector3::new(0, 0, 1));
    assert_eq!(b.cross(&a), Vector3::new(0, 0, -1));
    assert_eq!(Vector3::new(2i64, 3, 4).dot(&Vector3::new(5, 6, 7)), 56);
}

#[test]
fn vector3_lerp() {
    let a: Vector3<i64> = Vector3::new(1, 2, 3);
    let b: Vector3<i64> = Vector3::new(3, 2, 1);
    // the blend is t * (a + b) on each component
    assert_eq!(a.lerp(&b, 2), Vector3::new(8, 8, 8));
}
