use vecto_rs::vec::{vector3, Vector, Vector4, VectorTrait};

#[test]
fn vector_new2_new3() {
    let v = Vector::new2(3, 4);
    assert_eq!((v.x, v.y, v.z), (3, 4, 0));
    let w = Vector::new3(3, 4, 5);
    assert_eq!((w.x, w.y, w.z), (3, 4, 5));
    assert_eq!(vector3(1, 2, 3), Vector::new3(1, 2, 3));
    assert_eq!(Vector::default(), Vector::new2(0, 0));
}

#[test]
fn vector_cmp_componentwise() {
    assert!(Vector::new3(0, 0, 0) < Vector::new3(1, 1, 1));
    assert!(!(Vector::new3(0, 0, 0) > Vector::new3(1, 1, 1)));
    assert!(!(Vector::new3(0, 0, 1) < Vector::new3(0, 1, 0)));
    assert!(Vector::new3(5, 0, 1) == Vector::new3(5, 0, 1));
    assert_eq!(
        Vector::new3(0, 0, 0).partial_cmp(&Vector::new3(0, 0, 0)),
        Some(std::cmp::Ordering::Equal)
    );
    assert_eq!(Vector::new3(0, 2, 0).partial_cmp(&Vector::new3(1, 1, 1)), None);
}

#[test]
fn vector_from_tuples() {
    assert_eq!(Vector::from((3, 4)), Vector::new2(3, 4));
    assert_eq!(Vector::from((3, 4, 5)), Vector::new3(3, 4, 5));
}

#[test]
fn vector_cross_and_sum() {
    let x = Vector::new3(1, 0, 0);
    let y = Vector::new3(0, 1, 0);
    assert_eq!(Vector::cross(&x, &y), Vector::new3(0, 0, 1));
    assert_eq!(Vector::cross(&y, &x), Vector::new3(0, 0, -1));
    assert_eq!(Vector::new3(1, 2, 3).sum(), 6);
}

#[test]
fn vector_clamp() {
    let min = Vector::new2(0, 0);
    let max = Vector::new2(5, 5);
    assert_eq!(Vector::new2(7, -2).clamp(min, max), Vector::new2(5, 0));
    assert_eq!(Vector::new2(3, 4).clamp(min, max), Vector::new2(3, 4));
}

#[test]
fn vec4_new() {
    let v = Vector4::new4(1, 2, 3, 4);
    assert_eq!((v.x, v.y, v.z, v.w), (1, 2, 3, 4));
    let v2 = Vector4::new2(1, 2);
    assert_eq!((v2.z, v2.w), (0, 0));
    let v3 = Vector4::new3(1, 2, 3);
    assert_eq!(v3.w, 0);
    assert_eq!(Vector4::new4(1, 2, 3, 4).sum(), 10);
}

fn total<V: VectorTrait>(v: &V) -> i64 {
    v.sum()
}

#[test]
fn vector_trait_shared_interface() {
    // the two vector types agree through the common trait
    assert_eq!(<Vector as VectorTrait>::new2(2, 3), Vector::new2(2, 3));
    assert_eq!(<Vector4 as VectorTrait>::new3(1, 2, 3), Vector4::new3(1, 2, 3));
    assert_eq!(total(&Vector::new3(1, 2, 3)), 6);
    assert_eq!(total(&Vector4::new4(1, 2, 3, 4)), 10);
}

#[test]
fn vec4_cmp() {
    assert!(Vector4::new4(0, 0, 0, 0) < Vector4::new4(1, 1, 1, 1));
    assert!(!(Vector4::new4(0, 0, 0, 2) < Vector4::new4(1, 1, 1, 1)));
    assert_eq!(
        Vector4::new4(0, 2, 0, 0).partial_cmp(&Vector4::new4(1, 1, 1, 1)),
        None
    );
}

#[test]
fn clamp() {
    let min = Vector4::new2(0, 0);
    let max = Vector4::new2(5, 5);

    let a = Vector4::new2(5, 6);
    let b = Vector4::new2(5, -5);

    assert_eq!(a.clamp(min, max), Vector4::new2(5, 5));
    assert_eq!(b.clamp(min, max), Vector4::new2(5, 0));
}
