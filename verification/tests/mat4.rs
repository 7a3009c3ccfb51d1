use vecto_rs::mat4::Mat4;
use vecto_rs::vector::Vector3;

#[test]
fn identity_mul() {
    let identity: Mat4 = Mat4::identity();
    let abc = Mat4::new([
        0, 1, 5, 3, 10, 12, 19123, 16, -123, 11416534, 12312, 16, -123, 123, 4687567, 123,
    ]);

    assert_eq!(identity.mul_mat(&abc), abc);
    assert_eq!(abc.mul_mat(&identity), abc);
    assert_eq!(identity.mul_mat(&identity), identity);
}

#[test]
fn mat4_transpose() {
    let m = Mat4::new([1, 2, 3, 4, 5, 6, 7, 8, 9, 10, 11, 12, 13, 14, 15, 16]);
    let t = m.transpose();
    assert_eq!(
        t.get_contents(),
        [1, 5, 9, 13, 2, 6, 10, 14, 3, 7, 11, 15, 4, 8, 12, 16]
    );
    assert_eq!(t.transpose(), m);
}

#[test]
fn mat4_scaling_and_translation() {
    let s = Mat4::scaling(3);
    assert_eq!(
        s.get_contents(),
        [3, 0, 0, 0, 0, 3, 0, 0, 0, 0, 3, 0, 0, 0, 0, 1]
    );
    let t = Mat4::translation_matrix(Vector3::new(7, 8, 9));
    assert_eq!(
        t.get_contents(),
        [1, 0, 0, 0, 0, 1, 0, 0, 0, 0, 1, 0, 7, 8, 9, 1]
    );
    let mut m = Mat4::identity();
    m.translate(Vector3::new(10, 2, 3));
    assert_eq!(m, Mat4::translation_matrix(Vector3::new(10, 2, 3)));
}

#[test]
fn mat4_mul_exact() {
    let a = Mat4::new([1, 2, 3, 4, 5, 6, 7, 8, 9, 10, 11, 12, 13, 14, 15, 16]);
    let b = Mat4::new([
        17, 18, 19, 20, 21, 22, 23, 24, 25, 26, 27, 28, 29, 30, 31, 32,
    ]);
    let c = a.mul_mat(&b);
    // column-major: the first column of the product is a applied to
    // (17, 18, 19, 20)
    assert_eq!(
        c.get_contents(),
        [
            538, 612, 686, 760, 650, 740, 830, 920, 762, 868, 974, 1080, 874, 996, 1118, 1240,
        ]
    );
}

#[test]
fn mat4_inverse_identity() {
    let identity = Mat4::identity();
    assert_eq!(identity.inverse(), Some(identity));
}

#[test]
fn mat4_inverse_singular() {
    let zero = Mat4::new([0; 16]);
    assert_eq!(zero.inverse(), None);
}

#[test]
fn mat4_inverse_negated_identity() {
    // determinant 1: the negated identity is its own inverse
    let m = Mat4::new([-1, 0, 0, 0, 0, -1, 0, 0, 0, 0, -1, 0, 0, 0, 0, -1]);
    assert_eq!(m.inverse(), Some(m));
}

#[test]
fn mat4_inverse_scaled() {
    // determinant 16, so the integer reciprocal is zero everywhere
    let m = Mat4::scaling(2);
    let m2 = Mat4::new([2, 0, 0, 0, 0, 2, 0, 0, 0, 0, 2, 0, 0, 0, 0, 2]);
    assert_eq!(m2.inverse(), Some(Mat4::new([0; 16])));
    assert!(m.inverse().is_some());
}

#[test]
fn mat4_inverse_translation() {
    // determinant 1: translation inverts to the opposite translation
    let t = Mat4::translation_matrix(Vector3::new(4, -5, 6));
    assert_eq!(
        t.inverse(),
        Some(Mat4::translation_matrix(Vector3::new(-4, 5, -6)))
    );
}
