use vecto_rs::mat3::Mat3;
use vecto_rs::vec::Vector;

#[test]
fn mat3_clone() {
    let mat3 = Mat3::from_array([1, 2, 3, 4, 5, 6, 7, 8, 9]);

    assert_eq!(mat3, mat3.clone());
}

#[test]
fn mat3_default() {
    let mat3 = Mat3::default();

    assert_eq!(mat3, Mat3::new());
}

#[test]
fn mat3_partial_eq() {
    let mat3 = Mat3::default();

    assert!(mat3 == Mat3::new());
}

#[test]
fn mat3_debug() {
    let mat3 = Mat3::default();

    println!("{:#?}", mat3);
}

#[test]
fn mat3_new() {
    let mat3 = Mat3::new();
    for i in mat3.get_contents() {
        if i != 0 {
            panic!();
        }
    }
}

#[test]
fn mat3_identity() {
    let mat3 = Mat3::identity();
    assert_eq!(mat3.get(0, 0), 1);
    assert_eq!(mat3.get(1, 1), 1);
    assert_eq!(mat3.get(2, 2), 1);
}

#[test]
fn mat3_transpose() {
    let mat3 = Mat3::from_array([1, 2, 3, 4, 5, 6, 7, 8, 9]);

    let mat3_transposed = Mat3::from_array([1, 4, 7, 2, 5, 8, 3, 6, 9]);

    assert_eq!(mat3.transpose(), mat3_transposed);
}

#[test]
fn mat3_change() {
    let mut mat3 = Mat3::from_array([1, 2, 3, 4, 5, 6, 7, 8, 9]);

    let mat3_expected = Mat3::from_array([1, 2, 3, 4, 6, 6, 7, 8, 9]);

    mat3.change(1, 1, 6);

    assert_eq!(mat3, mat3_expected);
}

#[test]
fn mat3_rows_cols_and_coords() {
    let m = Mat3::from_array([1, 2, 3, 4, 5, 6, 7, 8, 9]);
    assert_eq!(m.get_row(0), Vector::new3(1, 2, 3));
    assert_eq!(m.get_col(0), Vector::new3(1, 4, 7));
    assert_eq!(m.get_row_major(), m);
    assert_eq!(m.get_column_major(), m.transpose());
    assert_eq!(Mat3::index(2, 1), 5);
    assert_eq!(Mat3::coords(5), (2, 1));
    assert_eq!(m.to_vec3(), Vector::new3(6, 15, 24));
}

#[test]
fn mat3_mul_exact() {
    let a = Mat3::from_array([1, 2, 3, 4, 5, 6, 7, 8, 9]);
    let identity = Mat3::identity();
    assert_eq!(a.mul_mat3(&identity), a);
    assert_eq!(identity.mul_mat3(&a), a);

    let b = Mat3::from_array([9, 8, 7, 6, 5, 4, 3, 2, 1]);
    // row-major product of the two
    assert_eq!(
        a.mul_mat3(&b),
        Mat3::from_array([30, 24, 18, 84, 69, 54, 138, 114, 90])
    );
}

#[test]
fn mat3_from_vec_and_scale() {
    let d = Mat3::from_vec(&Vector::new3(2, 3, 4));
    assert_eq!(d, Mat3::from_array([2, 0, 0, 0, 3, 0, 0, 0, 4]));

    let mut m = Mat3::from_array([1, 1, 1, 1, 1, 1, 1, 1, 1]);
    m.scale(Vector::new3(2, 3, 4));
    assert_eq!(m, Mat3::from_array([2, 2, 2, 3, 3, 3, 4, 4, 4]));
}
