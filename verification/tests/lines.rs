use vecto_rs::line::Line;
use vecto_rs::vec::Vector;

#[test]
fn edge() {
    let a = Line(Vector::new2(0, 0), Vector::new2(0, 5));
    let b = Line(Vector::new2(0, 0), Vector::new2(0, 5));
    let c = Line(Vector::new2(0, 0), Vector::new2(0, 5));

    assert!(a.edge_function(Vector::new2(5, 0)) > 0);
    assert!(b.edge_function(Vector::new2(-5, 0)) < 0);
    assert!(c.edge_function(Vector::new2(0, 0)) == 0);
}

#[test]
fn edge_exact_value() {
    // twice the signed area of the triangle (0,0), (4,0), (0,3)
    let l = Line(Vector::new2(0, 0), Vector::new2(4, 0));
    assert_eq!(l.edge_function(Vector::new2(0, 3)), -12);
    assert_eq!(l.edge_function(Vector::new2(7, 0)), 0);
}
