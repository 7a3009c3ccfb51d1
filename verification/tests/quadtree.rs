use vecto_rs::bounding_box::AABB;
use vecto_rs::quadtree::{QuadError, QuadTree};
use vecto_rs::vec::Vector;

fn tree_500<T>(max_values: usize, border: i64, depth: u32) -> QuadTree<T> {
    QuadTree::new(
        AABB::new(Vector::new2(0, 0), Vector::new2(500, 500)),
        max_values,
        border,
        depth,
    )
}

#[test]
fn quadtree_simple() {
    let mut tree: QuadTree<bool> = tree_500(80, 0, 10);

    for i in 0..100i64 {
        let _ = tree.add((i % 2) == 0, Vector::new2(i % 500, i % 500));
    }

    let cell = tree.query(Vector::new2(230, 230));

    println!("{}", cell.len());
    for c in cell {
        println!("{:?}: {}", c.0, c.1);
    }

    for i in 0..100i64 {
        tree.remove(Vector::new2(i % 500, i % 500));
    }

    tree.prune();
}

// The containment property: an entry that was added and not removed is
// found again by value, at the point it was stored at.
#[test]
fn find_reports_stored_point() {
    let mut tree: QuadTree<u32> = tree_500(4, 0, 10);
    for i in 0..50i64 {
        tree.add(i as u32, Vector::new2(i * 7 % 500, i * 13 % 500)).unwrap();
    }
    for i in 0..50i64 {
        assert_eq!(
            tree.find(i as u32),
            Some(Vector::new2(i * 7 % 500, i * 13 % 500))
        );
    }
    assert_eq!(tree.find(1234), None);
}

// Insert/remove inverse: adding at a fresh point and removing that point
// gives the pair back and leaves the entry count unchanged.
#[test]
fn add_remove_inverse() {
    let mut tree: QuadTree<&str> = tree_500(3, 0, 5);
    tree.add("a", Vector::new2(10, 10)).unwrap();
    tree.add("b", Vector::new2(400, 60)).unwrap();
    let before = tree.len();

    tree.add("c", Vector::new2(123, 321)).unwrap();
    assert_eq!(
        tree.remove(Vector::new2(123, 321)),
        Some((Vector::new2(123, 321), "c"))
    );
    assert_eq!(tree.len(), before);
    assert_eq!(tree.find("c"), None);
}

// Capacity-triggered subdivision: one entry over capacity converts the
// root leaf into a branch, conserving every entry.
#[test]
fn capacity_triggers_subdivision() {
    let mut tree: QuadTree<i64> = tree_500(80, 0, 10);
    for i in 0..80i64 {
        tree.add(i, Vector::new2(i * 6 % 500, i * 7 % 500)).unwrap();
        assert!(tree.is_leaf());
    }
    assert_eq!(tree.len(), 80);
    tree.add(80, Vector::new2(480, 60)).unwrap();
    assert!(!tree.is_leaf());
    assert_eq!(tree.len(), 81);
    for i in 0..81i64 {
        assert_eq!(tree.find(i), Some(Vector::new2(i * 6 % 500, i * 7 % 500)));
    }
}

// Depth cap: clustered points subdivide only `max_depth` times, and the
// bottomed-out leaf then holds arbitrarily many entries.
#[test]
fn depth_cap_respected() {
    let mut tree: QuadTree<i64> = tree_500(20, 0, 2);
    for i in 0..500i64 {
        tree.add(i, Vector::new2(i % 10, (i / 10) % 10)).unwrap();
    }
    assert_eq!(tree.len(), 500);
    // with max_depth = 2 every cluster point lands in one 125-wide leaf
    let cell = tree.query(Vector::new2(0, 0));
    assert_eq!(cell.len(), 500);
}

// A tree built with max_depth = 0 never subdivides at all.
#[test]
fn zero_depth_never_subdivides() {
    let mut tree: QuadTree<i64> = tree_500(2, 0, 0);
    for i in 0..50i64 {
        tree.add(i, Vector::new2(i, i)).unwrap();
    }
    assert!(tree.is_leaf());
    assert_eq!(tree.query(Vector::new2(480, 20)).len(), 50);
}

// Prune is the inverse of subdivide for a small population: once the
// children jointly hold fewer than max_values entries, prune collapses
// them into one leaf holding exactly the union.
#[test]
fn prune_inverse_of_subdivide() {
    let mut tree: QuadTree<i64> = tree_500(4, 0, 10);
    for i in 0..5i64 {
        tree.add(i, Vector::new2(i * 90 + 5, i * 90 + 5)).unwrap();
    }
    assert!(!tree.is_leaf());
    assert_eq!(tree.remove(Vector::new2(365, 365)), Some((Vector::new2(365, 365), 4)));
    assert_eq!(tree.remove(Vector::new2(275, 275)), Some((Vector::new2(275, 275), 3)));
    // three entries remain, fewer than the capacity of four
    tree.prune();
    assert!(tree.is_leaf());
    assert_eq!(tree.len(), 3);
    let cell = tree.query(Vector::new2(5, 5));
    let mut values: Vec<i64> = cell.iter().map(|e| e.1).collect();
    values.sort();
    assert_eq!(values, vec![0, 1, 2]);
}

// Query correctness: every value stored at a queried point is in the
// answer; a point in an untouched region reports an empty cell.
#[test]
fn query_returns_stored_values() {
    let mut tree: QuadTree<i64> = tree_500(2, 0, 10);
    for i in 0..40i64 {
        tree.add(i, Vector::new2(i * 11 % 500, i * 3 % 500)).unwrap();
    }
    for i in 0..40i64 {
        let p = Vector::new2(i * 11 % 500, i * 3 % 500);
        let cell = tree.query_no_mut(p);
        assert!(cell.contains(&(p, i)));
    }
    let empty: QuadTree<i64> = tree_500(2, 0, 10);
    assert_eq!(empty.query_no_mut(Vector::new2(250, 250)), vec![]);
}

// The concrete 100-diagonal-points scenario, asserted against the counts
// this routing policy produces: the subdivision cascade packs the
// diagonal into leaves near the origin, so the cell at (230, 230) is
// empty, and after removing everything, prune collapses the tree back to
// one empty leaf.
#[test]
fn scenario_diagonal_points() {
    let mut tree: QuadTree<bool> = tree_500(80, 0, 10);
    for i in 0..100i64 {
        tree.add((i % 2) == 0, Vector::new2(i % 500, i % 500)).unwrap();
    }
    assert_eq!(tree.len(), 100);
    assert_eq!(tree.query(Vector::new2(230, 230)).len(), 0);
    for i in 0..100i64 {
        assert!(tree.remove(Vector::new2(i % 500, i % 500)).is_some());
    }
    assert_eq!(tree.len(), 0);
    tree.prune();
    assert!(tree.is_leaf());
    assert_eq!(tree.len(), 0);
    assert_eq!(tree.query(Vector::new2(230, 230)).len(), 0);
}

// The concrete colinear scenario, asserted against the literal counts
// this routing policy produces: the 81st point already subdivides, the
// line ends up split 63/37 across the two deepest leaves, and the extra
// point at (0, 1) joins the 63 to make a cell of 64.
#[test]
fn scenario_colinear_points() {
    let mut tree: QuadTree<i64> = tree_500(80, 0, 10);
    for i in 0..100i64 {
        tree.add(i, Vector::new2(i, 0)).unwrap();
    }
    assert_eq!(tree.query(Vector::new2(50, 0)).len(), 63);
    tree.add(1000, Vector::new2(0, 1)).unwrap();
    let cell = tree.query(Vector::new2(0, 0));
    assert_eq!(cell.len(), 64);
    assert!(cell.len() < tree.len());
    assert_eq!(tree.len(), 101);
}

// Every failure case of the fallible operations.
#[test]
fn error_cases() {
    let mut tree: QuadTree<i64> = tree_500(4, 0, 4);
    assert_eq!(tree.add(7, Vector::new2(501, 10)), Err(QuadError::OutOfBounds));
    assert_eq!(tree.add(7, Vector::new2(-1, 10)), Err(QuadError::OutOfBounds));
    assert_eq!(tree.insert(7, Vector::new2(10, 600)), Err(QuadError::OutOfBounds));
    assert_eq!(tree.len(), 0);

    tree.add(7, Vector::new2(10, 10)).unwrap();
    assert_eq!(
        tree.change_pos(Vector::new2(10, 10), Vector::new2(700, 700)),
        Err(QuadError::OutOfBounds)
    );
    assert_eq!(
        tree.change_pos(Vector::new2(11, 11), Vector::new2(20, 20)),
        Err(QuadError::NotFound)
    );
    assert_eq!(tree.change_pos(Vector::new2(10, 10), Vector::new2(20, 20)), Ok(()));
    assert_eq!(tree.find(7), Some(Vector::new2(20, 20)));
    assert_eq!(tree.remove(Vector::new2(10, 10)), None);
}

// The border inflates every routing box, so points slightly outside the
// configured region are still accepted.
#[test]
fn border_widens_the_domain() {
    let mut tree: QuadTree<i64> = QuadTree::new(
        AABB::new(Vector::new2(0, 0), Vector::new2(100, 100)),
        4,
        10,
        4,
    );
    assert_eq!(tree.add(1, Vector::new2(-5, 50)), Ok(()));
    assert_eq!(tree.add(2, Vector::new2(105, 50)), Ok(()));
    assert_eq!(tree.add(3, Vector::new2(-6, 50)), Err(QuadError::OutOfBounds));
    assert_eq!(tree.find(1), Some(Vector::new2(-5, 50)));
}

// Duplicate positions: removal takes the first stored entry at the
// point, one per call.
#[test]
fn duplicate_points_remove_in_order() {
    let mut tree: QuadTree<&str> = tree_500(8, 0, 3);
    tree.add("first", Vector::new2(42, 42)).unwrap();
    tree.add("second", Vector::new2(42, 42)).unwrap();
    assert_eq!(tree.remove(Vector::new2(42, 42)), Some((Vector::new2(42, 42), "first")));
    assert_eq!(tree.remove(Vector::new2(42, 42)), Some((Vector::new2(42, 42), "second")));
    assert_eq!(tree.remove(Vector::new2(42, 42)), None);
}
