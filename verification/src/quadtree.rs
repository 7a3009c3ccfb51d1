//! A quadtree: a mutable, recursively subdividing spatial index over 2D
//! points, mapping points to caller-supplied values.
//!
//! Design, stated once and tested explicitly:
//! - A node is either a leaf (a flat list of `(point, value)` entries) or
//!   a branch with exactly four children.  A leaf appends new entries at
//!   the end and removal takes the first stored match, though a
//!   subdivision may reorder the entries it redistributes.
//! - Each node covers a rectangular region; a branch's children cover the
//!   four quadrants of that region, each inflated by half the configured
//!   border on every side, so sibling regions may overlap near the seams.
//! - Routing is exclusive, first match wins: an operation descends into the
//!   first child (in fixed order) whose inflated box contains the point, so
//!   every entry lives in exactly one leaf and nothing is ever duplicated.
//! - A leaf that grows beyond `max_values` entries subdivides, re-adding its
//!   entries recursively, unless its remaining depth budget is exhausted; a
//!   bottomed-out leaf may hold arbitrarily many entries.
//! - `prune` converts a branch whose subtree holds fewer than `max_values`
//!   entries back into a single leaf.
//! - Every operation is proved to terminate: descent spends the depth
//!   budget and redistribution spends the entry count, so no geometry can
//!   send an operation into a loop.

use vstd::prelude::*;
use vstd::multiset::Multiset;
use vstd::std_specs::cmp::PartialEqSpec;
use crate::bounding_box::AABB;
use crate::vec::Vector;

verus! {

broadcast use
    vstd::multiset::group_multiset_axioms,
    vstd::seq_lib::group_to_multiset_ensures,
;

/// Largest coordinate magnitude a tree region may use; keeps every box
/// computation (quadrant splits, border inflation) inside `i64`.
pub const REGION_LIMIT: i64 = 1_000_000_000_000_000;

/// Errors reported by the fallible tree operations.
#[derive(Debug, Clone, Copy, PartialEq, Eq, Structural)]
pub enum QuadError {
    /// No entry was stored at the given point.
    NotFound,
    /// The point lies outside the tree's (border-inflated) region.
    OutOfBounds,
}

/// A single coordinate a region may use.
pub open spec fn coord_ok(c: int) -> bool {
    -REGION_LIMIT <= c <= REGION_LIMIT
}

/// A region box suitable for the tree: non-negative sizes and corners
/// within [`REGION_LIMIT`].
pub open spec fn region_ok(r: AABB) -> bool {
    &&& coord_ok(r.start.x as int) && coord_ok(r.start.x + r.size.x) && r.size.x >= 0
    &&& coord_ok(r.start.y as int) && coord_ok(r.start.y + r.size.y) && r.size.y >= 0
    &&& coord_ok(r.start.z as int) && coord_ok(r.start.z + r.size.z) && r.size.z >= 0
}

/// `bb` is `region` grown by half the border on each side of the x and y
/// axes (the z interval is kept as it is: subdivision is two-dimensional).
pub open spec fn is_inflated(region: AABB, bb: AABB, border: i64) -> bool {
    let h = border as int / 2;
    &&& bb.start.x == region.start.x - h
    &&& bb.size.x == region.size.x + 2 * h
    &&& bb.start.y == region.start.y - h
    &&& bb.size.y == region.size.y + 2 * h
    &&& bb.start.z == region.start.z
    &&& bb.size.z == region.size.z
}

/// `child` is the quadrant of `parent` selected by `qx`, `qy` (each 0 or 1,
/// counting from the minimum corner); the z interval passes through.
pub open spec fn is_quad(parent: AABB, child: AABB, qx: int, qy: int) -> bool {
    let wx = parent.size.x as int / 2;
    let wy = parent.size.y as int / 2;
    &&& child.start.x == parent.start.x + qx * wx
    &&& child.size.x == if qx == 0 { wx } else { parent.size.x - wx }
    &&& child.start.y == parent.start.y + qy * wy
    &&& child.size.y == if qy == 0 { wy } else { parent.size.y - wy }
    &&& child.start.z == parent.start.z
    &&& child.size.z == parent.size.z
}

/// The four quadrant boxes of a region, each inflated by the same border,
/// jointly cover the region's own inflated box.
proof fn lemma_quad_cover(
    region: AABB,
    bb: AABB,
    border: i64,
    r0: AABB,
    r1: AABB,
    r2: AABB,
    r3: AABB,
    b0: AABB,
    b1: AABB,
    b2: AABB,
    b3: AABB,
    p: Vector,
)
    requires
        region_ok(region),
        0 <= border,
        is_inflated(region, bb, border),
        is_quad(region, r0, 0, 0),
        is_quad(region, r1, 1, 0),
        is_quad(region, r2, 0, 1),
        is_quad(region, r3, 1, 1),
        is_inflated(r0, b0, border),
        is_inflated(r1, b1, border),
        is_inflated(r2, b2, border),
        is_inflated(r3, b3, border),
        bb.contains(p),
    ensures
        b0.contains(p) || b1.contains(p) || b2.contains(p) || b3.contains(p),
{
    let h = border as int / 2;
    let wx = region.size.x as int / 2;
    let wy = region.size.y as int / 2;
    assert(0 <= h && 2 * h <= border);
    assert(0 <= wx && 2 * wx <= region.size.x);
    assert(0 <= wy && 2 * wy <= region.size.y);
    if p.x <= region.start.x + wx + h {
        if p.y <= region.start.y + wy + h {
            assert(b0.contains(p));
        } else {
            assert(b2.contains(p));
        }
    } else {
        if p.y <= region.start.y + wy + h {
            assert(b1.contains(p));
        } else {
            assert(b3.contains(p));
        }
    }
}

/// The first entry of `s` stored exactly at point `p`, if any.
pub open spec fn first_at<T>(s: Seq<(Vector, T)>, p: Vector) -> Option<(Vector, T)>
    decreases s.len(),
{
    if s.len() == 0 {
        None
    } else if s[0].0 == p {
        Some(s[0])
    } else {
        first_at(s.drop_first(), p)
    }
}

/// What `first_at` returns: the entry at the first matching index, or
/// `None` exactly when no index matches.
proof fn lemma_first_at_props<T>(s: Seq<(Vector, T)>, p: Vector)
    ensures
        match first_at(s, p) {
            None => forall|j: int| 0 <= j < s.len() ==> (#[trigger] s[j]).0 != p,
            Some(e) => exists|i: int|
                {
                    &&& 0 <= i < s.len()
                    &&& s[i] == e
                    &&& e.0 == p
                    &&& forall|j: int| 0 <= j < i ==> (#[trigger] s[j]).0 != p
                },
        },
    decreases s.len(),
{
    if s.len() == 0 {
    } else if s[0].0 == p {
        assert(s[0] == first_at(s, p)->Some_0);
    } else {
        lemma_first_at_props(s.drop_first(), p);
        match first_at(s.drop_first(), p) {
            None => {
                assert forall|j: int| 0 <= j < s.len() implies (#[trigger] s[j]).0 != p by {
                    if j > 0 {
                        assert(s.drop_first()[j - 1] == s[j]);
                    }
                }
            },
            Some(e) => {
                let i = choose|i: int|
                    {
                        &&& 0 <= i < s.drop_first().len()
                        &&& s.drop_first()[i] == e
                        &&& e.0 == p
                        &&& forall|j: int| 0 <= j < i ==> (#[trigger] s.drop_first()[j]).0 != p
                    };
                assert(s[i + 1] == e);
                assert forall|j: int| 0 <= j < i + 1 implies (#[trigger] s[j]).0 != p by {
                    if j > 0 {
                        assert(s.drop_first()[j - 1] == s[j]);
                    }
                }
            },
        }
    }
}

/// If index `i` is the first match in `s`, `first_at` returns `s[i]`.
proof fn lemma_first_at_index<T>(s: Seq<(Vector, T)>, p: Vector, i: int)
    requires
        0 <= i < s.len(),
        s[i].0 == p,
        forall|j: int| 0 <= j < i ==> (#[trigger] s[j]).0 != p,
    ensures
        first_at(s, p) == Some(s[i]),
    decreases i,
{
    if i == 0 {
    } else {
        assert(s[0].0 != p);
        assert forall|j: int| 0 <= j < i - 1 implies (#[trigger] s.drop_first()[j]).0 != p by {
            assert(s.drop_first()[j] == s[j + 1]);
        }
        assert(s.drop_first()[i - 1] == s[i]);
        lemma_first_at_index(s.drop_first(), p, i - 1);
    }
}

/// The point of the first entry of `s` whose value compares equal to `v`
/// (in the sense of `T`'s equality specification), if any.
pub open spec fn first_val<T: PartialEq>(s: Seq<(Vector, T)>, v: T) -> Option<Vector>
    decreases s.len(),
{
    if s.len() == 0 {
        None
    } else if s[0].1.eq_spec(&v) {
        Some(s[0].0)
    } else {
        first_val(s.drop_first(), v)
    }
}

/// What `first_val` returns: a point whose entry matches, or `None`
/// exactly when no entry of the sequence matches.
proof fn lemma_first_val_props<T: PartialEq>(s: Seq<(Vector, T)>, v: T)
    ensures
        match first_val(s, v) {
            None => forall|j: int| 0 <= j < s.len() ==> !(#[trigger] s[j]).1.eq_spec(&v),
            Some(q) => exists|i: int|
                0 <= i < s.len() && (#[trigger] s[i]).0 == q && s[i].1.eq_spec(&v),
        },
    decreases s.len(),
{
    if s.len() == 0 {
    } else if s[0].1.eq_spec(&v) {
    } else {
        lemma_first_val_props(s.drop_first(), v);
        match first_val(s.drop_first(), v) {
            None => {
                assert forall|j: int| 0 <= j < s.len() implies !(#[trigger] s[j]).1.eq_spec(
                    &v,
                ) by {
                    if j > 0 {
                        assert(s.drop_first()[j - 1] == s[j]);
                    }
                }
            },
            Some(q) => {
                let i = choose|i: int|
                    0 <= i < s.drop_first().len() && (#[trigger] s.drop_first()[i]).0 == q
                        && s.drop_first()[i].1.eq_spec(&v);
                assert(s[i + 1] == s.drop_first()[i]);
            },
        }
    }
}

/// If index `i` of `s` is the first value match, `first_val` returns its
/// point.
proof fn lemma_first_val_index<T: PartialEq>(s: Seq<(Vector, T)>, v: T, i: int)
    requires
        0 <= i < s.len(),
        s[i].1.eq_spec(&v),
        forall|j: int| 0 <= j < i ==> !(#[trigger] s[j]).1.eq_spec(&v),
    ensures
        first_val(s, v) == Some(s[i].0),
    decreases i,
{
    if i == 0 {
    } else {
        assert(!s[0].1.eq_spec(&v));
        assert forall|j: int| 0 <= j < i - 1 implies !(#[trigger] s.drop_first()[j]).1.eq_spec(
            &v,
        ) by {
            assert(s.drop_first()[j] == s[j + 1]);
        }
        assert(s.drop_first()[i - 1] == s[i]);
        lemma_first_val_index(s.drop_first(), v, i - 1);
    }
}

/// One node of the tree: a leaf list of entries, or four children.
pub struct QuadBranch<T> {
    branches: Option<Box<(QuadBranch<T>, QuadBranch<T>, QuadBranch<T>, QuadBranch<T>)>>,
    contents: Vec<(Vector, T)>,
    region: AABB,
    bb: AABB,
    depth: u32,
}

impl<T> QuadBranch<T> {
    /// Every entry stored in this subtree, as a multiset of pairs.
    pub closed spec fn entries(self) -> Multiset<(Vector, T)>
        decreases self,
    {
        match self.branches {
            None => self.contents@.to_multiset(),
            Some(bx) => bx.0.entries().add(bx.1.entries()).add(bx.2.entries()).add(
                bx.3.entries(),
            ),
        }
    }

    /// This node holds its entries directly (it has no children).
    pub closed spec fn is_leaf_spec(self) -> bool {
        self.branches is None
    }

    /// The un-inflated region this node is responsible for.
    pub closed spec fn region_spec(self) -> AABB {
        self.region
    }

    /// The border-inflated box used for routing decisions.
    pub closed spec fn bb_spec(self) -> AABB {
        self.bb
    }

    /// How many further subdivisions are allowed below this node.
    pub closed spec fn depth_spec(self) -> u32 {
        self.depth
    }

    /// Structural well-formedness: geometry of the boxes, the capacity
    /// rule for leaves, and exclusive first-match routing for branches.
    pub closed spec fn wf(self, border: i64, max_values: usize) -> bool
        decreases self,
    {
        &&& region_ok(self.region)
        &&& 0 <= border <= REGION_LIMIT
        &&& is_inflated(self.region, self.bb, border)
        &&& match self.branches {
            None => {
                &&& forall|i: int|
                    0 <= i < self.contents@.len() ==> self.bb.contains(
                        #[trigger] self.contents@[i].0,
                    )
                &&& self.contents@.len() <= max_values || self.depth == 0
            },
            Some(bx) => {
                &&& self.contents@.len() == 0
                &&& self.depth >= 1
                &&& bx.0.depth == self.depth - 1
                &&& bx.1.depth == self.depth - 1
                &&& bx.2.depth == self.depth - 1
                &&& bx.3.depth == self.depth - 1
                &&& is_quad(self.region, bx.0.region, 0, 0)
                &&& is_quad(self.region, bx.1.region, 1, 0)
                &&& is_quad(self.region, bx.2.region, 0, 1)
                &&& is_quad(self.region, bx.3.region, 1, 1)
                &&& bx.0.wf(border, max_values)
                &&& bx.1.wf(border, max_values)
                &&& bx.2.wf(border, max_values)
                &&& bx.3.wf(border, max_values)
                &&& forall|e: (Vector, T)|
                    bx.1.entries().count(e) > 0 ==> !(#[trigger] bx.0.bb.contains(e.0))
                &&& forall|e: (Vector, T)| #[trigger]
                    bx.2.entries().count(e) > 0 ==> !bx.0.bb.contains(e.0) && !bx.1.bb.contains(
                        e.0,
                    )
                &&& forall|e: (Vector, T)| #[trigger]
                    bx.3.entries().count(e) > 0 ==> !bx.0.bb.contains(e.0) && !bx.1.bb.contains(
                        e.0,
                    ) && !bx.2.bb.contains(e.0)
            },
        }
    }

    /// Number of subdivision levels below this node, plus one.
    pub closed spec fn height(self) -> nat
        decreases self,
    {
        match self.branches {
            None => 1nat,
            Some(bx) => {
                let h0 = bx.0.height();
                let h1 = bx.1.height();
                let h2 = bx.2.height();
                let h3 = bx.3.height();
                let a = if h0 >= h1 { h0 } else { h1 };
                let b = if h2 >= h3 { h2 } else { h3 };
                1nat + if a >= b { a } else { b }
            },
        }
    }

    /// Create a fresh leaf node covering `region`, with `depth` further
    /// subdivisions allowed.
    pub fn new(region: AABB, border_size: i64, depth: u32) -> (node: Self)
        requires
            region_ok(region),
            0 <= border_size <= REGION_LIMIT,
        ensures
            node.entries() == Multiset::<(Vector, T)>::empty(),
            node.is_leaf_spec(),
            node.region_spec() == region,
            node.depth_spec() == depth,
            is_inflated(region, node.bb_spec(), border_size),
            forall|mv: usize| node.wf(border_size, mv),
    {
        let half = border_size / 2;
        let bb = AABB {
            start: Vector { x: region.start.x - half, y: region.start.y - half, z: region.start.z },
            size: Vector {
                x: region.size.x + 2 * half,
                y: region.size.y + 2 * half,
                z: region.size.z,
            },
        };
        let node = QuadBranch { branches: None, contents: Vec::new(), region, bb, depth };
        proof {
            assert(node.contents@.to_multiset() =~= Multiset::<(Vector, T)>::empty());
        }
        node
    }

    /// Every point of a well-formed node's routing box lies in the routing
    /// box of at least one of its four children.
    proof fn lemma_cover(self, border: i64, max_values: usize, p: Vector)
        requires
            self.wf(border, max_values),
            !self.is_leaf_spec(),
            self.bb.contains(p),
        ensures
            self.branches matches Some(bx) ==> bx.0.bb.contains(p) || bx.1.bb.contains(p)
                || bx.2.bb.contains(p) || bx.3.bb.contains(p),
    {
        let bx = self.branches->Some_0;
        assert(bx.0.wf(border, max_values) && bx.1.wf(border, max_values) && bx.2.wf(
            border,
            max_values,
        ) && bx.3.wf(border, max_values));
        lemma_quad_cover(
            self.region,
            self.bb,
            border,
            bx.0.region,
            bx.1.region,
            bx.2.region,
            bx.3.region,
            bx.0.bb,
            bx.1.bb,
            bx.2.bb,
            bx.3.bb,
            p,
        );
    }

    /// The routing box of a well-formed node supports overflow-free
    /// containment tests.
    proof fn lemma_bb_safe(self, border: i64, max_values: usize)
        requires
            self.wf(border, max_values),
        ensures
            self.bb.arith_safe(),
    {
    }

    /// Insert one entry into this subtree, routing it to the first child
    /// whose inflated box contains the point, and subdividing any leaf
    /// that outgrows `max_values` while depth remains.
    fn add_node(&mut self, point: Vector, value: T, max_values: usize, border: i64)
        requires
            old(self).wf(border, max_values),
            max_values >= 1,
            old(self).bb.contains(point),
        ensures
            final(self).wf(border, max_values),
            final(self).entries() == old(self).entries().insert((point, value)),
            final(self).region == old(self).region,
            final(self).bb == old(self).bb,
            final(self).depth == old(self).depth,
            final(self).is_leaf_spec() <==> (old(self).is_leaf_spec() && (old(
                self,
            ).entries().len() + 1 <= max_values || old(self).depth == 0)),
        decreases old(self).depth, 1int,
    {
        if self.branches.is_none() {
            let ghost old_contents = self.contents@;
            self.contents.push((point, value));
            proof {
                assert(self.contents@.to_multiset() =~= old_contents.to_multiset().insert(
                    (point, value),
                ));
                assert forall|i: int| 0 <= i < self.contents@.len() implies self.bb.contains(
                    #[trigger] self.contents@[i].0,
                ) by {
                    if i < old_contents.len() {
                        assert(old_contents[i] == self.contents@[i]);
                    }
                }
            }
            if self.contents.len() > max_values && self.depth > 0 {
                self.subdivide(max_values, border);
            }
        } else {
            let ghost pre = *self;
            proof {
                let bx = pre.branches->Some_0;
                assert(bx.0.wf(border, max_values) && bx.1.wf(border, max_values) && bx.2.wf(
                    border,
                    max_values,
                ) && bx.3.wf(border, max_values));
                bx.0.lemma_bb_safe(border, max_values);
                bx.1.lemma_bb_safe(border, max_values);
                bx.2.lemma_bb_safe(border, max_values);
            }
            let bx = self.branches.take().unwrap();
            let (mut c0, mut c1, mut c2, mut c3) = *bx;
            if c0.bb.point_inside(point) {
                c0.add_node(point, value, max_values, border);
            } else if c1.bb.point_inside(point) {
                c1.add_node(point, value, max_values, border);
            } else if c2.bb.point_inside(point) {
                c2.add_node(point, value, max_values, border);
            } else {
                proof {
                    pre.lemma_cover(border, max_values, point);
                }
                c3.add_node(point, value, max_values, border);
            }
            self.branches = Some(Box::new((c0, c1, c2, c3)));
            proof {
                assert(self.entries() =~= pre.entries().insert((point, value)));
            }
        }
    }

    /// Convert a full leaf into a branch: build four quadrant children and
    /// re-add every stored entry into them.
    fn subdivide(&mut self, max_values: usize, border: i64)
        requires
            old(self).is_leaf_spec(),
            old(self).depth >= 1,
            max_values >= 1,
            region_ok(old(self).region),
            0 <= border <= REGION_LIMIT,
            is_inflated(old(self).region, old(self).bb, border),
            forall|i: int|
                0 <= i < old(self).contents@.len() ==> old(self).bb.contains(
                    #[trigger] old(self).contents@[i].0,
                ),
        ensures
            final(self).wf(border, max_values),
            final(self).entries() == old(self).entries(),
            final(self).region == old(self).region,
            final(self).bb == old(self).bb,
            final(self).depth == old(self).depth,
            !final(self).is_leaf_spec(),
        decreases old(self).depth, 0int,
    {
        let ghost orig = *old(self);
        let size = self.region.size;
        let start = self.region.start;
        let wx = size.x / 2;
        let wy = size.y / 2;
        proof {
            assert(0 <= wx && 2 * wx <= size.x);
            assert(0 <= wy && 2 * wy <= size.y);
        }
        let r0 = AABB {
            start: Vector { x: start.x, y: start.y, z: start.z },
            size: Vector { x: wx, y: wy, z: size.z },
        };
        let r1 = AABB {
            start: Vector { x: start.x + wx, y: start.y, z: start.z },
            size: Vector { x: size.x - wx, y: wy, z: size.z },
        };
        let r2 = AABB {
            start: Vector { x: start.x, y: start.y + wy, z: start.z },
            size: Vector { x: wx, y: size.y - wy, z: size.z },
        };
        let r3 = AABB {
            start: Vector { x: start.x + wx, y: start.y + wy, z: start.z },
            size: Vector { x: size.x - wx, y: size.y - wy, z: size.z },
        };
        let d = self.depth - 1;
        let mut c0: QuadBranch<T> = QuadBranch::new(r0, border, d);
        let mut c1: QuadBranch<T> = QuadBranch::new(r1, border, d);
        let mut c2: QuadBranch<T> = QuadBranch::new(r2, border, d);
        let mut c3: QuadBranch<T> = QuadBranch::new(r3, border, d);
        proof {
            assert(c0.entries().add(c1.entries()).add(c2.entries()).add(c3.entries()).add(
                self.contents@.to_multiset(),
            ) =~= orig.entries());
        }
        while self.contents.len() > 0
            invariant
                orig == *old(self),
                self.branches is None,
                self.region == orig.region,
                self.bb == orig.bb,
                self.depth == orig.depth,
                orig.depth >= 1,
                max_values >= 1,
                region_ok(orig.region),
                0 <= border <= REGION_LIMIT,
                is_inflated(orig.region, orig.bb, border),
                c0.wf(border, max_values) && c1.wf(border, max_values) && c2.wf(
                    border,
                    max_values,
                ) && c3.wf(border, max_values),
                c0.region == r0 && c1.region == r1 && c2.region == r2 && c3.region == r3,
                c0.depth == d && c1.depth == d && c2.depth == d && c3.depth == d,
                d == orig.depth - 1,
                is_quad(orig.region, r0, 0, 0),
                is_quad(orig.region, r1, 1, 0),
                is_quad(orig.region, r2, 0, 1),
                is_quad(orig.region, r3, 1, 1),
                forall|e: (Vector, T)|
                    c1.entries().count(e) > 0 ==> !(#[trigger] c0.bb.contains(e.0)),
                forall|e: (Vector, T)| #[trigger]
                    c2.entries().count(e) > 0 ==> !c0.bb.contains(e.0) && !c1.bb.contains(e.0),
                forall|e: (Vector, T)| #[trigger]
                    c3.entries().count(e) > 0 ==> !c0.bb.contains(e.0) && !c1.bb.contains(e.0)
                        && !c2.bb.contains(e.0),
                c0.entries().add(c1.entries()).add(c2.entries()).add(c3.entries()).add(
                    self.contents@.to_multiset(),
                ) == orig.entries(),
                forall|i: int|
                    0 <= i < self.contents@.len() ==> self.bb.contains(
                        #[trigger] self.contents@[i].0,
                    ),
            decreases self.contents.len(),
        {
            let ghost pre_contents = self.contents@;
            let ghost sum_pre = c0.entries().add(c1.entries()).add(c2.entries()).add(
                c3.entries(),
            );
            let e = self.contents.pop().unwrap();
            proof {
                assert(pre_contents.drop_last() =~= pre_contents.remove(
                    pre_contents.len() - 1,
                ));
                assert(self.contents@.to_multiset() =~= pre_contents.to_multiset().remove(e));
                assert(self.bb.contains(e.0));
                c0.lemma_bb_safe(border, max_values);
                c1.lemma_bb_safe(border, max_values);
                c2.lemma_bb_safe(border, max_values);
            }
            if c0.bb.point_inside(e.0) {
                c0.add_node(e.0, e.1, max_values, border);
            } else if c1.bb.point_inside(e.0) {
                c1.add_node(e.0, e.1, max_values, border);
            } else if c2.bb.point_inside(e.0) {
                c2.add_node(e.0, e.1, max_values, border);
            } else {
                proof {
                    lemma_quad_cover(
                        orig.region,
                        orig.bb,
                        border,
                        r0,
                        r1,
                        r2,
                        r3,
                        c0.bb,
                        c1.bb,
                        c2.bb,
                        c3.bb,
                        e.0,
                    );
                }
                c3.add_node(e.0, e.1, max_values, border);
            }
            proof {
                assert(c0.entries().add(c1.entries()).add(c2.entries()).add(c3.entries())
                    =~= sum_pre.insert(e));
                assert(c0.entries().add(c1.entries()).add(c2.entries()).add(c3.entries()).add(
                    self.contents@.to_multiset(),
                ) =~= orig.entries());
            }
        }
        proof {
            assert(self.contents@.to_multiset() =~= Multiset::<(Vector, T)>::empty());
        }
        self.branches = Some(Box::new((c0, c1, c2, c3)));
        proof {
            assert(self.entries() =~= orig.entries());
        }
    }

    /// What `remove` returns and takes out: descend into the first child
    /// whose box contains the point (last child as fallback), and at the
    /// leaf take the first entry stored exactly at the point.
    pub closed spec fn remove_first_spec(self, p: Vector) -> Option<(Vector, T)>
        decreases self,
    {
        match self.branches {
            None => first_at(self.contents@, p),
            Some(bx) => if bx.0.bb.contains(p) {
                bx.0.remove_first_spec(p)
            } else if bx.1.bb.contains(p) {
                bx.1.remove_first_spec(p)
            } else if bx.2.bb.contains(p) {
                bx.2.remove_first_spec(p)
            } else {
                bx.3.remove_first_spec(p)
            },
        }
    }

    /// Every entry stored at point `p` lives in the child that the
    /// first-match routing selects for `p`; the other children hold none.
    proof fn lemma_point_entries_at_route(self, border: i64, max_values: usize, p: Vector)
        requires
            self.wf(border, max_values),
            !self.is_leaf_spec(),
        ensures
            self.branches matches Some(bx) ==> {
                let k = if bx.0.bb.contains(p) {
                    0int
                } else if bx.1.bb.contains(p) {
                    1int
                } else if bx.2.bb.contains(p) {
                    2int
                } else {
                    3int
                };
                forall|e: (Vector, T)|
                    e.0 == p ==> #[trigger] self.entries().count(e) == (if k == 0 {
                        bx.0.entries()
                    } else if k == 1 {
                        bx.1.entries()
                    } else if k == 2 {
                        bx.2.entries()
                    } else {
                        bx.3.entries()
                    }).count(e)
            },
    {
        let bx = self.branches->Some_0;
        assert(bx.0.wf(border, max_values) && bx.1.wf(border, max_values) && bx.2.wf(
            border,
            max_values,
        ) && bx.3.wf(border, max_values));
        bx.0.lemma_entries_in_bb(border, max_values);
        bx.1.lemma_entries_in_bb(border, max_values);
        bx.2.lemma_entries_in_bb(border, max_values);
        bx.3.lemma_entries_in_bb(border, max_values);
        let k = if bx.0.bb.contains(p) {
            0int
        } else if bx.1.bb.contains(p) {
            1int
        } else if bx.2.bb.contains(p) {
            2int
        } else {
            3int
        };
        assert forall|e: (Vector, T)| e.0 == p implies #[trigger] self.entries().count(e) == (
        if k == 0 {
            bx.0.entries()
        } else if k == 1 {
            bx.1.entries()
        } else if k == 2 {
            bx.2.entries()
        } else {
            bx.3.entries()
        }).count(e) by {
            if k < 3 {
                // a later child holding an entry at p would contradict
                // first-match routing, since child k's box contains p
                if bx.1.entries().count(e) > 0 && k != 1 {
                    assert(bx.1.bb.contains(p));
                }
                if bx.2.entries().count(e) > 0 && k != 2 {
                    assert(bx.2.bb.contains(p));
                }
                if bx.3.entries().count(e) > 0 && k != 3 {
                    assert(bx.3.bb.contains(p));
                }
            }
            // an earlier child cannot hold an entry at p: its box misses p
            if bx.0.entries().count(e) > 0 {
                assert(bx.0.bb.contains(p));
            }
            if bx.1.entries().count(e) > 0 {
                assert(bx.1.bb.contains(p));
            }
            if bx.2.entries().count(e) > 0 {
                assert(bx.2.bb.contains(p));
            }
        }
    }

    /// What `remove_first_spec` finds: `None` exactly when the subtree
    /// stores nothing at `p`, otherwise one of the entries stored at `p`.
    proof fn lemma_remove_spec_complete(self, border: i64, max_values: usize, p: Vector)
        requires
            self.wf(border, max_values),
        ensures
            match self.remove_first_spec(p) {
                None => forall|e: (Vector, T)| #[trigger] self.entries().count(e) > 0 ==> e.0 != p,
                Some(e) => e.0 == p && self.entries().count(e) > 0,
            },
        decreases self,
    {
        match self.branches {
            None => {
                lemma_first_at_props(self.contents@, p);
                match first_at(self.contents@, p) {
                    None => {
                        assert forall|e: (Vector, T)| #[trigger]
                            self.entries().count(e) > 0 implies e.0 != p by {
                            assert(self.contents@.contains(e));
                            let j = choose|j: int|
                                0 <= j < self.contents@.len() && self.contents@[j] == e;
                            assert(self.contents@[j].0 != p);
                        }
                    },
                    Some(e) => {
                        let i = choose|i: int|
                            {
                                &&& 0 <= i < self.contents@.len()
                                &&& self.contents@[i] == e
                                &&& e.0 == p
                                &&& forall|j: int|
                                    0 <= j < i ==> (#[trigger] self.contents@[j]).0 != p
                            };
                        assert(self.contents@.contains(e));
                    },
                }
            },
            Some(bx) => {
                assert(bx.0.wf(border, max_values) && bx.1.wf(border, max_values) && bx.2.wf(
                    border,
                    max_values,
                ) && bx.3.wf(border, max_values));
                self.lemma_point_entries_at_route(border, max_values, p);
                if bx.0.bb.contains(p) {
                    bx.0.lemma_remove_spec_complete(border, max_values, p);
                } else if bx.1.bb.contains(p) {
                    bx.1.lemma_remove_spec_complete(border, max_values, p);
                } else if bx.2.bb.contains(p) {
                    bx.2.lemma_remove_spec_complete(border, max_values, p);
                } else {
                    bx.3.lemma_remove_spec_complete(border, max_values, p);
                }
            },
        }
    }

    /// Remove the first entry stored exactly at `point`, if one exists.
    fn remove_node(&mut self, point: Vector, max_values: usize, border: i64) -> (r: Option<
        (Vector, T),
    >)
        requires
            old(self).wf(border, max_values),
            max_values >= 1,
        ensures
            final(self).wf(border, max_values),
            final(self).region == old(self).region,
            final(self).bb == old(self).bb,
            final(self).depth == old(self).depth,
            final(self).is_leaf_spec() == old(self).is_leaf_spec(),
            r == old(self).remove_first_spec(point),
            match r {
                Some(e) => e.0 == point && old(self).entries().count(e) > 0
                    && final(self).entries() == old(self).entries().remove(e),
                None => *final(self) == *old(self),
            },
        decreases *old(self),
    {
        if self.branches.is_none() {
            let ghost s = self.contents@;
            let mut i: usize = 0;
            while i < self.contents.len()
                invariant
                    *self == *old(self),
                    old(self).wf(border, max_values),
                    self.branches is None,
                    s == self.contents@,
                    i <= s.len(),
                    forall|j: int| 0 <= j < i ==> (#[trigger] s[j]).0 != point,
                decreases s.len() - i,
            {
                if self.contents[i].0 == point {
                    proof {
                        lemma_first_at_index(s, point, i as int);
                    }
                    let e = self.contents.remove(i);
                    proof {
                        s.remove_ensures(i as int);
                        assert(self.contents@.to_multiset() =~= s.to_multiset().remove(e));
                        assert forall|j: int|
                            0 <= j < self.contents@.len() implies self.bb.contains(
                            #[trigger] self.contents@[j].0,
                        ) by {
                            if j < i {
                                assert(self.contents@[j] == s[j]);
                            } else {
                                assert(self.contents@[j] == s[j + 1]);
                            }
                        }
                    }
                    return Some(e);
                }
                i += 1;
            }
            proof {
                lemma_first_at_props(s, point);
            }
            None
        } else {
            let ghost pre = *self;
            proof {
                let bx = pre.branches->Some_0;
                assert(bx.0.wf(border, max_values) && bx.1.wf(border, max_values) && bx.2.wf(
                    border,
                    max_values,
                ) && bx.3.wf(border, max_values));
                bx.0.lemma_bb_safe(border, max_values);
                bx.1.lemma_bb_safe(border, max_values);
                bx.2.lemma_bb_safe(border, max_values);
            }
            let bx = self.branches.take().unwrap();
            let (mut c0, mut c1, mut c2, mut c3) = *bx;
            let r;
            if c0.bb.point_inside(point) {
                r = c0.remove_node(point, max_values, border);
            } else if c1.bb.point_inside(point) {
                r = c1.remove_node(point, max_values, border);
            } else if c2.bb.point_inside(point) {
                r = c2.remove_node(point, max_values, border);
            } else {
                r = c3.remove_node(point, max_values, border);
            }
            self.branches = Some(Box::new((c0, c1, c2, c3)));
            proof {
                if r is Some {
                    let e = r->Some_0;
                    assert(self.entries() =~= pre.entries().remove(e));
                } else {
                    assert(*self =~= pre);
                }
            }
            r
        }
    }

    /// The entry list `query` hands back: the contents of the leaf that
    /// the first-match descent reaches for `p`.
    pub closed spec fn query_spec(self, p: Vector) -> Seq<(Vector, T)>
        decreases self,
    {
        match self.branches {
            None => self.contents@,
            Some(bx) => if bx.0.bb.contains(p) {
                bx.0.query_spec(p)
            } else if bx.1.bb.contains(p) {
                bx.1.query_spec(p)
            } else if bx.2.bb.contains(p) {
                bx.2.query_spec(p)
            } else {
                bx.3.query_spec(p)
            },
        }
    }

    /// Everything stored at point `p` shows up in the leaf list that the
    /// descent for `p` reaches.
    proof fn lemma_query_spec_complete(self, border: i64, max_values: usize, p: Vector)
        requires
            self.wf(border, max_values),
        ensures
            forall|e: (Vector, T)| #[trigger]
                self.entries().count(e) > 0 && e.0 == p ==> self.query_spec(p).contains(e),
        decreases self,
    {
        match self.branches {
            None => {},
            Some(bx) => {
                assert(bx.0.wf(border, max_values) && bx.1.wf(border, max_values) && bx.2.wf(
                    border,
                    max_values,
                ) && bx.3.wf(border, max_values));
                self.lemma_point_entries_at_route(border, max_values, p);
                if bx.0.bb.contains(p) {
                    bx.0.lemma_query_spec_complete(border, max_values, p);
                } else if bx.1.bb.contains(p) {
                    bx.1.lemma_query_spec_complete(border, max_values, p);
                } else if bx.2.bb.contains(p) {
                    bx.2.lemma_query_spec_complete(border, max_values, p);
                } else {
                    bx.3.lemma_query_spec_complete(border, max_values, p);
                }
            },
        }
    }

    /// Conversely, the leaf list only shows entries the subtree stores.
    proof fn lemma_query_spec_sound(self, border: i64, max_values: usize, p: Vector)
        requires
            self.wf(border, max_values),
        ensures
            forall|e: (Vector, T)| (#[trigger] self.query_spec(p).contains(e))
                ==> self.entries().count(e) > 0,
        decreases self,
    {
        match self.branches {
            None => {
                assert(self.query_spec(p) == self.contents@);
                assert(self.entries() == self.contents@.to_multiset());
                assert forall|e: (Vector, T)| (#[trigger] self.query_spec(p).contains(e))
                    implies self.entries().count(e) > 0 by {
                    vstd::seq_lib::to_multiset_contains(self.contents@, e);
                    assert(self.contents@.contains(e));
                }
            },
            Some(bx) => {
                assert(bx.0.wf(border, max_values) && bx.1.wf(border, max_values) && bx.2.wf(
                    border,
                    max_values,
                ) && bx.3.wf(border, max_values));
                let c = if bx.0.bb.contains(p) {
                    bx.0
                } else if bx.1.bb.contains(p) {
                    bx.1
                } else if bx.2.bb.contains(p) {
                    bx.2
                } else {
                    bx.3
                };
                if bx.0.bb.contains(p) {
                    bx.0.lemma_query_spec_sound(border, max_values, p);
                } else if bx.1.bb.contains(p) {
                    bx.1.lemma_query_spec_sound(border, max_values, p);
                } else if bx.2.bb.contains(p) {
                    bx.2.lemma_query_spec_sound(border, max_values, p);
                } else {
                    bx.3.lemma_query_spec_sound(border, max_values, p);
                }
                assert(self.query_spec(p) == c.query_spec(p));
                assert forall|e: (Vector, T)| (#[trigger] self.query_spec(p).contains(e))
                    implies self.entries().count(e) > 0 by {
                    assert(c.query_spec(p).contains(e));
                    assert(c.entries().count(e) > 0);
                    assert(self.entries().count(e) >= c.entries().count(e));
                }
            },
        }
    }

    /// Move every entry of this (consumed) subtree into `out`.
    fn drain_node(self, out: &mut Vec<(Vector, T)>)
        ensures
            final(out)@.to_multiset() == old(out)@.to_multiset().add(self.entries()),
        decreases self,
    {
        let ghost whole = self;
        match self.branches {
            None => {
                let mut items = self.contents;
                let ghost orig_items = items@;
                while items.len() > 0
                    invariant
                        out@.to_multiset().add(items@.to_multiset()) == old(
                            out,
                        )@.to_multiset().add(orig_items.to_multiset()),
                    decreases items.len(),
                {
                    let ghost items_pre = items@;
                    let ghost out_pre = out@;
                    let e = items.pop().unwrap();
                    out.push(e);
                    proof {
                        assert(items_pre.drop_last() =~= items_pre.remove(items_pre.len() - 1));
                        assert(items@.to_multiset() =~= items_pre.to_multiset().remove(e));
                        assert(out@.to_multiset() =~= out_pre.to_multiset().insert(e));
                        assert(out@.to_multiset().add(items@.to_multiset()) =~= out_pre.to_multiset().add(
                            items_pre.to_multiset(),
                        ));
                    }
                }
                proof {
                    assert(items@.to_multiset() =~= Multiset::<(Vector, T)>::empty());
                    assert(out@.to_multiset() =~= old(out)@.to_multiset().add(whole.entries()));
                }
            },
            Some(bx) => {
                let (a, b, c, d) = *bx;
                a.drain_node(out);
                b.drain_node(out);
                c.drain_node(out);
                d.drain_node(out);
                proof {
                    assert(out@.to_multiset() =~= old(out)@.to_multiset().add(whole.entries()));
                }
            },
        }
    }

    /// Post-order merge-back: any branch whose whole subtree holds fewer
    /// than `max_values` entries is collapsed back into a single leaf.
    fn prune_node(&mut self, max_values: usize, border: i64)
        requires
            old(self).wf(border, max_values),
            max_values >= 1,
            old(self).entries().len() <= usize::MAX,
        ensures
            final(self).wf(border, max_values),
            final(self).entries() == old(self).entries(),
            final(self).region == old(self).region,
            final(self).bb == old(self).bb,
            final(self).depth == old(self).depth,
            final(self).is_leaf_spec() <==> (old(self).is_leaf_spec() || old(
                self,
            ).entries().len() < max_values),
        decreases old(self).depth,
    {
        if self.branches.is_some() {
            let total = self.len_node();
            let ghost pre = *self;
            proof {
                let bx = pre.branches->Some_0;
                assert(bx.0.wf(border, max_values) && bx.1.wf(border, max_values) && bx.2.wf(
                    border,
                    max_values,
                ) && bx.3.wf(border, max_values));
            }
            if total < max_values {
                proof {
                    pre.lemma_entries_in_bb(border, max_values);
                }
                let bx = self.branches.take().unwrap();
                let (a, b, c, d) = *bx;
                let mut out: Vec<(Vector, T)> = Vec::new();
                proof {
                    assert(out@.to_multiset() =~= Multiset::<(Vector, T)>::empty());
                }
                a.drain_node(&mut out);
                b.drain_node(&mut out);
                c.drain_node(&mut out);
                d.drain_node(&mut out);
                self.contents = out;
                proof {
                    assert(self.entries() =~= pre.entries());
                    assert forall|i: int|
                        0 <= i < self.contents@.len() implies self.bb.contains(
                        #[trigger] self.contents@[i].0,
                    ) by {
                        vstd::seq_lib::to_multiset_contains(self.contents@, self.contents@[i]);
                        assert(pre.entries().count(self.contents@[i]) > 0);
                    }
                }
            } else {
                let bx = self.branches.take().unwrap();
                let (mut a, mut b, mut c, mut d) = *bx;
                a.prune_node(max_values, border);
                b.prune_node(max_values, border);
                c.prune_node(max_values, border);
                d.prune_node(max_values, border);
                self.branches = Some(Box::new((a, b, c, d)));
                proof {
                    assert(self.entries() =~= pre.entries());
                }
            }
        }
    }

    /// A well-formed node's height never exceeds its depth budget plus
    /// one: each subdivision spends one unit, and a node with none left
    /// stays a leaf.
    proof fn lemma_height_bound(self, border: i64, max_values: usize)
        requires
            self.wf(border, max_values),
        ensures
            self.height() <= self.depth + 1,
        decreases self,
    {
        match self.branches {
            None => {},
            Some(bx) => {
                assert(bx.0.wf(border, max_values) && bx.1.wf(border, max_values) && bx.2.wf(
                    border,
                    max_values,
                ) && bx.3.wf(border, max_values));
                bx.0.lemma_height_bound(border, max_values);
                bx.1.lemma_height_bound(border, max_values);
                bx.2.lemma_height_bound(border, max_values);
                bx.3.lemma_height_bound(border, max_values);
            },
        }
    }

    /// Count the entries stored in this subtree.
    fn len_node(&self) -> (n: usize)
        requires
            self.entries().len() <= usize::MAX,
        ensures
            n == self.entries().len(),
        decreases *self,
    {
        match &self.branches {
            None => self.contents.len(),
            Some(bx) => {
                let n0 = bx.0.len_node();
                let n1 = bx.1.len_node();
                let n2 = bx.2.len_node();
                let n3 = bx.3.len_node();
                n0 + n1 + n2 + n3
            },
        }
    }

    /// Every entry of a well-formed subtree lies inside the subtree's
    /// routing box.
    proof fn lemma_entries_in_bb(self, border: i64, max_values: usize)
        requires
            self.wf(border, max_values),
        ensures
            forall|e: (Vector, T)| #[trigger] self.entries().count(e) > 0 ==> self.bb.contains(e.0),
        decreases self,
    {
        match self.branches {
            None => {
                assert forall|e: (Vector, T)| #[trigger]
                    self.entries().count(e) > 0 implies self.bb.contains(e.0) by {
                    assert(self.contents@.to_multiset().count(e) > 0);
                    assert(self.contents@.contains(e));
                    let i = choose|i: int|
                        0 <= i < self.contents@.len() && self.contents@[i] == e;
                    assert(self.bb.contains(self.contents@[i].0));
                }
            },
            Some(bx) => {
                bx.0.lemma_entries_in_bb(border, max_values);
                bx.1.lemma_entries_in_bb(border, max_values);
                bx.2.lemma_entries_in_bb(border, max_values);
                bx.3.lemma_entries_in_bb(border, max_values);
                let wx = self.region.size.x as int / 2;
                let wy = self.region.size.y as int / 2;
                assert(0 <= wx && 2 * wx <= self.region.size.x);
                assert(0 <= wy && 2 * wy <= self.region.size.y);
                assert(bx.0.wf(border, max_values) && bx.1.wf(border, max_values) && bx.2.wf(
                    border,
                    max_values,
                ) && bx.3.wf(border, max_values));
                assert(is_inflated(bx.0.region, bx.0.bb, border));
                assert(is_inflated(bx.1.region, bx.1.bb, border));
                assert(is_inflated(bx.2.region, bx.2.bb, border));
                assert(is_inflated(bx.3.region, bx.3.bb, border));
                assert forall|e: (Vector, T)| #[trigger]
                    self.entries().count(e) > 0 implies self.bb.contains(e.0) by {
                    assert(bx.0.entries().count(e) > 0 || bx.1.entries().count(e) > 0
                        || bx.2.entries().count(e) > 0 || bx.3.entries().count(e) > 0);
                    assert(bx.0.bb.contains(e.0) || bx.1.bb.contains(e.0) || bx.2.bb.contains(e.0)
                        || bx.3.bb.contains(e.0));
                }
            },
        }
    }
}

impl<T: Copy> QuadBranch<T> {
    /// Descend to the leaf for `point` and copy out its entry list.
    fn query_node(&self, point: Vector, max_values: usize, border: i64) -> (r: Vec<(Vector, T)>)
        requires
            self.wf(border, max_values),
        ensures
            r@ == self.query_spec(point),
        decreases *self,
    {
        match &self.branches {
            None => {
                let mut out: Vec<(Vector, T)> = Vec::new();
                let mut i: usize = 0;
                while i < self.contents.len()
                    invariant
                        i <= self.contents@.len(),
                        out@ == self.contents@.subrange(0, i as int),
                    decreases self.contents@.len() - i,
                {
                    let e = self.contents[i];
                    out.push(e);
                    i += 1;
                    proof {
                        assert(out@ =~= self.contents@.subrange(0, i as int));
                    }
                }
                proof {
                    assert(out@ =~= self.contents@);
                }
                out
            },
            Some(bx) => {
                proof {
                    assert(bx.0.wf(border, max_values) && bx.1.wf(border, max_values) && bx.2.wf(
                        border,
                        max_values,
                    ) && bx.3.wf(border, max_values));
                    bx.0.lemma_bb_safe(border, max_values);
                    bx.1.lemma_bb_safe(border, max_values);
                    bx.2.lemma_bb_safe(border, max_values);
                }
                if bx.0.bb.point_inside(point) {
                    bx.0.query_node(point, max_values, border)
                } else if bx.1.bb.point_inside(point) {
                    bx.1.query_node(point, max_values, border)
                } else if bx.2.bb.point_inside(point) {
                    bx.2.query_node(point, max_values, border)
                } else {
                    bx.3.query_node(point, max_values, border)
                }
            },
        }
    }
}

impl<T: PartialEq> QuadBranch<T> {
    /// The point `find` reports for `v`: a depth-first search, first
    /// match wins, children visited in fixed order.
    pub closed spec fn find_spec(self, v: T) -> Option<Vector>
        decreases self,
    {
        match self.branches {
            None => first_val(self.contents@, v),
            Some(bx) => if bx.0.find_spec(v) is Some {
                bx.0.find_spec(v)
            } else if bx.1.find_spec(v) is Some {
                bx.1.find_spec(v)
            } else if bx.2.find_spec(v) is Some {
                bx.2.find_spec(v)
            } else {
                bx.3.find_spec(v)
            },
        }
    }

    /// Depth-first search for the first entry whose value equals `value`.
    fn find_node(&self, value: &T) -> (r: Option<Vector>)
        ensures
            T::obeys_eq_spec() ==> r == self.find_spec(*value),
        decreases *self,
    {
        match &self.branches {
            None => {
                let mut i: usize = 0;
                while i < self.contents.len()
                    invariant
                        self.branches is None,
                        i <= self.contents@.len(),
                        T::obeys_eq_spec() ==> forall|j: int|
                            0 <= j < i ==> !(#[trigger] self.contents@[j]).1.eq_spec(value),
                    decreases self.contents@.len() - i,
                {
                    if self.contents[i].1 == *value {
                        proof {
                            if T::obeys_eq_spec() {
                                lemma_first_val_index(self.contents@, *value, i as int);
                            }
                        }
                        return Some(self.contents[i].0);
                    }
                    i += 1;
                }
                proof {
                    if T::obeys_eq_spec() {
                        lemma_first_val_props(self.contents@, *value);
                    }
                }
                None
            },
            Some(bx) => {
                let r0 = bx.0.find_node(value);
                if r0.is_some() {
                    return r0;
                }
                let r1 = bx.1.find_node(value);
                if r1.is_some() {
                    return r1;
                }
                let r2 = bx.2.find_node(value);
                if r2.is_some() {
                    return r2;
                }
                bx.3.find_node(value)
            },
        }
    }

    /// What `find_spec` reports: `None` exactly when no stored entry
    /// matches `v`, otherwise the point of some matching entry.
    proof fn lemma_find_spec_complete(self, v: T)
        ensures
            match self.find_spec(v) {
                None => forall|e: (Vector, T)| #[trigger] self.entries().count(e) > 0
                    ==> !e.1.eq_spec(&v),
                Some(q) => exists|e: (Vector, T)| #[trigger]
                    self.entries().count(e) > 0 && e.0 == q && e.1.eq_spec(&v),
            },
        decreases self,
    {
        match self.branches {
            None => {
                lemma_first_val_props(self.contents@, v);
                match first_val(self.contents@, v) {
                    None => {
                        assert forall|e: (Vector, T)| #[trigger]
                            self.entries().count(e) > 0 implies !e.1.eq_spec(&v) by {
                            vstd::seq_lib::to_multiset_contains(self.contents@, e);
                            let j = choose|j: int|
                                0 <= j < self.contents@.len() && self.contents@[j] == e;
                            assert(!self.contents@[j].1.eq_spec(&v));
                        }
                    },
                    Some(q) => {
                        let i = choose|i: int|
                            0 <= i < self.contents@.len() && (#[trigger] self.contents@[i]).0
                                == q && self.contents@[i].1.eq_spec(&v);
                        vstd::seq_lib::to_multiset_contains(self.contents@, self.contents@[i]);
                        assert(self.entries().count(self.contents@[i]) > 0);
                    },
                }
            },
            Some(bx) => {
                bx.0.lemma_find_spec_complete(v);
                bx.1.lemma_find_spec_complete(v);
                bx.2.lemma_find_spec_complete(v);
                bx.3.lemma_find_spec_complete(v);
                match self.find_spec(v) {
                    None => {
                        assert forall|e: (Vector, T)| #[trigger]
                            self.entries().count(e) > 0 implies !e.1.eq_spec(&v) by {
                            assert(bx.0.entries().count(e) > 0 || bx.1.entries().count(e) > 0
                                || bx.2.entries().count(e) > 0 || bx.3.entries().count(e) > 0);
                        }
                    },
                    Some(q) => {
                        let c = if bx.0.find_spec(v) is Some {
                            bx.0
                        } else if bx.1.find_spec(v) is Some {
                            bx.1
                        } else if bx.2.find_spec(v) is Some {
                            bx.2
                        } else {
                            bx.3
                        };
                        let e = choose|e: (Vector, T)| #[trigger]
                            c.entries().count(e) > 0 && e.0 == q && e.1.eq_spec(&v);
                        assert(self.entries().count(e) >= c.entries().count(e));
                    },
                }
            },
        }
    }
}

/// A quadtree spatial index mapping 2D points to values of type `T`.
pub struct QuadTree<T> {
    root: QuadBranch<T>,
    region: AABB,
    border_size: i64,
    max_values: usize,
    max_depth: u32,
}

impl<T> View for QuadTree<T> {
    type V = Multiset<(Vector, T)>;

    /// A tree is abstractly the multiset of its stored entries.
    closed spec fn view(&self) -> Multiset<(Vector, T)> {
        self.root.entries()
    }
}

impl<T> QuadTree<T> {
    /// Validity of the whole tree.
    pub closed spec fn wf(self) -> bool {
        &&& self.root.wf(self.border_size, self.max_values)
        &&& self.root.region == self.region
        &&& self.root.depth == self.max_depth
        &&& self.max_values >= 1
        &&& 0 <= self.border_size <= REGION_LIMIT
        &&& region_ok(self.region)
        &&& self.root.entries().len() <= usize::MAX
    }

    /// The configured (un-inflated) region.
    pub closed spec fn region_spec(self) -> AABB {
        self.region
    }

    /// The configured border size.
    pub closed spec fn border_spec(self) -> i64 {
        self.border_size
    }

    /// The configured leaf capacity.
    pub closed spec fn max_values_spec(self) -> usize {
        self.max_values
    }

    /// The configured depth cap.
    pub closed spec fn max_depth_spec(self) -> u32 {
        self.max_depth
    }

    /// All configuration fields agree between two tree states.
    pub open spec fn same_config(self, other: Self) -> bool {
        &&& self.region_spec() == other.region_spec()
        &&& self.border_spec() == other.border_spec()
        &&& self.max_values_spec() == other.max_values_spec()
        &&& self.max_depth_spec() == other.max_depth_spec()
    }

    /// The root node is still a single leaf.
    pub closed spec fn root_is_leaf(self) -> bool {
        self.root.is_leaf_spec()
    }

    /// The point falls inside the tree's border-inflated region, so `add`
    /// accepts it.
    pub closed spec fn in_domain(self, p: Vector) -> bool {
        self.root.bb.contains(p)
    }

    /// Characterizes the accepted domain in terms of the configuration:
    /// the region grown by half the border on each side of x and y.
    pub proof fn lemma_in_domain(self, p: Vector)
        requires
            self.wf(),
        ensures
            self.in_domain(p) <==> {
                let h = self.border_spec() as int / 2;
                let r = self.region_spec();
                &&& r.start.x - h <= p.x <= r.start.x + r.size.x + h
                &&& r.start.y - h <= p.y <= r.start.y + r.size.y + h
                &&& r.start.z <= p.z <= r.start.z + r.size.z
            },
    {
    }

    /// Create a tree over `region`; leaves hold at most `max_values`
    /// entries (until `max_depth` subdivisions have been spent), and each
    /// node's routing box is grown by half of `border_size` per side.
    pub fn new(region: AABB, max_values: usize, border_size: i64, max_depth: u32) -> (tree: Self)
        requires
            max_values >= 1,
            region_ok(region),
            0 <= border_size <= REGION_LIMIT,
        ensures
            tree.wf(),
            tree@ == Multiset::<(Vector, T)>::empty(),
            tree.root_is_leaf(),
            tree.region_spec() == region,
            tree.border_spec() == border_size,
            tree.max_values_spec() == max_values,
            tree.max_depth_spec() == max_depth,
    {
        QuadTree {
            root: QuadBranch::new(region, border_size, max_depth),
            region,
            border_size,
            max_values,
            max_depth,
        }
    }

    /// O(1) test: the whole tree is one leaf node.
    pub fn is_leaf(&self) -> (r: bool)
        ensures
            r == self.root_is_leaf(),
    {
        self.root.branches.is_none()
    }

    /// Number of entries currently stored.
    pub fn len(&self) -> (n: usize)
        requires
            self.wf(),
        ensures
            n == self@.len(),
    {
        self.root.len_node()
    }

    /// Store `value` at `point`.  Fails (leaving the tree unchanged) only
    /// when the point lies outside the tree's inflated region; on success
    /// the entry multiset grows by exactly the new pair, and the root
    /// stays a leaf exactly as long as capacity and depth allow.
    pub fn add(&mut self, value: T, point: Vector) -> (r: Result<(), QuadError>)
        requires
            old(self).wf(),
            old(self)@.len() < usize::MAX,
        ensures
            final(self).wf(),
            final(self).same_config(*old(self)),
            r is Ok <==> old(self).in_domain(point),
            old(self).in_domain(point) ==> final(self)@ == old(self)@.insert((point, value)),
            !old(self).in_domain(point) ==> *final(self) == *old(self) && r == Err::<
                (),
                QuadError,
            >(QuadError::OutOfBounds),
            old(self).in_domain(point) ==> (final(self).root_is_leaf() <==> (old(
                self,
            ).root_is_leaf() && (old(self)@.len() + 1 <= old(self).max_values_spec() || old(
                self,
            ).max_depth_spec() == 0))),
    {
        proof {
            self.root.lemma_bb_safe(self.border_size, self.max_values);
        }
        if self.root.bb.point_inside(point) {
            self.root.add_node(point, value, self.max_values, self.border_size);
            Ok(())
        } else {
            Err(QuadError::OutOfBounds)
        }
    }

    /// What `remove(p)` returns: the first entry at `p` along the
    /// first-match descent.
    pub closed spec fn remove_view(self, p: Vector) -> Option<(Vector, T)> {
        self.root.remove_first_spec(p)
    }

    /// Remove and return the first entry stored exactly at `point`.
    /// Returns `None`, leaving the tree unchanged, exactly when no entry
    /// is stored at `point`.
    pub fn remove(&mut self, point: Vector) -> (r: Option<(Vector, T)>)
        requires
            old(self).wf(),
        ensures
            final(self).wf(),
            final(self).same_config(*old(self)),
            r == old(self).remove_view(point),
            match r {
                Some(e) => e.0 == point && old(self)@.count(e) > 0 && final(self)@ == old(
                    self,
                )@.remove(e) && final(self)@.len() + 1 == old(self)@.len(),
                None => *final(self) == *old(self) && (forall|e: (Vector, T)| #[trigger]
                    old(self)@.count(e) > 0 ==> e.0 != point),
            },
    {
        proof {
            self.root.lemma_remove_spec_complete(self.border_size, self.max_values, point);
        }
        self.root.remove_node(point, self.max_values, self.border_size)
    }

    /// The entry list `query(p)` reports: the contents of the leaf that
    /// owns `p`, or nothing for a point outside the domain.
    pub closed spec fn query_view(self, p: Vector) -> Seq<(Vector, T)> {
        if self.in_domain(p) {
            self.root.query_spec(p)
        } else {
            Seq::empty()
        }
    }

    /// Everything stored at `p` appears in `query(p)`'s result, and that
    /// result only shows entries the tree really stores.  In particular a
    /// tree with no entries answers every query with the empty list.
    pub proof fn lemma_query_exact(self, p: Vector)
        requires
            self.wf(),
        ensures
            forall|e: (Vector, T)| #[trigger] self@.count(e) > 0 && e.0 == p ==> self.query_view(
                p,
            ).contains(e),
            forall|e: (Vector, T)| #[trigger] self.query_view(p).contains(e) ==> self@.count(e)
                > 0,
            self@.len() == 0 ==> self.query_view(p) == Seq::<(Vector, T)>::empty(),
    {
        self.root.lemma_query_spec_complete(self.border_size, self.max_values, p);
        self.root.lemma_query_spec_sound(self.border_size, self.max_values, p);
        self.root.lemma_entries_in_bb(self.border_size, self.max_values);
        if self@.len() == 0 && self.in_domain(p) {
            if self.query_view(p).len() > 0 {
                assert(self.query_view(p).contains(self.query_view(p)[0]));
            }
            assert(self.query_view(p) =~= Seq::<(Vector, T)>::empty());
        }
    }

    /// Merge back what has emptied out: every branch whose subtree holds
    /// fewer than `max_values` entries becomes a single leaf again, so in
    /// particular the root collapses exactly when the whole tree holds
    /// fewer than `max_values` entries.  No entry is lost or duplicated.
    pub fn prune(&mut self)
        requires
            old(self).wf(),
        ensures
            final(self).wf(),
            final(self).same_config(*old(self)),
            final(self)@ == old(self)@,
            final(self).root_is_leaf() <==> (old(self).root_is_leaf() || old(self)@.len() < old(
                self,
            ).max_values_spec()),
    {
        self.root.prune_node(self.max_values, self.border_size);
    }

    /// Move the entry stored at `from` to `to`: remove it, then add its
    /// value back at the new position.  Fails with `OutOfBounds` when the
    /// destination lies outside the domain and with `NotFound` when no
    /// entry is stored at `from`; either failure leaves the tree as it
    /// was.
    pub fn change_pos(&mut self, from: Vector, to: Vector) -> (r: Result<(), QuadError>)
        requires
            old(self).wf(),
        ensures
            final(self).wf(),
            final(self).same_config(*old(self)),
            !old(self).in_domain(to) ==> r == Err::<(), QuadError>(QuadError::OutOfBounds)
                && *final(self) == *old(self),
            old(self).in_domain(to) ==> match old(self).remove_view(from) {
                None => r == Err::<(), QuadError>(QuadError::NotFound) && *final(self) == *old(
                    self,
                ),
                Some(e) => r is Ok && final(self)@ == old(self)@.remove(e).insert((to, e.1)),
            },
    {
        proof {
            self.root.lemma_bb_safe(self.border_size, self.max_values);
        }
        if !self.root.bb.point_inside(to) {
            return Err(QuadError::OutOfBounds);
        }
        match self.remove(from) {
            None => Err(QuadError::NotFound),
            Some(e) => {
                match self.add(e.1, to) {
                    Ok(u) => Ok(u),
                    Err(err) => {
                        proof {
                            assert(false);
                        }
                        Err(err)
                    },
                }
            },
        }
    }

    /// The number of subdivision levels in the tree (a single leaf has
    /// height one).
    pub closed spec fn height_spec(self) -> nat {
        self.root.height()
    }

    /// A tree still in its single-leaf state holds at most `max_values`
    /// entries, unless its depth cap is zero and it can never subdivide.
    pub proof fn lemma_leaf_capacity(self)
        requires
            self.wf(),
            self.root_is_leaf(),
        ensures
            self@.len() <= self.max_values_spec() || self.max_depth_spec() == 0,
    {
        assert(self.root.entries() == self.root.contents@.to_multiset());
    }

    /// The depth cap is respected: the tree never grows more than
    /// `max_depth` levels below the root.
    pub proof fn lemma_depth_cap(self)
        requires
            self.wf(),
        ensures
            self.height_spec() <= self.max_depth_spec() + 1,
    {
        self.root.lemma_height_bound(self.border_size, self.max_values);
    }

    /// Adding an entry at a previously unoccupied point and then removing
    /// that point is the identity: the removal returns exactly the added
    /// pair and the entries return to what they were.  `self` here is the
    /// tree state after the addition, whose entries are `prior` plus the
    /// new pair.
    pub proof fn lemma_add_remove_inverse(self, prior: Multiset<(Vector, T)>, p: Vector, v: T)
        requires
            self.wf(),
            self@ == prior.insert((p, v)),
            forall|e: (Vector, T)| #[trigger] prior.count(e) > 0 ==> e.0 != p,
        ensures
            self.remove_view(p) == Some((p, v)),
            self@.remove((p, v)) == prior,
            self@.len() == prior.len() + 1,
    {
        self.root.lemma_remove_spec_complete(self.border_size, self.max_values, p);
        assert(self@.count((p, v)) > 0);
        match self.remove_view(p) {
            None => {
                assert(false);
            },
            Some(e) => {
                if e != (p, v) {
                    assert(prior.count(e) > 0);
                    assert(false);
                }
            },
        }
        assert(self@.remove((p, v)) =~= prior);
    }

    /// `insert` stores an entry exactly as [`Self::add`] does; the two
    /// names are kept so either style of caller reads naturally.
    pub fn insert(&mut self, value: T, point: Vector) -> (r: Result<(), QuadError>)
        requires
            old(self).wf(),
            old(self)@.len() < usize::MAX,
        ensures
            final(self).wf(),
            final(self).same_config(*old(self)),
            r is Ok <==> old(self).in_domain(point),
            old(self).in_domain(point) ==> final(self)@ == old(self)@.insert((point, value)),
            !old(self).in_domain(point) ==> *final(self) == *old(self) && r == Err::<
                (),
                QuadError,
            >(QuadError::OutOfBounds),
    {
        self.add(value, point)
    }
}

impl<T: PartialEq> QuadTree<T> {
    /// What `find(v)` reports: the point of the first matching entry in
    /// depth-first order.
    pub closed spec fn find_view(self, v: T) -> Option<Vector> {
        self.root.find_spec(v)
    }

    /// Depth-first search for the first entry whose value equals `value`;
    /// reports the point it is stored at.  (The contract speaks through
    /// `T`'s equality specification, so it binds whenever `T`'s `==` obeys
    /// its specification, as all primitive types do.)
    pub fn find(&self, value: T) -> (r: Option<Vector>)
        ensures
            T::obeys_eq_spec() ==> r == self.find_view(value),
    {
        self.root.find_node(&value)
    }

    /// A stored entry `(p, v)` is found at `p`, provided every entry
    /// matching `v` sits at that same point: `find(v)` then reports `p`.
    pub proof fn lemma_find_present(self, p: Vector, v: T)
        requires
            self.wf(),
            v.eq_spec(&v),
            self@.count((p, v)) > 0,
            forall|e: (Vector, T)| #[trigger] self@.count(e) > 0 && e.1.eq_spec(&v) ==> e.0 == p,
        ensures
            self.find_view(v) == Some(p),
    {
        self.root.lemma_find_spec_complete(v);
        match self.find_view(v) {
            None => {
                assert(!(p, v).1.eq_spec(&v));
            },
            Some(q) => {
                let e = choose|e: (Vector, T)| #[trigger]
                    self.root.entries().count(e) > 0 && e.0 == q && e.1.eq_spec(&v);
                assert(e.0 == p);
            },
        }
    }
}

impl<T: Copy> QuadTree<T> {
    /// Read-only query: the entry list of the leaf that owns `point`
    /// (which holds every entry stored at `point`, and possibly further
    /// entries of the same leaf), or the empty list for a point outside
    /// the domain.
    pub fn query_no_mut(&self, point: Vector) -> (r: Vec<(Vector, T)>)
        requires
            self.wf(),
        ensures
            r@ == self.query_view(point),
    {
        proof {
            self.root.lemma_bb_safe(self.border_size, self.max_values);
        }
        if self.root.bb.point_inside(point) {
            self.root.query_node(point, self.max_values, self.border_size)
        } else {
            Vec::new()
        }
    }

    /// Same as [`Self::query_no_mut`], for callers that hold the tree
    /// exclusively anyway; it never changes the tree.
    pub fn query(&mut self, point: Vector) -> (r: Vec<(Vector, T)>)
        requires
            old(self).wf(),
        ensures
            *final(self) == *old(self),
            r@ == old(self).query_view(point),
    {
        let tree: &QuadTree<T> = &*self;
        tree.query_no_mut(point)
    }
}

} // verus!
