//! 4x4 matrices over `i64`, stored column-major as sixteen values, with
//! exact elementwise contracts for every operation.

use vstd::prelude::*;
use crate::arith::prod;
use crate::vector::Vector3;

verus! {

/// Entry magnitude accepted by matrix multiplication.
pub const MAT_LIMIT: i64 = 1_000_000_000;

/// Entry magnitude accepted by matrix inversion (products of three
/// entries are summed six times, and once more against the entries for
/// the determinant).
pub const INV_LIMIT: i64 = 20_000;

/// Entry `(row, col)` of the product of two matrices held as flat
/// column-major lists.
pub open spec fn mat_mul_entry(l: Seq<i64>, r: Seq<i64>, row: int, col: int) -> int {
    l[0 + row] * r[col * 4 + 0] + l[4 + row] * r[col * 4 + 1] + l[8 + row] * r[col * 4 + 2] + l[12
        + row] * r[col * 4 + 3]
}

/// Every entry within `[-b, b]`.
pub open spec fn mat_bounded(m: Seq<i64>, b: int) -> bool {
    forall|k: int| 0 <= k < 16 ==> -b <= #[trigger] m[k] <= b
}

/// The identity matrix as a flat list.
pub open spec fn mat_identity_seq() -> Seq<i64> {
    Seq::new(16, |k: int| if k == 0 || k == 5 || k == 10 || k == 15 { 1i64 } else { 0i64 })
}

/// The uniform scaling matrix as a flat list.
pub open spec fn mat_scaling_seq(scale: i64) -> Seq<i64> {
    Seq::new(
        16,
        |k: int|
            if k == 0 || k == 5 || k == 10 {
                scale
            } else if k == 15 {
                1i64
            } else {
                0i64
            },
    )
}

/// The translation matrix for `v` as a flat list.
pub open spec fn mat_translation_seq(v: Vector3<i64>) -> Seq<i64> {
    Seq::new(
        16,
        |k: int|
            if k == 12 {
                v.x
            } else if k == 13 {
                v.y
            } else if k == 14 {
                v.z
            } else if k == 0 || k == 5 || k == 10 || k == 15 {
                1i64
            } else {
                0i64
            },
    )
}

/// The cofactor of the matrix (as a flat column-major list) that the
/// classic adjugate formula assigns to position `k`.
pub open spec fn mat_cofactor(m: Seq<i64>, k: int) -> int {
    if k == 0 {
        m[5] * m[10] * m[15] - m[5] * m[11] * m[14] - m[9] * m[6] * m[15] + m[9] * m[7] * m[14] + m[13] * m[6] * m[11] - m[13] * m[7] * m[10]
    } else if k == 1 {
        -(m[1] * m[10] * m[15]) + m[1] * m[11] * m[14] + m[9] * m[2] * m[15] - m[9] * m[3] * m[14] - m[13] * m[2] * m[11] + m[13] * m[3] * m[10]
    } else if k == 2 {
        m[1] * m[6] * m[15] - m[1] * m[7] * m[14] - m[5] * m[2] * m[15] + m[5] * m[3] * m[14] + m[13] * m[2] * m[7] - m[13] * m[3] * m[6]
    } else if k == 3 {
        -(m[1] * m[6] * m[11]) + m[1] * m[7] * m[10] + m[5] * m[2] * m[11] - m[5] * m[3] * m[10] - m[9] * m[2] * m[7] + m[9] * m[3] * m[6]
    } else if k == 4 {
        -(m[4] * m[10] * m[15]) + m[4] * m[11] * m[14] + m[8] * m[6] * m[15] - m[8] * m[7] * m[14] - m[12] * m[6] * m[11] + m[12] * m[7] * m[10]
    } else if k == 5 {
        m[0] * m[10] * m[15] - m[0] * m[11] * m[14] - m[8] * m[2] * m[15] + m[8] * m[3] * m[14] + m[12] * m[2] * m[11] - m[12] * m[3] * m[10]
    } else if k == 6 {
        -(m[0] * m[6] * m[15]) + m[0] * m[7] * m[14] + m[4] * m[2] * m[15] - m[4] * m[3] * m[14] - m[12] * m[2] * m[7] + m[12] * m[3] * m[6]
    } else if k == 7 {
        m[0] * m[6] * m[11] - m[0] * m[7] * m[10] - m[4] * m[2] * m[11] + m[4] * m[3] * m[10] + m[8] * m[2] * m[7] - m[8] * m[3] * m[6]
    } else if k == 8 {
        m[4] * m[9] * m[15] - m[4] * m[11] * m[13] - m[8] * m[5] * m[15] + m[8] * m[7] * m[13] + m[12] * m[5] * m[11] - m[12] * m[7] * m[9]
    } else if k == 9 {
        -(m[0] * m[9] * m[15]) + m[0] * m[11] * m[13] + m[8] * m[1] * m[15] - m[8] * m[3] * m[13] - m[12] * m[1] * m[11] + m[12] * m[3] * m[9]
    } else if k == 10 {
        m[0] * m[5] * m[15] - m[0] * m[7] * m[13] - m[4] * m[1] * m[15] + m[4] * m[3] * m[13] + m[12] * m[1] * m[7] - m[12] * m[3] * m[5]
    } else if k == 11 {
        -(m[0] * m[5] * m[11]) + m[0] * m[7] * m[9] + m[4] * m[1] * m[11] - m[4] * m[3] * m[9] - m[8] * m[1] * m[7] + m[8] * m[3] * m[5]
    } else if k == 12 {
        -(m[4] * m[9] * m[14]) + m[4] * m[10] * m[13] + m[8] * m[5] * m[14] - m[8] * m[6] * m[13] - m[12] * m[5] * m[10] + m[12] * m[6] * m[9]
    } else if k == 13 {
        m[0] * m[9] * m[14] - m[0] * m[10] * m[13] - m[8] * m[1] * m[14] + m[8] * m[2] * m[13] + m[12] * m[1] * m[10] - m[12] * m[2] * m[9]
    } else if k == 14 {
        -(m[0] * m[5] * m[14]) + m[0] * m[6] * m[13] + m[4] * m[1] * m[14] - m[4] * m[2] * m[13] - m[12] * m[1] * m[6] + m[12] * m[2] * m[5]
    } else if k == 15 {
        m[0] * m[5] * m[10] - m[0] * m[6] * m[9] - m[4] * m[1] * m[10] + m[4] * m[2] * m[9] + m[8] * m[1] * m[6] - m[8] * m[2] * m[5]
    } else {
        0
    }
}

/// The determinant, expanded along the first column against the
/// cofactors.
pub open spec fn mat_det(m: Seq<i64>) -> int {
    m[0] * mat_cofactor(m, 0) + m[1] * mat_cofactor(m, 4) + m[2] * mat_cofactor(m, 8) + m[3]
        * mat_cofactor(m, 12)
}

/// What multiplying by the integer reciprocal of `d` does: the identity
/// for `1`, the negation for `-1`, and zero for every other magnitude.
pub open spec fn mat_inv_scale(d: int) -> int {
    if d == 1 {
        1
    } else if d == -1 {
        -1
    } else {
        0
    }
}

/// Product of three inversion-bounded entries.
fn tri(a: i64, b: i64, c: i64) -> (r: i64)
    requires
        -INV_LIMIT <= a <= INV_LIMIT,
        -INV_LIMIT <= b <= INV_LIMIT,
        -INV_LIMIT <= c <= INV_LIMIT,
    ensures
        r == a * b * c,
        -8_000_000_000_000 <= r <= 8_000_000_000_000,
{
    let ab = prod(a, b, Ghost(INV_LIMIT as int), Ghost(INV_LIMIT as int));
    prod(ab, c, Ghost(400_000_000int), Ghost(INV_LIMIT as int))
}

/// A 4x4 matrix of `i64` entries in column-major order.
#[derive(Debug, Clone, Copy, PartialEq, Eq)]
pub struct Mat4 {
    contents: [i64; 16],
}

impl View for Mat4 {
    type V = Seq<i64>;

    /// A matrix is abstractly its flat column-major entry list.
    closed spec fn view(&self) -> Seq<i64> {
        self.contents@
    }
}

impl Mat4 {
    /// Wrap a flat column-major list of entries.
    pub fn new(contents: [i64; 16]) -> (m: Self)
        ensures
            m@ == contents@,
    {
        Mat4 { contents }
    }

    /// The entries back as a flat array.
    pub fn get_contents(&self) -> (c: [i64; 16])
        ensures
            c@ == self@,
    {
        self.contents
    }

    /// Swap rows and columns.
    pub fn transpose(&self) -> (m: Self)
        ensures
            m@.len() == 16,
            forall|i: int, j: int|
                0 <= i < 4 && 0 <= j < 4 ==> #[trigger] m@[i * 4 + j] == self@[j * 4 + i],
    {
        let c = &self.contents;
        let m = Mat4 {
            contents: [
                c[0], c[4], c[8], c[12],
                c[1], c[5], c[9], c[13],
                c[2], c[6], c[10], c[14],
                c[3], c[7], c[11], c[15],
            ],
        };
        proof {
            assert forall|i: int, j: int|
                0 <= i < 4 && 0 <= j < 4 implies #[trigger] m@[i * 4 + j] == self@[j * 4
                + i] by {}
        }
        m
    }

    /// The identity matrix.
    pub fn identity() -> (m: Self)
        ensures
            m@ == mat_identity_seq(),
    {
        let m = Mat4 {
            contents: [
                1, 0, 0, 0,
                0, 1, 0, 0,
                0, 0, 1, 0,
                0, 0, 0, 1,
            ],
        };
        proof {
            assert(m@ =~= mat_identity_seq());
        }
        m
    }

    /// Uniform scaling by `scale` (the last diagonal entry stays one).
    pub fn scaling(scale: i64) -> (m: Self)
        ensures
            m@ == mat_scaling_seq(scale),
    {
        let m = Mat4 {
            contents: [
                scale, 0, 0, 0,
                0, scale, 0, 0,
                0, 0, scale, 0,
                0, 0, 0, 1,
            ],
        };
        proof {
            assert(m@ =~= mat_scaling_seq(scale));
        }
        m
    }

    /// The matrix that translates by `v`.
    pub fn translation_matrix(v: Vector3<i64>) -> (m: Self)
        ensures
            m@ == mat_translation_seq(v),
    {
        let m = Mat4 {
            contents: [
                1, 0, 0, 0,
                0, 1, 0, 0,
                0, 0, 1, 0,
                v.x, v.y, v.z, 1,
            ],
        };
        proof {
            assert(m@ =~= mat_translation_seq(v));
        }
        m
    }

    /// Matrix product, elementwise exact.
    pub fn mul_mat(&self, rhs: &Mat4) -> (m: Self)
        requires
            mat_bounded(self@, MAT_LIMIT as int),
            mat_bounded(rhs@, MAT_LIMIT as int),
        ensures
            m@.len() == 16,
            forall|row: int, col: int|
                0 <= row < 4 && 0 <= col < 4 ==> #[trigger] m@[col * 4 + row] == mat_mul_entry(
                    self@,
                    rhs@,
                    row,
                    col,
                ),
    {
        let l = &self.contents;
        let r = &rhs.contents;
        let e0 = prod(l[0], r[0], Ghost(MAT_LIMIT as int), Ghost(MAT_LIMIT as int)) + prod(l[4], r[1], Ghost(MAT_LIMIT as int), Ghost(MAT_LIMIT as int)) + prod(l[8], r[2], Ghost(MAT_LIMIT as int), Ghost(MAT_LIMIT as int)) + prod(l[12], r[3], Ghost(MAT_LIMIT as int), Ghost(MAT_LIMIT as int));
        let e1 = prod(l[1], r[0], Ghost(MAT_LIMIT as int), Ghost(MAT_LIMIT as int)) + prod(l[5], r[1], Ghost(MAT_LIMIT as int), Ghost(MAT_LIMIT as int)) + prod(l[9], r[2], Ghost(MAT_LIMIT as int), Ghost(MAT_LIMIT as int)) + prod(l[13], r[3], Ghost(MAT_LIMIT as int), Ghost(MAT_LIMIT as int));
        let e2 = prod(l[2], r[0], Ghost(MAT_LIMIT as int), Ghost(MAT_LIMIT as int)) + prod(l[6], r[1], Ghost(MAT_LIMIT as int), Ghost(MAT_LIMIT as int)) + prod(l[10], r[2], Ghost(MAT_LIMIT as int), Ghost(MAT_LIMIT as int)) + prod(l[14], r[3], Ghost(MAT_LIMIT as int), Ghost(MAT_LIMIT as int));
        let e3 = prod(l[3], r[0], Ghost(MAT_LIMIT as int), Ghost(MAT_LIMIT as int)) + prod(l[7], r[1], Ghost(MAT_LIMIT as int), Ghost(MAT_LIMIT as int)) + prod(l[11], r[2], Ghost(MAT_LIMIT as int), Ghost(MAT_LIMIT as int)) + prod(l[15], r[3], Ghost(MAT_LIMIT as int), Ghost(MAT_LIMIT as int));
        let e4 = prod(l[0], r[4], Ghost(MAT_LIMIT as int), Ghost(MAT_LIMIT as int)) + prod(l[4], r[5], Ghost(MAT_LIMIT as int), Ghost(MAT_LIMIT as int)) + prod(l[8], r[6], Ghost(MAT_LIMIT as int), Ghost(MAT_LIMIT as int)) + prod(l[12], r[7], Ghost(MAT_LIMIT as int), Ghost(MAT_LIMIT as int));
        let e5 = prod(l[1], r[4], Ghost(MAT_LIMIT as int), Ghost(MAT_LIMIT as int)) + prod(l[5], r[5], Ghost(MAT_LIMIT as int), Ghost(MAT_LIMIT as int)) + prod(l[9], r[6], Ghost(MAT_LIMIT as int), Ghost(MAT_LIMIT as int)) + prod(l[13], r[7], Ghost(MAT_LIMIT as int), Ghost(MAT_LIMIT as int));
        let e6 = prod(l[2], r[4], Ghost(MAT_LIMIT as int), Ghost(MAT_LIMIT as int)) + prod(l[6], r[5], Ghost(MAT_LIMIT as int), Ghost(MAT_LIMIT as int)) + prod(l[10], r[6], Ghost(MAT_LIMIT as int), Ghost(MAT_LIMIT as int)) + prod(l[14], r[7], Ghost(MAT_LIMIT as int), Ghost(MAT_LIMIT as int));
        let e7 = prod(l[3], r[4], Ghost(MAT_LIMIT as int), Ghost(MAT_LIMIT as int)) + prod(l[7], r[5], Ghost(MAT_LIMIT as int), Ghost(MAT_LIMIT as int)) + prod(l[11], r[6], Ghost(MAT_LIMIT as int), Ghost(MAT_LIMIT as int)) + prod(l[15], r[7], Ghost(MAT_LIMIT as int), Ghost(MAT_LIMIT as int));
        let e8 = prod(l[0], r[8], Ghost(MAT_LIMIT as int), Ghost(MAT_LIMIT as int)) + prod(l[4], r[9], Ghost(MAT_LIMIT as int), Ghost(MAT_LIMIT as int)) + prod(l[8], r[10], Ghost(MAT_LIMIT as int), Ghost(MAT_LIMIT as int)) + prod(l[12], r[11], Ghost(MAT_LIMIT as int), Ghost(MAT_LIMIT as int));
        let e9 = prod(l[1], r[8], Ghost(MAT_LIMIT as int), Ghost(MAT_LIMIT as int)) + prod(l[5], r[9], Ghost(MAT_LIMIT as int), Ghost(MAT_LIMIT as int)) + prod(l[9], r[10], Ghost(MAT_LIMIT as int), Ghost(MAT_LIMIT as int)) + prod(l[13], r[11], Ghost(MAT_LIMIT as int), Ghost(MAT_LIMIT as int));
        let e10 = prod(l[2], r[8], Ghost(MAT_LIMIT as int), Ghost(MAT_LIMIT as int)) + prod(l[6], r[9], Ghost(MAT_LIMIT as int), Ghost(MAT_LIMIT as int)) + prod(l[10], r[10], Ghost(MAT_LIMIT as int), Ghost(MAT_LIMIT as int)) + prod(l[14], r[11], Ghost(MAT_LIMIT as int), Ghost(MAT_LIMIT as int));
        let e11 = prod(l[3], r[8], Ghost(MAT_LIMIT as int), Ghost(MAT_LIMIT as int)) + prod(l[7], r[9], Ghost(MAT_LIMIT as int), Ghost(MAT_LIMIT as int)) + prod(l[11], r[10], Ghost(MAT_LIMIT as int), Ghost(MAT_LIMIT as int)) + prod(l[15], r[11], Ghost(MAT_LIMIT as int), Ghost(MAT_LIMIT as int));
        let e12 = prod(l[0], r[12], Ghost(MAT_LIMIT as int), Ghost(MAT_LIMIT as int)) + prod(l[4], r[13], Ghost(MAT_LIMIT as int), Ghost(MAT_LIMIT as int)) + prod(l[8], r[14], Ghost(MAT_LIMIT as int), Ghost(MAT_LIMIT as int)) + prod(l[12], r[15], Ghost(MAT_LIMIT as int), Ghost(MAT_LIMIT as int));
        let e13 = prod(l[1], r[12], Ghost(MAT_LIMIT as int), Ghost(MAT_LIMIT as int)) + prod(l[5], r[13], Ghost(MAT_LIMIT as int), Ghost(MAT_LIMIT as int)) + prod(l[9], r[14], Ghost(MAT_LIMIT as int), Ghost(MAT_LIMIT as int)) + prod(l[13], r[15], Ghost(MAT_LIMIT as int), Ghost(MAT_LIMIT as int));
        let e14 = prod(l[2], r[12], Ghost(MAT_LIMIT as int), Ghost(MAT_LIMIT as int)) + prod(l[6], r[13], Ghost(MAT_LIMIT as int), Ghost(MAT_LIMIT as int)) + prod(l[10], r[14], Ghost(MAT_LIMIT as int), Ghost(MAT_LIMIT as int)) + prod(l[14], r[15], Ghost(MAT_LIMIT as int), Ghost(MAT_LIMIT as int));
        let e15 = prod(l[3], r[12], Ghost(MAT_LIMIT as int), Ghost(MAT_LIMIT as int)) + prod(l[7], r[13], Ghost(MAT_LIMIT as int), Ghost(MAT_LIMIT as int)) + prod(l[11], r[14], Ghost(MAT_LIMIT as int), Ghost(MAT_LIMIT as int)) + prod(l[15], r[15], Ghost(MAT_LIMIT as int), Ghost(MAT_LIMIT as int));
        let m = Mat4 {
            contents: [
                e0, e1, e2, e3, e4, e5, e6, e7, e8, e9, e10, e11, e12, e13, e14, e15,
            ],
        };
        proof {
            assert(m@[0] == mat_mul_entry(self@, rhs@, 0, 0));
            assert(m@[1] == mat_mul_entry(self@, rhs@, 1, 0));
            assert(m@[2] == mat_mul_entry(self@, rhs@, 2, 0));
            assert(m@[3] == mat_mul_entry(self@, rhs@, 3, 0));
            assert(m@[4] == mat_mul_entry(self@, rhs@, 0, 1));
            assert(m@[5] == mat_mul_entry(self@, rhs@, 1, 1));
            assert(m@[6] == mat_mul_entry(self@, rhs@, 2, 1));
            assert(m@[7] == mat_mul_entry(self@, rhs@, 3, 1));
            assert(m@[8] == mat_mul_entry(self@, rhs@, 0, 2));
            assert(m@[9] == mat_mul_entry(self@, rhs@, 1, 2));
            assert(m@[10] == mat_mul_entry(self@, rhs@, 2, 2));
            assert(m@[11] == mat_mul_entry(self@, rhs@, 3, 2));
            assert(m@[12] == mat_mul_entry(self@, rhs@, 0, 3));
            assert(m@[13] == mat_mul_entry(self@, rhs@, 1, 3));
            assert(m@[14] == mat_mul_entry(self@, rhs@, 2, 3));
            assert(m@[15] == mat_mul_entry(self@, rhs@, 3, 3));
            assert forall|row: int, col: int|
                0 <= row < 4 && 0 <= col < 4 implies #[trigger] m@[col * 4 + row]
                == mat_mul_entry(self@, rhs@, row, col) by {}
        }
        m
    }

    /// Multiply a translation by `v` onto this matrix, in place.
    pub fn translate(&mut self, v: Vector3<i64>)
        requires
            mat_bounded(old(self)@, MAT_LIMIT as int),
            -MAT_LIMIT <= v.x <= MAT_LIMIT,
            -MAT_LIMIT <= v.y <= MAT_LIMIT,
            -MAT_LIMIT <= v.z <= MAT_LIMIT,
        ensures
            final(self)@.len() == 16,
            forall|row: int, col: int|
                0 <= row < 4 && 0 <= col < 4 ==> #[trigger] final(self)@[col * 4 + row]
                == mat_mul_entry(old(self)@, mat_translation_seq(v), row, col),
    {
        let t = Mat4::translation_matrix(v);
        proof {
            assert forall|k: int| 0 <= k < 16 implies -MAT_LIMIT <= #[trigger] t@[k]
                && t@[k] <= MAT_LIMIT by {}
        }
        let product = self.mul_mat(&t);
        *self = product;
    }

    /// The inverse scaled by the integer reciprocal of the determinant:
    /// `None` exactly for a singular matrix; otherwise each entry is the
    /// cofactor times `1`, `-1` or `0` according to the determinant, as
    /// integer division of one by the determinant gives.
    pub fn inverse(&self) -> (r: Option<Mat4>)
        requires
            mat_bounded(self@, INV_LIMIT as int),
        ensures
            r is Some <==> mat_det(self@) != 0,
            r matches Some(n) ==> n@.len() == 16 && forall|k: int|
                0 <= k < 16 ==> #[trigger] n@[k] == mat_inv_scale(mat_det(self@)) * mat_cofactor(
                    self@,
                    k,
                ),
    {
        let m = &self.contents;
        let c0 = tri(m[5], m[10], m[15]) - tri(m[5], m[11], m[14]) - tri(m[9], m[6], m[15]) + tri(m[9], m[7], m[14]) + tri(m[13], m[6], m[11]) - tri(m[13], m[7], m[10]);
        let c1 = -tri(m[1], m[10], m[15]) + tri(m[1], m[11], m[14]) + tri(m[9], m[2], m[15]) - tri(m[9], m[3], m[14]) - tri(m[13], m[2], m[11]) + tri(m[13], m[3], m[10]);
        let c2 = tri(m[1], m[6], m[15]) - tri(m[1], m[7], m[14]) - tri(m[5], m[2], m[15]) + tri(m[5], m[3], m[14]) + tri(m[13], m[2], m[7]) - tri(m[13], m[3], m[6]);
        let c3 = -tri(m[1], m[6], m[11]) + tri(m[1], m[7], m[10]) + tri(m[5], m[2], m[11]) - tri(m[5], m[3], m[10]) - tri(m[9], m[2], m[7]) + tri(m[9], m[3], m[6]);
        let c4 = -tri(m[4], m[10], m[15]) + tri(m[4], m[11], m[14]) + tri(m[8], m[6], m[15]) - tri(m[8], m[7], m[14]) - tri(m[12], m[6], m[11]) + tri(m[12], m[7], m[10]);
        let c5 = tri(m[0], m[10], m[15]) - tri(m[0], m[11], m[14]) - tri(m[8], m[2], m[15]) + tri(m[8], m[3], m[14]) + tri(m[12], m[2], m[11]) - tri(m[12], m[3], m[10]);
        let c6 = -tri(m[0], m[6], m[15]) + tri(m[0], m[7], m[14]) + tri(m[4], m[2], m[15]) - tri(m[4], m[3], m[14]) - tri(m[12], m[2], m[7]) + tri(m[12], m[3], m[6]);
        let c7 = tri(m[0], m[6], m[11]) - tri(m[0], m[7], m[10]) - tri(m[4], m[2], m[11]) + tri(m[4], m[3], m[10]) + tri(m[8], m[2], m[7]) - tri(m[8], m[3], m[6]);
        let c8 = tri(m[4], m[9], m[15]) - tri(m[4], m[11], m[13]) - tri(m[8], m[5], m[15]) + tri(m[8], m[7], m[13]) + tri(m[12], m[5], m[11]) - tri(m[12], m[7], m[9]);
        let c9 = -tri(m[0], m[9], m[15]) + tri(m[0], m[11], m[13]) + tri(m[8], m[1], m[15]) - tri(m[8], m[3], m[13]) - tri(m[12], m[1], m[11]) + tri(m[12], m[3], m[9]);
        let c10 = tri(m[0], m[5], m[15]) - tri(m[0], m[7], m[13]) - tri(m[4], m[1], m[15]) + tri(m[4], m[3], m[13]) + tri(m[12], m[1], m[7]) - tri(m[12], m[3], m[5]);
        let c11 = -tri(m[0], m[5], m[11]) + tri(m[0], m[7], m[9]) + tri(m[4], m[1], m[11]) - tri(m[4], m[3], m[9]) - tri(m[8], m[1], m[7]) + tri(m[8], m[3], m[5]);
        let c12 = -tri(m[4], m[9], m[14]) + tri(m[4], m[10], m[13]) + tri(m[8], m[5], m[14]) - tri(m[8], m[6], m[13]) - tri(m[12], m[5], m[10]) + tri(m[12], m[6], m[9]);
        let c13 = tri(m[0], m[9], m[14]) - tri(m[0], m[10], m[13]) - tri(m[8], m[1], m[14]) + tri(m[8], m[2], m[13]) + tri(m[12], m[1], m[10]) - tri(m[12], m[2], m[9]);
        let c14 = -tri(m[0], m[5], m[14]) + tri(m[0], m[6], m[13]) + tri(m[4], m[1], m[14]) - tri(m[4], m[2], m[13]) - tri(m[12], m[1], m[6]) + tri(m[12], m[2], m[5]);
        let c15 = tri(m[0], m[5], m[10]) - tri(m[0], m[6], m[9]) - tri(m[4], m[1], m[10]) + tri(m[4], m[2], m[9]) + tri(m[8], m[1], m[6]) - tri(m[8], m[2], m[5]);
        proof {
            assert(c0 == mat_cofactor(self@, 0));
            assert(c1 == mat_cofactor(self@, 1));
            assert(c2 == mat_cofactor(self@, 2));
            assert(c3 == mat_cofactor(self@, 3));
            assert(c4 == mat_cofactor(self@, 4));
            assert(c5 == mat_cofactor(self@, 5));
            assert(c6 == mat_cofactor(self@, 6));
            assert(c7 == mat_cofactor(self@, 7));
            assert(c8 == mat_cofactor(self@, 8));
            assert(c9 == mat_cofactor(self@, 9));
            assert(c10 == mat_cofactor(self@, 10));
            assert(c11 == mat_cofactor(self@, 11));
            assert(c12 == mat_cofactor(self@, 12));
            assert(c13 == mat_cofactor(self@, 13));
            assert(c14 == mat_cofactor(self@, 14));
            assert(c15 == mat_cofactor(self@, 15));
        }
        let d0 = prod(m[0], c0, Ghost(INV_LIMIT as int), Ghost(48_000_000_000_000int));
        let d1 = prod(m[1], c4, Ghost(INV_LIMIT as int), Ghost(48_000_000_000_000int));
        let d2 = prod(m[2], c8, Ghost(INV_LIMIT as int), Ghost(48_000_000_000_000int));
        let d3 = prod(m[3], c12, Ghost(INV_LIMIT as int), Ghost(48_000_000_000_000int));
        let det = d0 + d1 + d2 + d3;
        proof {
            assert(det == mat_det(self@));
        }
        if det == 0 {
            return None;
        }
        // integer reciprocal: what 1 / det comes to for an i64 divisor
        let s: i64 = if det == 1 {
            1
        } else if det == -1 {
            -1
        } else {
            0
        };
        proof {
            assert(s == mat_inv_scale(mat_det(self@)));
        }
        let n = Mat4 {
            contents: [
                prod(c0, s, Ghost(48_000_000_000_000int), Ghost(1int)),
                prod(c1, s, Ghost(48_000_000_000_000int), Ghost(1int)),
                prod(c2, s, Ghost(48_000_000_000_000int), Ghost(1int)),
                prod(c3, s, Ghost(48_000_000_000_000int), Ghost(1int)),
                prod(c4, s, Ghost(48_000_000_000_000int), Ghost(1int)),
                prod(c5, s, Ghost(48_000_000_000_000int), Ghost(1int)),
                prod(c6, s, Ghost(48_000_000_000_000int), Ghost(1int)),
                prod(c7, s, Ghost(48_000_000_000_000int), Ghost(1int)),
                prod(c8, s, Ghost(48_000_000_000_000int), Ghost(1int)),
                prod(c9, s, Ghost(48_000_000_000_000int), Ghost(1int)),
                prod(c10, s, Ghost(48_000_000_000_000int), Ghost(1int)),
                prod(c11, s, Ghost(48_000_000_000_000int), Ghost(1int)),
                prod(c12, s, Ghost(48_000_000_000_000int), Ghost(1int)),
                prod(c13, s, Ghost(48_000_000_000_000int), Ghost(1int)),
                prod(c14, s, Ghost(48_000_000_000_000int), Ghost(1int)),
                prod(c15, s, Ghost(48_000_000_000_000int), Ghost(1int)),
            ],
        };
        proof {
            assert forall|k: int| 0 <= k < 16 implies #[trigger] n@[k] == mat_inv_scale(
                mat_det(self@),
            ) * mat_cofactor(self@, k) by {}
        }
        Some(n)
    }
}

} // verus!
