//! 3x3 matrices over `i64`, stored row by row as nine values ("row
//! major": the element in column `x` of row `y` sits at index `x + 3*y`).

use vstd::prelude::*;
use crate::arith::prod;
use crate::vec::Vector;

verus! {

/// Entry magnitude accepted by the 3x3 matrix products.
pub const MAT3_LIMIT: i64 = 750_000_000;

/// Entry `(row, col)` of the product of two matrices held as flat
/// row-major lists.
pub open spec fn mat3_mul_entry(l: Seq<i64>, r: Seq<i64>, row: int, col: int) -> int {
    l[3 * row] * r[col] + l[3 * row + 1] * r[col + 3] + l[3 * row + 2] * r[col + 6]
}

/// Every entry within `[-b, b]`.
pub open spec fn mat3_bounded(m: Seq<i64>, b: int) -> bool {
    forall|k: int| 0 <= k < 9 ==> -b <= #[trigger] m[k] <= b
}

/// The diagonal matrix with `v`'s components on the diagonal, as a flat
/// list.
pub open spec fn mat3_diag_seq(v: Vector) -> Seq<i64> {
    Seq::new(
        9,
        |k: int|
            if k == 0 {
                v.x
            } else if k == 4 {
                v.y
            } else if k == 8 {
                v.z
            } else {
                0i64
            },
    )
}

/// Matrice of order 3 x 3, stored as row major.
#[derive(Copy, Clone, Debug, Default, PartialEq)]
pub struct Mat3 {
    contents: [i64; 9],
}

impl View for Mat3 {
    type V = Seq<i64>;

    /// A matrix is abstractly its flat row-major entry list.
    closed spec fn view(&self) -> Seq<i64> {
        self.contents@
    }
}

impl Mat3 {
    /// Create a new matrix, all zeroes.
    pub fn new() -> (m: Self)
        ensures
            m@.len() == 9,
            forall|k: int| 0 <= k < 9 ==> #[trigger] m@[k] == 0,
    {
        Mat3 { contents: [0; 9] }
    }

    /// Create an identity matrix.
    pub fn identity() -> (m: Self)
        ensures
            m@.len() == 9,
            forall|k: int|
                0 <= k < 9 ==> #[trigger] m@[k] == if k == 0 || k == 4 || k == 8 {
                    1i64
                } else {
                    0i64
                },
    {
        let mut a = Self::new();
        a.change(0, 0, 1);
        a.change(1, 1, 1);
        a.change(2, 2, 1);
        a
    }

    /// Change the element at column `x` of row `y`.
    pub fn change(&mut self, x: usize, y: usize, val: i64)
        requires
            x < 3,
            y < 3,
        ensures
            final(self)@ == old(self)@.update(x + 3 * y, val),
    {
        let index = Self::index(x, y);
        self.contents[index] = val;
    }

    /// Get the element at column `x` of row `y`.
    pub fn get(&self, x: usize, y: usize) -> (r: i64)
        requires
            x < 3,
            y < 3,
        ensures
            r == self@[x + 3 * y],
    {
        let index = Self::index(x, y);
        self.contents[index]
    }

    /// The flat index of the element at column `x` of row `y`.
    pub fn index(x: usize, y: usize) -> (i: usize)
        requires
            x < 3,
            y < 3,
        ensures
            i == x + y * 3,
    {
        x + y * 3
    }

    /// The column and row of a flat index.
    pub fn coords(i: usize) -> (xy: (usize, usize))
        ensures
            xy.0 == i % 3,
            xy.1 == i / 3,
    {
        (i % 3, i / 3)
    }

    /// One column as a vector.
    pub fn get_col(&self, x: usize) -> (v: Vector)
        requires
            x < 3,
        ensures
            v == (Vector { x: self@[x as int], y: self@[x + 3], z: self@[x + 6] }),
    {
        Vector::new3(self.get(x, 0), self.get(x, 1), self.get(x, 2))
    }

    /// One row as a vector.
    pub fn get_row(&self, y: usize) -> (v: Vector)
        requires
            y < 3,
        ensures
            v == (Vector { x: self@[3 * y], y: self@[3 * y + 1], z: self@[3 * y + 2] }),
    {
        Vector::new3(self.get(0, y), self.get(1, y), self.get(2, y))
    }

    /// The matrix in row-major order: a copy of itself.
    pub fn get_row_major(&self) -> (m: Mat3)
        ensures
            m == *self,
    {
        *self
    }

    /// The matrix in column-major order: its transpose.
    pub fn get_column_major(&self) -> (m: Mat3)
        ensures
            m@.len() == 9,
            forall|x: int, y: int|
                0 <= x < 3 && 0 <= y < 3 ==> #[trigger] m@[x + 3 * y] == self@[y + 3 * x],
    {
        self.transpose()
    }

    /// Transposes the matrice; does not change `self`.
    pub fn transpose(&self) -> (m: Mat3)
        ensures
            m@.len() == 9,
            forall|x: int, y: int|
                0 <= x < 3 && 0 <= y < 3 ==> #[trigger] m@[x + 3 * y] == self@[y + 3 * x],
    {
        let c = &self.contents;
        let m = Mat3 { contents: [c[0], c[3], c[6], c[1], c[4], c[7], c[2], c[5], c[8]] };
        proof {
            assert forall|x: int, y: int|
                0 <= x < 3 && 0 <= y < 3 implies #[trigger] m@[x + 3 * y] == self@[y + 3
                * x] by {}
        }
        m
    }

    /// Wrap a row-major array of entries.
    pub fn from_array(mat: [i64; 9]) -> (m: Mat3)
        ensures
            m@ == mat@,
    {
        Mat3 { contents: mat }
    }

    /// The diagonal matrix of a vector.
    pub fn from_vec(vec: &Vector) -> (m: Mat3)
        ensures
            m@ == mat3_diag_seq(*vec),
    {
        let mut mat = Mat3::new();
        mat.change(0, 0, vec.x);
        mat.change(1, 1, vec.y);
        mat.change(2, 2, vec.z);
        proof {
            assert(mat@ =~= mat3_diag_seq(*vec));
        }
        mat
    }

    /// The entries in array form.
    pub fn get_contents(&self) -> (c: [i64; 9])
        ensures
            c@ == self@,
    {
        self.contents
    }

    /// The row sums as a vector.
    pub fn to_vec3(&self) -> (v: Vector)
        requires
            mat3_bounded(self@, MAT3_LIMIT as int),
        ensures
            v.x == self@[0] + self@[1] + self@[2],
            v.y == self@[3] + self@[4] + self@[5],
            v.z == self@[6] + self@[7] + self@[8],
    {
        let mut vec3 = Vector::default();
        vec3.x = self.get_row(0).sum();
        vec3.y = self.get_row(1).sum();
        vec3.z = self.get_row(2).sum();
        vec3
    }

    /// Matrix product, elementwise exact.
    pub fn mul_mat3(&self, rhs: &Mat3) -> (m: Mat3)
        requires
            mat3_bounded(self@, MAT3_LIMIT as int),
            mat3_bounded(rhs@, MAT3_LIMIT as int),
        ensures
            m@.len() == 9,
            forall|row: int, col: int|
                0 <= row < 3 && 0 <= col < 3 ==> #[trigger] m@[col + 3 * row] == mat3_mul_entry(
                    self@,
                    rhs@,
                    row,
                    col,
                ),
    {
        let l = &self.contents;
        let r = &rhs.contents;
        let e0 = prod(l[0], r[0], Ghost(MAT3_LIMIT as int), Ghost(MAT3_LIMIT as int)) + prod(l[1], r[3], Ghost(MAT3_LIMIT as int), Ghost(MAT3_LIMIT as int)) + prod(l[2], r[6], Ghost(MAT3_LIMIT as int), Ghost(MAT3_LIMIT as int));
        let e1 = prod(l[0], r[1], Ghost(MAT3_LIMIT as int), Ghost(MAT3_LIMIT as int)) + prod(l[1], r[4], Ghost(MAT3_LIMIT as int), Ghost(MAT3_LIMIT as int)) + prod(l[2], r[7], Ghost(MAT3_LIMIT as int), Ghost(MAT3_LIMIT as int));
        let e2 = prod(l[0], r[2], Ghost(MAT3_LIMIT as int), Ghost(MAT3_LIMIT as int)) + prod(l[1], r[5], Ghost(MAT3_LIMIT as int), Ghost(MAT3_LIMIT as int)) + prod(l[2], r[8], Ghost(MAT3_LIMIT as int), Ghost(MAT3_LIMIT as int));
        let e3 = prod(l[3], r[0], Ghost(MAT3_LIMIT as int), Ghost(MAT3_LIMIT as int)) + prod(l[4], r[3], Ghost(MAT3_LIMIT as int), Ghost(MAT3_LIMIT as int)) + prod(l[5], r[6], Ghost(MAT3_LIMIT as int), Ghost(MAT3_LIMIT as int));
        let e4 = prod(l[3], r[1], Ghost(MAT3_LIMIT as int), Ghost(MAT3_LIMIT as int)) + prod(l[4], r[4], Ghost(MAT3_LIMIT as int), Ghost(MAT3_LIMIT as int)) + prod(l[5], r[7], Ghost(MAT3_LIMIT as int), Ghost(MAT3_LIMIT as int));
        let e5 = prod(l[3], r[2], Ghost(MAT3_LIMIT as int), Ghost(MAT3_LIMIT as int)) + prod(l[4], r[5], Ghost(MAT3_LIMIT as int), Ghost(MAT3_LIMIT as int)) + prod(l[5], r[8], Ghost(MAT3_LIMIT as int), Ghost(MAT3_LIMIT as int));
        let e6 = prod(l[6], r[0], Ghost(MAT3_LIMIT as int), Ghost(MAT3_LIMIT as int)) + prod(l[7], r[3], Ghost(MAT3_LIMIT as int), Ghost(MAT3_LIMIT as int)) + prod(l[8], r[6], Ghost(MAT3_LIMIT as int), Ghost(MAT3_LIMIT as int));
        let e7 = prod(l[6], r[1], Ghost(MAT3_LIMIT as int), Ghost(MAT3_LIMIT as int)) + prod(l[7], r[4], Ghost(MAT3_LIMIT as int), Ghost(MAT3_LIMIT as int)) + prod(l[8], r[7], Ghost(MAT3_LIMIT as int), Ghost(MAT3_LIMIT as int));
        let e8 = prod(l[6], r[2], Ghost(MAT3_LIMIT as int), Ghost(MAT3_LIMIT as int)) + prod(l[7], r[5], Ghost(MAT3_LIMIT as int), Ghost(MAT3_LIMIT as int)) + prod(l[8], r[8], Ghost(MAT3_LIMIT as int), Ghost(MAT3_LIMIT as int));
        let m = Mat3 { contents: [e0, e1, e2, e3, e4, e5, e6, e7, e8] };
        proof {
            assert(m@[0] == mat3_mul_entry(self@, rhs@, 0, 0));
            assert(m@[1] == mat3_mul_entry(self@, rhs@, 0, 1));
            assert(m@[2] == mat3_mul_entry(self@, rhs@, 0, 2));
            assert(m@[3] == mat3_mul_entry(self@, rhs@, 1, 0));
            assert(m@[4] == mat3_mul_entry(self@, rhs@, 1, 1));
            assert(m@[5] == mat3_mul_entry(self@, rhs@, 1, 2));
            assert(m@[6] == mat3_mul_entry(self@, rhs@, 2, 0));
            assert(m@[7] == mat3_mul_entry(self@, rhs@, 2, 1));
            assert(m@[8] == mat3_mul_entry(self@, rhs@, 2, 2));
            assert forall|row: int, col: int|
                0 <= row < 3 && 0 <= col < 3 implies #[trigger] m@[col + 3 * row]
                == mat3_mul_entry(self@, rhs@, row, col) by {}
        }
        m
    }

    /// Scale the matrix in place: multiplying the diagonal matrix of
    /// `vec` from the left scales each row by the matching component.
    pub fn scale(&mut self, vec: Vector)
        requires
            mat3_bounded(old(self)@, MAT3_LIMIT as int),
            vec.bounded(),
        ensures
            final(self)@.len() == 9,
            forall|row: int, col: int|
                0 <= row < 3 && 0 <= col < 3 ==> #[trigger] final(self)@[col + 3 * row]
                == mat3_mul_entry(mat3_diag_seq(vec), old(self)@, row, col),
    {
        let d = Mat3::from_vec(&vec);
        proof {
            assert forall|k: int| 0 <= k < 9 implies -MAT3_LIMIT <= #[trigger] d@[k] && d@[k]
                <= MAT3_LIMIT by {}
        }
        let product = d.mul_mat3(&*self);
        *self = product;
    }
}

} // verus!
