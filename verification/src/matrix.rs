//! Square matrices (2x2, 3x3, 4x4) stored row-major, with determinant,
//! minor, cofactor, submatrix, transpose and inverse by cofactor
//! expansion, 4x4 affine builders, and matrix-matrix / matrix-tuple
//! multiplication.

use vstd::prelude::*;
use crate::scalar::{
    add_bits, approx_eq_bits, div_bits, eq_bits, mul_bits, neg_bits, sub_bits, float_add,
    float_div, float_eq, float_mul, float_neg, float_sub, BITS_ONE, BITS_ZERO,
};
use crate::tuple::{spec_dot, Tuple};
use crate::util::float_equality;
use vstd::arithmetic::div_mod::lemma_fundamental_div_mod_converse;

verus! {

/// A square matrix of scalars in row-major order. The storage is public
/// so that contracts can speak of it; `at` is the bounds-checked reader.
#[derive(Debug)]
pub struct Matrix {
    pub rows: u32,
    pub cols: u32,
    pub data: Vec<u32>,
}

/// One cell of a row-major square matrix of side `n`.
pub open spec fn seq_cell(n: int, d: Seq<u32>, i: int, j: int) -> u32 {
    d[i * n + j]
}

/// The `i`-th row of a 4x4 matrix, as a tuple.
pub open spec fn spec_row4(d: Seq<u32>, i: int) -> Tuple {
    Tuple { x: d[i * 4], y: d[i * 4 + 1], z: d[i * 4 + 2], w: d[i * 4 + 3] }
}

/// The `j`-th column of a 4x4 matrix, as a tuple.
pub open spec fn spec_col4(d: Seq<u32>, j: int) -> Tuple {
    Tuple { x: d[j], y: d[4 + j], z: d[8 + j], w: d[12 + j] }
}

/// One cell of the product of two 4x4 matrices: the dot product of a row
/// of the left operand with a column of the right.
pub open spec fn spec_mul4_cell(a: Seq<u32>, b: Seq<u32>, i: int, j: int) -> u32 {
    spec_dot(spec_row4(a, i), spec_col4(b, j))
}

/// Index into the parent matrix of side `n` for cell `(i, j)` of the
/// submatrix that drops `row` and `col`: indices at or past the dropped
/// line shift up by one.
pub open spec fn spec_parent_index(n: int, row: int, col: int, i: int, j: int) -> int {
    (i + if i >= row {
        1int
    } else {
        0int
    }) * n + (j + if j >= col {
        1int
    } else {
        0int
    })
}

/// The storage of the submatrix of a side-`n` matrix with `row` and
/// `col` removed.
pub open spec fn spec_sub_seq(n: int, d: Seq<u32>, row: int, col: int) -> Seq<u32> {
    Seq::new(
        ((n - 1) * (n - 1)) as nat,
        |k: int| d[spec_parent_index(n, row, col, k / (n - 1), k % (n - 1))],
    )
}

/// Determinant of a side-`n` row-major matrix: `ad - bc` for 2x2, the
/// cofactor expansion along row zero otherwise, summed left to right
/// starting from zero as the running total.
pub open spec fn spec_det_seq(n: int, d: Seq<u32>) -> u32
    decreases n, 2int, 0int,
{
    if n <= 2 {
        sub_bits(mul_bits(d[0], d[3]), mul_bits(d[1], d[2]))
    } else {
        spec_det_row0(n, d, n)
    }
}

/// Partial sum of the first `i` terms of the expansion of the
/// determinant along row zero.
pub open spec fn spec_det_row0(n: int, d: Seq<u32>, i: int) -> u32
    decreases n, 1int, i,
{
    if i <= 0 {
        BITS_ZERO
    } else {
        add_bits(spec_det_row0(n, d, i - 1), mul_bits(d[i - 1], spec_cof_seq(n, d, 0, i - 1)))
    }
}

/// Cofactor at `(r, c)`: the minor, negated where `r + c` is odd.
pub open spec fn spec_cof_seq(n: int, d: Seq<u32>, r: int, c: int) -> u32
    decreases n, 0int, 0int,
{
    if n < 3 {
        BITS_ZERO
    } else {
        let minor = spec_det_seq(n - 1, spec_sub_seq(n, d, r, c));
        if (r + c) % 2 == 0 {
            minor
        } else {
            neg_bits(minor)
        }
    }
}

/// Row-major index arithmetic: an in-range cell lies inside the storage.
pub proof fn lemma_row_major_bound(rows: int, cols: int, i: int, j: int)
    requires
        0 <= i < rows,
        0 <= j < cols,
    ensures
        0 <= i * cols + j < rows * cols,
        (i + 1) * cols == i * cols + cols,
{
    assert(0 <= i * cols + j && i * cols + j < rows * cols && (i + 1) * cols == i * cols + cols)
        by (nonlinear_arith)
        requires
            0 <= i < rows,
            0 <= j < cols,
    ;
}

/// Bound on the product of two small sides.
pub proof fn lemma_small_product(rows: int, cols: int)
    requires
        0 <= rows <= 4,
        0 <= cols <= 4,
    ensures
        rows * cols <= 16,
{
    assert(rows * cols <= 16) by (nonlinear_arith)
        requires
            0 <= rows <= 4,
            0 <= cols <= 4,
    ;
}

/// Componentwise approximate equality of equally sized matrices.
pub open spec fn matrix_approx_eq(a: Matrix, b: Matrix) -> bool {
    a.rows == b.rows && a.cols == b.cols && a.data@.len() == b.data@.len() && forall|k: int|
        0 <= k < a.data@.len() ==> approx_eq_bits(a.data@[k], b.data@[k])
}

impl Matrix {
    /// Well-formed: square, of side two to four, storage of matching
    /// length.
    pub open spec fn wf(self) -> bool {
        self.rows == self.cols && 2 <= self.rows <= 4 && self.data@.len() == self.rows * self.cols
    }

    /// The cell at row `i`, column `j`.
    pub open spec fn cell(self, i: int, j: int) -> u32 {
        seq_cell(self.cols as int, self.data@, i, j)
    }

    /// Determinant of this matrix, as a spec value.
    pub open spec fn spec_determinant(self) -> u32 {
        spec_det_seq(self.rows as int, self.data@)
    }

    /// Cofactor of this matrix at `(r, c)`, as a spec value.
    pub open spec fn spec_cofactor(self, r: int, c: int) -> u32 {
        spec_cof_seq(self.rows as int, self.data@, r, c)
    }

    /// A 4x4 matrix from sixteen cells in row-major order.
    pub fn new4x4(
        a: u32, b: u32, c: u32, d: u32,
        e: u32, f: u32, g: u32, h: u32,
        i: u32, j: u32, k: u32, l: u32,
        m: u32, n: u32, o: u32, p: u32,
    ) -> (r: Matrix)
        ensures
            r.wf(),
            r.rows == 4,
            r.cols == 4,
            r.data@ == seq![a, b, c, d, e, f, g, h, i, j, k, l, m, n, o, p],
    {
        let data = vec![a, b, c, d, e, f, g, h, i, j, k, l, m, n, o, p];
        proof {
            assert(data@ =~= seq![a, b, c, d, e, f, g, h, i, j, k, l, m, n, o, p]);
        }
        Matrix { rows: 4, cols: 4, data }
    }

    /// A 3x3 matrix from nine cells in row-major order.
    pub fn new3x3(
        a: u32, b: u32, c: u32,
        d: u32, e: u32, f: u32,
        g: u32, h: u32, i: u32,
    ) -> (r: Matrix)
        ensures
            r.wf(),
            r.rows == 3,
            r.cols == 3,
            r.data@ == seq![a, b, c, d, e, f, g, h, i],
    {
        let data = vec![a, b, c, d, e, f, g, h, i];
        proof {
            assert(data@ =~= seq![a, b, c, d, e, f, g, h, i]);
        }
        Matrix { rows: 3, cols: 3, data }
    }

    /// A 2x2 matrix from four cells in row-major order.
    pub fn new2x2(a: u32, b: u32, c: u32, d: u32) -> (r: Matrix)
        ensures
            r.wf(),
            r.rows == 2,
            r.cols == 2,
            r.data@ == seq![a, b, c, d],
    {
        let data = vec![a, b, c, d];
        proof {
            assert(data@ =~= seq![a, b, c, d]);
        }
        Matrix { rows: 2, cols: 2, data }
    }

    /// The cell at row `r`, column `c`. Out-of-range indices are the
    /// caller's fault and are excluded here rather than met with a panic.
    pub fn at(&self, r: u32, c: u32) -> (v: u32)
        requires
            self.wf(),
            r < self.rows,
            c < self.cols,
        ensures
            v == self.cell(r as int, c as int),
    {
        proof {
            lemma_row_major_bound(self.rows as int, self.cols as int, r as int, c as int);
            lemma_small_product(self.rows as int, self.cols as int);
        }
        let idx = r * self.cols + c;
        self.data[idx as usize]
    }

    /// The `r`-th row of a 4x4 matrix, as a tuple.
    pub fn row(&self, r: u32) -> (t: Tuple)
        requires
            self.wf(),
            self.rows == 4,
            r < 4,
        ensures
            t == spec_row4(self.data@, r as int),
    {
        Tuple { x: self.at(r, 0), y: self.at(r, 1), z: self.at(r, 2), w: self.at(r, 3) }
    }

    /// The `c`-th column of a 4x4 matrix, as a tuple.
    pub fn col(&self, c: u32) -> (t: Tuple)
        requires
            self.wf(),
            self.rows == 4,
            c < 4,
        ensures
            t == spec_col4(self.data@, c as int),
    {
        Tuple { x: self.at(0, c), y: self.at(1, c), z: self.at(2, c), w: self.at(3, c) }
    }

    /// The transposed matrix: cell `(i, j)` holds cell `(j, i)` of the
    /// original.
    pub fn transpose(&self) -> (r: Matrix)
        requires
            self.wf(),
        ensures
            r.wf(),
            r.rows == self.rows,
            r.cols == self.cols,
            forall|i: int, j: int|
                0 <= i < self.rows && 0 <= j < self.cols ==> r.cell(i, j) == self.cell(j, i),
    {
        let n = self.rows;
        let mut data: Vec<u32> = Vec::new();
        let mut i: u32 = 0;
        while i < n
            invariant
                self.wf(),
                n == self.rows,
                i <= n,
                data@.len() == i * n,
                forall|a: int, b: int|
                    0 <= a < i && 0 <= b < n ==> data@[a * n + b] == self.cell(b, a),
            decreases n - i,
        {
            let mut j: u32 = 0;
            while j < n
                invariant
                    self.wf(),
                    n == self.rows,
                    i < n,
                    j <= n,
                    data@.len() == i * n + j,
                    forall|a: int, b: int|
                        0 <= a < i && 0 <= b < n ==> data@[a * n + b] == self.cell(b, a),
                    forall|b: int| 0 <= b < j ==> data@[i * n + b] == self.cell(b, i as int),
                decreases n - j,
            {
                proof {
                    lemma_row_major_bound(self.rows as int, self.cols as int, i as int, j as int);
                }
                data.push(self.at(j, i));
                j = j + 1;
                proof {
                    assert forall|a: int, b: int| 0 <= a < i && 0 <= b < n implies data@[a * n
                        + b] == self.cell(b, a) by {
                        lemma_row_major_bound(i as int, n as int, a, b);
                    }
                }
            }
            proof {
                lemma_row_major_bound(self.rows as int, self.cols as int, i as int, 0);
                assert forall|a: int, b: int| 0 <= a < i + 1 && 0 <= b < n implies data@[a * n
                    + b] == self.cell(b, a) by {
                    lemma_row_major_bound(i as int + 1, n as int, a, b);
                }
            }
            i = i + 1;
        }
        proof {
            assert(data@.len() == n * n) by (nonlinear_arith)
                requires
                    data@.len() == (n as int) * (n as int),
            ;
        }
        Matrix { rows: n, cols: n, data }
    }
}

/// Storage of the 4x4 identity matrix.
pub open spec fn spec_identity_seq() -> Seq<u32> {
    seq![
        BITS_ONE, BITS_ZERO, BITS_ZERO, BITS_ZERO,
        BITS_ZERO, BITS_ONE, BITS_ZERO, BITS_ZERO,
        BITS_ZERO, BITS_ZERO, BITS_ONE, BITS_ZERO,
        BITS_ZERO, BITS_ZERO, BITS_ZERO, BITS_ONE,
    ]
}

/// Storage of the translation by `(x, y, z)`: identity with the last
/// column holding the offsets.
pub open spec fn spec_translation_seq(x: u32, y: u32, z: u32) -> Seq<u32> {
    seq![
        BITS_ONE, BITS_ZERO, BITS_ZERO, x,
        BITS_ZERO, BITS_ONE, BITS_ZERO, y,
        BITS_ZERO, BITS_ZERO, BITS_ONE, z,
        BITS_ZERO, BITS_ZERO, BITS_ZERO, BITS_ONE,
    ]
}

/// Storage of the scaling by `(x, y, z)`: the diagonal holds the
/// factors.
pub open spec fn spec_scaling_seq(x: u32, y: u32, z: u32) -> Seq<u32> {
    seq![
        x, BITS_ZERO, BITS_ZERO, BITS_ZERO,
        BITS_ZERO, y, BITS_ZERO, BITS_ZERO,
        BITS_ZERO, BITS_ZERO, z, BITS_ZERO,
        BITS_ZERO, BITS_ZERO, BITS_ZERO, BITS_ONE,
    ]
}

/// Storage of the rotation about the x axis whose angle has sine `s`
/// and cosine `c`.
pub open spec fn spec_rotation_x_seq(s: u32, c: u32) -> Seq<u32> {
    seq![
        BITS_ONE, BITS_ZERO, BITS_ZERO, BITS_ZERO,
        BITS_ZERO, c, neg_bits(s), BITS_ZERO,
        BITS_ZERO, s, c, BITS_ZERO,
        BITS_ZERO, BITS_ZERO, BITS_ZERO, BITS_ONE,
    ]
}

/// Storage of the rotation about the y axis whose angle has sine `s`
/// and cosine `c`.
pub open spec fn spec_rotation_y_seq(s: u32, c: u32) -> Seq<u32> {
    seq![
        c, BITS_ZERO, s, BITS_ZERO,
        BITS_ZERO, BITS_ONE, BITS_ZERO, BITS_ZERO,
        neg_bits(s), BITS_ZERO, c, BITS_ZERO,
        BITS_ZERO, BITS_ZERO, BITS_ZERO, BITS_ONE,
    ]
}

/// Storage of the rotation about the z axis whose angle has sine `s`
/// and cosine `c`.
pub open spec fn spec_rotation_z_seq(s: u32, c: u32) -> Seq<u32> {
    seq![
        c, neg_bits(s), BITS_ZERO, BITS_ZERO,
        s, c, BITS_ZERO, BITS_ZERO,
        BITS_ZERO, BITS_ZERO, BITS_ONE, BITS_ZERO,
        BITS_ZERO, BITS_ZERO, BITS_ZERO, BITS_ONE,
    ]
}

/// Storage of the shear with the six proportionality coefficients.
pub open spec fn spec_shearing_seq(
    x_y: u32, x_z: u32, y_x: u32, y_z: u32, z_x: u32, z_y: u32,
) -> Seq<u32> {
    seq![
        BITS_ONE, x_y, x_z, BITS_ZERO,
        y_x, BITS_ONE, y_z, BITS_ZERO,
        z_x, z_y, BITS_ONE, BITS_ZERO,
        BITS_ZERO, BITS_ZERO, BITS_ZERO, BITS_ONE,
    ]
}

/// The tuple `t` taken through the 4x4 matrix `d`: each component is
/// the dot product of `t` with the matching row.
pub open spec fn spec_mul_tuple4(d: Seq<u32>, t: Tuple) -> Tuple {
    Tuple {
        x: spec_dot(t, spec_row4(d, 0)),
        y: spec_dot(t, spec_row4(d, 1)),
        z: spec_dot(t, spec_row4(d, 2)),
        w: spec_dot(t, spec_row4(d, 3)),
    }
}

impl Matrix {
    /// The minor at `(r, c)`: the determinant of the submatrix that
    /// drops row `r` and column `c`.
    pub open spec fn spec_minor(self, r: int, c: int) -> u32 {
        spec_det_seq(
            self.rows as int - 1,
            spec_sub_seq(self.rows as int, self.data@, r, c),
        )
    }

    /// The 4x4 identity matrix.
    pub fn identity() -> (r: Matrix)
        ensures
            r.wf(),
            r.rows == 4,
            r.cols == 4,
            r.data@ == spec_identity_seq(),
    {
        let data = vec![
            BITS_ONE, BITS_ZERO, BITS_ZERO, BITS_ZERO,
            BITS_ZERO, BITS_ONE, BITS_ZERO, BITS_ZERO,
            BITS_ZERO, BITS_ZERO, BITS_ONE, BITS_ZERO,
            BITS_ZERO, BITS_ZERO, BITS_ZERO, BITS_ONE,
        ];
        proof {
            assert(data@ =~= spec_identity_seq());
        }
        Matrix { rows: 4, cols: 4, data }
    }

    /// The translation by `(x, y, z)`.
    pub fn translation(x: u32, y: u32, z: u32) -> (r: Matrix)
        ensures
            r.wf(),
            r.rows == 4,
            r.cols == 4,
            r.data@ == spec_translation_seq(x, y, z),
    {
        let data = vec![
            BITS_ONE, BITS_ZERO, BITS_ZERO, x,
            BITS_ZERO, BITS_ONE, BITS_ZERO, y,
            BITS_ZERO, BITS_ZERO, BITS_ONE, z,
            BITS_ZERO, BITS_ZERO, BITS_ZERO, BITS_ONE,
        ];
        proof {
            assert(data@ =~= spec_translation_seq(x, y, z));
        }
        Matrix { rows: 4, cols: 4, data }
    }

    /// The scaling by `(x, y, z)`.
    pub fn scaling(x: u32, y: u32, z: u32) -> (r: Matrix)
        ensures
            r.wf(),
            r.rows == 4,
            r.cols == 4,
            r.data@ == spec_scaling_seq(x, y, z),
    {
        let data = vec![
            x, BITS_ZERO, BITS_ZERO, BITS_ZERO,
            BITS_ZERO, y, BITS_ZERO, BITS_ZERO,
            BITS_ZERO, BITS_ZERO, z, BITS_ZERO,
            BITS_ZERO, BITS_ZERO, BITS_ZERO, BITS_ONE,
        ];
        proof {
            assert(data@ =~= spec_scaling_seq(x, y, z));
        }
        Matrix { rows: 4, cols: 4, data }
    }

    /// The rotation about the x axis for the angle whose sine is `s`
    /// and cosine is `c`. The trigonometry itself is the caller's:
    /// platforms disagree on the last bit of `sin` and `cos`, so the
    /// kernel takes both as scalars.
    pub fn rotation_x(s: u32, c: u32) -> (r: Matrix)
        ensures
            r.wf(),
            r.rows == 4,
            r.cols == 4,
            r.data@ == spec_rotation_x_seq(s, c),
    {
        let ns = float_neg(s);
        let data = vec![
            BITS_ONE, BITS_ZERO, BITS_ZERO, BITS_ZERO,
            BITS_ZERO, c, ns, BITS_ZERO,
            BITS_ZERO, s, c, BITS_ZERO,
            BITS_ZERO, BITS_ZERO, BITS_ZERO, BITS_ONE,
        ];
        proof {
            assert(data@ =~= spec_rotation_x_seq(s, c));
        }
        Matrix { rows: 4, cols: 4, data }
    }

    /// The rotation about the y axis for the angle whose sine is `s`
    /// and cosine is `c`.
    pub fn rotation_y(s: u32, c: u32) -> (r: Matrix)
        ensures
            r.wf(),
            r.rows == 4,
            r.cols == 4,
            r.data@ == spec_rotation_y_seq(s, c),
    {
        let ns = float_neg(s);
        let data = vec![
            c, BITS_ZERO, s, BITS_ZERO,
            BITS_ZERO, BITS_ONE, BITS_ZERO, BITS_ZERO,
            ns, BITS_ZERO, c, BITS_ZERO,
            BITS_ZERO, BITS_ZERO, BITS_ZERO, BITS_ONE,
        ];
        proof {
            assert(data@ =~= spec_rotation_y_seq(s, c));
        }
        Matrix { rows: 4, cols: 4, data }
    }

    /// The rotation about the z axis for the angle whose sine is `s`
    /// and cosine is `c`.
    pub fn rotation_z(s: u32, c: u32) -> (r: Matrix)
        ensures
            r.wf(),
            r.rows == 4,
            r.cols == 4,
            r.data@ == spec_rotation_z_seq(s, c),
    {
        let ns = float_neg(s);
        let data = vec![
            c, ns, BITS_ZERO, BITS_ZERO,
            s, c, BITS_ZERO, BITS_ZERO,
            BITS_ZERO, BITS_ZERO, BITS_ONE, BITS_ZERO,
            BITS_ZERO, BITS_ZERO, BITS_ZERO, BITS_ONE,
        ];
        proof {
            assert(data@ =~= spec_rotation_z_seq(s, c));
        }
        Matrix { rows: 4, cols: 4, data }
    }

    /// The shear with the six proportionality coefficients.
    pub fn shearing(x_y: u32, x_z: u32, y_x: u32, y_z: u32, z_x: u32, z_y: u32) -> (r: Matrix)
        ensures
            r.wf(),
            r.rows == 4,
            r.cols == 4,
            r.data@ == spec_shearing_seq(x_y, x_z, y_x, y_z, z_x, z_y),
    {
        let data = vec![
            BITS_ONE, x_y, x_z, BITS_ZERO,
            y_x, BITS_ONE, y_z, BITS_ZERO,
            z_x, z_y, BITS_ONE, BITS_ZERO,
            BITS_ZERO, BITS_ZERO, BITS_ZERO, BITS_ONE,
        ];
        proof {
            assert(data@ =~= spec_shearing_seq(x_y, x_z, y_x, y_z, z_x, z_y));
        }
        Matrix { rows: 4, cols: 4, data }
    }

    /// The product of two 4x4 matrices: cell `(i, j)` is the dot
    /// product of row `i` of `self` with column `j` of `rhs`.
    pub fn mul_matrix(&self, rhs: &Matrix) -> (r: Matrix)
        requires
            self.wf(),
            rhs.wf(),
            self.rows == 4,
            rhs.rows == 4,
        ensures
            r.wf(),
            r.rows == 4,
            r.cols == 4,
            forall|i: int, j: int|
                0 <= i < 4 && 0 <= j < 4 ==> r.cell(i, j) == spec_mul4_cell(
                    self.data@,
                    rhs.data@,
                    i,
                    j,
                ),
    {
        let mut data: Vec<u32> = Vec::new();
        let mut i: u32 = 0;
        while i < 4
            invariant
                self.wf(),
                rhs.wf(),
                self.rows == 4,
                rhs.rows == 4,
                i <= 4,
                data@.len() == i * 4,
                forall|a: int, b: int|
                    0 <= a < i && 0 <= b < 4 ==> data@[a * 4 + b] == spec_mul4_cell(
                        self.data@,
                        rhs.data@,
                        a,
                        b,
                    ),
            decreases 4 - i,
        {
            let mut j: u32 = 0;
            while j < 4
                invariant
                    self.wf(),
                    rhs.wf(),
                    self.rows == 4,
                    rhs.rows == 4,
                    i < 4,
                    j <= 4,
                    data@.len() == i * 4 + j,
                    forall|a: int, b: int|
                        0 <= a < i && 0 <= b < 4 ==> data@[a * 4 + b] == spec_mul4_cell(
                            self.data@,
                            rhs.data@,
                            a,
                            b,
                        ),
                    forall|b: int|
                        0 <= b < j ==> data@[i * 4 + b] == spec_mul4_cell(
                            self.data@,
                            rhs.data@,
                            i as int,
                            b,
                        ),
                decreases 4 - j,
            {
                let value = Tuple::dot(&self.row(i), &rhs.col(j));
                data.push(value);
                j = j + 1;
            }
            i = i + 1;
        }
        Matrix { rows: 4, cols: 4, data }
    }

    /// The tuple `t` taken through this 4x4 matrix.
    pub fn mul_tuple(&self, t: &Tuple) -> (r: Tuple)
        requires
            self.wf(),
            self.rows == 4,
        ensures
            r == spec_mul_tuple4(self.data@, *t),
    {
        Tuple {
            x: Tuple::dot(t, &self.row(0)),
            y: Tuple::dot(t, &self.row(1)),
            z: Tuple::dot(t, &self.row(2)),
            w: Tuple::dot(t, &self.row(3)),
        }
    }

    /// The determinant: `ad - bc` for a 2x2 matrix, the cofactor
    /// expansion along row zero otherwise.
    pub fn determinant(&self) -> (r: u32)
        requires
            self.wf(),
        ensures
            r == self.spec_determinant(),
        decreases self.rows, 2int, 0int,
    {
        if self.rows == 2 {
            let ad = float_mul(self.at(0, 0), self.at(1, 1));
            let bc = float_mul(self.at(0, 1), self.at(1, 0));
            float_sub(ad, bc)
        } else {
            let mut det: u32 = BITS_ZERO;
            let mut i: u32 = 0;
            while i < self.cols
                invariant
                    self.wf(),
                    self.rows > 2,
                    i <= self.cols,
                    det == spec_det_row0(self.rows as int, self.data@, i as int),
                decreases self.cols - i,
            {
                let co = self.cofactor(0, i);
                det = float_add(det, float_mul(self.at(0, i), co));
                i = i + 1;
            }
            det
        }
    }

    /// The submatrix that drops row `row` and column `col`.
    pub fn submatrix(&self, row: u32, col: u32) -> (r: Matrix)
        requires
            self.wf(),
            self.rows >= 3,
            row < self.rows,
            col < self.cols,
        ensures
            r.wf(),
            r.rows == self.rows - 1,
            r.cols == self.cols - 1,
            r.data@ == spec_sub_seq(self.rows as int, self.data@, row as int, col as int),
    {
        let n = self.rows;
        let m = n - 1;
        let ghost target = spec_sub_seq(self.rows as int, self.data@, row as int, col as int);
        let mut data: Vec<u32> = Vec::new();
        let mut ii: u32 = 0;
        while ii < m
            invariant
                self.wf(),
                self.rows >= 3,
                row < self.rows,
                col < self.cols,
                n == self.rows,
                m == n - 1,
                ii <= m,
                target == spec_sub_seq(self.rows as int, self.data@, row as int, col as int),
                target.len() == m * m,
                data@.len() == ii * m,
                forall|k: int| 0 <= k < data@.len() ==> data@[k] == target[k],
            decreases m - ii,
        {
            let mut jj: u32 = 0;
            while jj < m
                invariant
                    self.wf(),
                    self.rows >= 3,
                    row < self.rows,
                    col < self.cols,
                    n == self.rows,
                    m == n - 1,
                    ii < m,
                    jj <= m,
                    target == spec_sub_seq(self.rows as int, self.data@, row as int, col as int),
                    target.len() == m * m,
                    data@.len() == ii * m + jj,
                    forall|k: int| 0 <= k < data@.len() ==> data@[k] == target[k],
                decreases m - jj,
            {
                let si = if ii >= row {
                    ii + 1
                } else {
                    ii
                };
                let sj = if jj >= col {
                    jj + 1
                } else {
                    jj
                };
                proof {
                    lemma_row_major_bound(m as int, m as int, ii as int, jj as int);
                    lemma_fundamental_div_mod_converse(
                        ii as int * m as int + jj as int,
                        m as int,
                        ii as int,
                        jj as int,
                    );
                }
                let value = self.at(si, sj);
                data.push(value);
                jj = jj + 1;
            }
            proof {
                lemma_row_major_bound(m as int, m as int, ii as int, 0);
            }
            ii = ii + 1;
        }
        proof {
            assert(data@ =~= target);
        }
        Matrix { rows: m, cols: m, data }
    }

    /// The minor at `(row, col)`: the determinant of the submatrix.
    pub fn minor(&self, row: u32, col: u32) -> (r: u32)
        requires
            self.wf(),
            self.rows >= 3,
            row < self.rows,
            col < self.cols,
        ensures
            r == self.spec_minor(row as int, col as int),
        decreases self.rows, 0int, 1int,
    {
        let sub = self.submatrix(row, col);
        sub.determinant()
    }

    /// The cofactor at `(row, col)`: the minor, negated where
    /// `row + col` is odd.
    pub fn cofactor(&self, row: u32, col: u32) -> (r: u32)
        requires
            self.wf(),
            self.rows >= 3,
            row < self.rows,
            col < self.cols,
        ensures
            r == self.spec_cofactor(row as int, col as int),
        decreases self.rows, 1int, 0int,
    {
        let minor = self.minor(row, col);
        if (row + col) % 2 == 0 {
            minor
        } else {
            float_neg(minor)
        }
    }

    /// The inverse by cofactor expansion: cell `(i, j)` of the result
    /// is the cofactor at `(j, i)` divided by the determinant, folding
    /// the adjugate transpose into the write position. A singular
    /// matrix is the caller's fault and is excluded here; `try_invert`
    /// makes the check.
    pub fn invert(&self) -> (r: Matrix)
        requires
            self.wf(),
            self.rows >= 3,
            !eq_bits(self.spec_determinant(), BITS_ZERO),
        ensures
            r.wf(),
            r.rows == self.rows,
            r.cols == self.cols,
            forall|i: int, j: int|
                0 <= i < self.rows && 0 <= j < self.cols ==> r.cell(i, j) == div_bits(
                    self.spec_cofactor(j, i),
                    self.spec_determinant(),
                ),
    {
        let det = self.determinant();
        let n = self.rows;
        let mut data: Vec<u32> = Vec::new();
        let mut i: u32 = 0;
        while i < n
            invariant
                self.wf(),
                self.rows >= 3,
                n == self.rows,
                det == self.spec_determinant(),
                i <= n,
                data@.len() == i * n,
                forall|a: int, b: int|
                    0 <= a < i && 0 <= b < n ==> data@[a * n + b] == div_bits(
                        self.spec_cofactor(b, a),
                        self.spec_determinant(),
                    ),
            decreases n - i,
        {
            let mut j: u32 = 0;
            while j < n
                invariant
                    self.wf(),
                    self.rows >= 3,
                    n == self.rows,
                    det == self.spec_determinant(),
                    i < n,
                    j <= n,
                    data@.len() == i * n + j,
                    forall|a: int, b: int|
                        0 <= a < i && 0 <= b < n ==> data@[a * n + b] == div_bits(
                            self.spec_cofactor(b, a),
                            self.spec_determinant(),
                        ),
                    forall|b: int|
                        0 <= b < j ==> data@[i * n + b] == div_bits(
                            self.spec_cofactor(b, i as int),
                            self.spec_determinant(),
                        ),
                decreases n - j,
            {
                let co = self.cofactor(j, i);
                data.push(float_div(co, det));
                j = j + 1;
                proof {
                    assert forall|a: int, b: int| 0 <= a < i && 0 <= b < n implies data@[a * n
                        + b] == div_bits(self.spec_cofactor(b, a), self.spec_determinant()) by {
                        lemma_row_major_bound(i as int, n as int, a, b);
                    }
                }
            }
            proof {
                lemma_row_major_bound(self.rows as int, self.cols as int, i as int, 0);
                assert forall|a: int, b: int| 0 <= a < i + 1 && 0 <= b < n implies data@[a * n
                    + b] == div_bits(self.spec_cofactor(b, a), self.spec_determinant()) by {
                    lemma_row_major_bound(i as int + 1, n as int, a, b);
                }
            }
            i = i + 1;
        }
        proof {
            assert(data@.len() == n * n) by (nonlinear_arith)
                requires
                    data@.len() == (n as int) * (n as int),
            ;
        }
        Matrix { rows: n, cols: n, data }
    }

    /// The inverse where the determinant is nonzero, `None` where it
    /// equals zero.
    pub fn try_invert(&self) -> (r: Option<Matrix>)
        requires
            self.wf(),
            self.rows >= 3,
        ensures
            match r {
                Some(m) => !eq_bits(self.spec_determinant(), BITS_ZERO) && m.wf() && m.rows
                    == self.rows && m.cols == self.cols && forall|i: int, j: int|
                    0 <= i < self.rows && 0 <= j < self.cols ==> m.cell(i, j) == div_bits(
                        self.spec_cofactor(j, i),
                        self.spec_determinant(),
                    ),
                None => eq_bits(self.spec_determinant(), BITS_ZERO),
            },
    {
        let det = self.determinant();
        if float_eq(det, BITS_ZERO) {
            None
        } else {
            Some(self.invert())
        }
    }

    /// Left-multiplies the translation by `(x, y, z)` onto this matrix,
    /// so that in a fluent chain the translation applies last.
    pub fn translate(&self, x: u32, y: u32, z: u32) -> (r: Matrix)
        requires
            self.wf(),
            self.rows == 4,
        ensures
            r.wf(),
            r.rows == 4,
            r.cols == 4,
            forall|i: int, j: int|
                0 <= i < 4 && 0 <= j < 4 ==> r.cell(i, j) == spec_mul4_cell(
                    spec_translation_seq(x, y, z),
                    self.data@,
                    i,
                    j,
                ),
    {
        Matrix::translation(x, y, z).mul_matrix(self)
    }

    /// Left-multiplies the scaling by `(x, y, z)` onto this matrix.
    pub fn scale(&self, x: u32, y: u32, z: u32) -> (r: Matrix)
        requires
            self.wf(),
            self.rows == 4,
        ensures
            r.wf(),
            r.rows == 4,
            r.cols == 4,
            forall|i: int, j: int|
                0 <= i < 4 && 0 <= j < 4 ==> r.cell(i, j) == spec_mul4_cell(
                    spec_scaling_seq(x, y, z),
                    self.data@,
                    i,
                    j,
                ),
    {
        Matrix::scaling(x, y, z).mul_matrix(self)
    }

    /// Left-multiplies the rotation about x (sine `s`, cosine `c`)
    /// onto this matrix.
    pub fn rotate_x(&self, s: u32, c: u32) -> (r: Matrix)
        requires
            self.wf(),
            self.rows == 4,
        ensures
            r.wf(),
            r.rows == 4,
            r.cols == 4,
            forall|i: int, j: int|
                0 <= i < 4 && 0 <= j < 4 ==> r.cell(i, j) == spec_mul4_cell(
                    spec_rotation_x_seq(s, c),
                    self.data@,
                    i,
                    j,
                ),
    {
        Matrix::rotation_x(s, c).mul_matrix(self)
    }

    /// Left-multiplies the rotation about y (sine `s`, cosine `c`)
    /// onto this matrix.
    pub fn rotate_y(&self, s: u32, c: u32) -> (r: Matrix)
        requires
            self.wf(),
            self.rows == 4,
        ensures
            r.wf(),
            r.rows == 4,
            r.cols == 4,
            forall|i: int, j: int|
                0 <= i < 4 && 0 <= j < 4 ==> r.cell(i, j) == spec_mul4_cell(
                    spec_rotation_y_seq(s, c),
                    self.data@,
                    i,
                    j,
                ),
    {
        Matrix::rotation_y(s, c).mul_matrix(self)
    }

    /// Left-multiplies the rotation about z (sine `s`, cosine `c`)
    /// onto this matrix.
    pub fn rotate_z(&self, s: u32, c: u32) -> (r: Matrix)
        requires
            self.wf(),
            self.rows == 4,
        ensures
            r.wf(),
            r.rows == 4,
            r.cols == 4,
            forall|i: int, j: int|
                0 <= i < 4 && 0 <= j < 4 ==> r.cell(i, j) == spec_mul4_cell(
                    spec_rotation_z_seq(s, c),
                    self.data@,
                    i,
                    j,
                ),
    {
        Matrix::rotation_z(s, c).mul_matrix(self)
    }
}

/// `t` holds the transposed cells of `m`.
pub open spec fn is_transpose_of(t: Matrix, m: Matrix) -> bool {
    t.wf() && m.wf() && t.rows == m.rows && t.cols == m.cols && forall|i: int, j: int|
        0 <= i < m.rows && 0 <= j < m.cols ==> t.cell(i, j) == m.cell(j, i)
}

/// Transposing a square matrix twice gives back the original: if `t` is
/// the transpose of `m` and `u` the transpose of `t`, then `u` has
/// exactly the storage of `m`.
pub proof fn lemma_transpose_involution(m: Matrix, t: Matrix, u: Matrix)
    requires
        is_transpose_of(t, m),
        is_transpose_of(u, t),
    ensures
        u.rows == m.rows,
        u.cols == m.cols,
        u.data@ == m.data@,
{
    let n = m.cols as int;
    assert forall|k: int| 0 <= k < u.data@.len() implies u.data@[k] == m.data@[k] by {
        let i = k / n;
        let j = k % n;
        vstd::arithmetic::div_mod::lemma_fundamental_div_mod(k, n);
        assert(0 <= j < n);
        assert(i < n && k == i * n + j) by (nonlinear_arith)
            requires
                k == n * i + j,
                0 <= j < n,
                k < n * n,
                0 <= i,
        ;
        assert(u.cell(i, j) == t.cell(j, i));
        assert(t.cell(j, i) == m.cell(i, j));
    }
    assert(u.data@ =~= m.data@);
}

impl PartialEq for Matrix {
    /// Componentwise approximate equality; matrices of different shapes
    /// are unequal.
    fn eq(&self, other: &Matrix) -> (r: bool) {
        if self.rows != other.rows || self.cols != other.cols || self.data.len()
            != other.data.len() {
            false
        } else {
            let mut k: usize = 0;
            let mut same = true;
            while k < self.data.len()
                invariant
                    self.data@.len() == other.data@.len(),
                    k <= self.data@.len(),
                    same == forall|t: int|
                        0 <= t < k ==> approx_eq_bits(self.data@[t], other.data@[t]),
                decreases self.data@.len() - k,
            {
                if !float_equality(self.data[k], other.data[k]) {
                    same = false;
                }
                k = k + 1;
            }
            same
        }
    }
}

impl vstd::std_specs::cmp::PartialEqSpecImpl for Matrix {
    open spec fn obeys_eq_spec() -> bool {
        true
    }

    open spec fn eq_spec(&self, other: &Matrix) -> bool {
        matrix_approx_eq(*self, *other)
    }
}

} // verus!
