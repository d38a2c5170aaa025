//! 4x4 fixed-point transform matrices in row-major form.
//!
//! Supports matrix-matrix and vector-matrix multiplication, identity,
//! scale, translation and Euler-angle rotation (composed as Rx * Ry * Rz,
//! in that fixed order).  The rotation constructor takes the sines and
//! cosines of the three angles as fixed-point values; computing them from
//! an angle is the caller's concern.

use vstd::prelude::*;

use crate::fx::{Fx, FX_ONE, fx_mul_spec, fx_dot4, lemma_fx_mul_spec_abs, lemma_fx_mul_one,
    lemma_fx_mul_zero};
use crate::vector::{Vector3, Vector4};

verus! {

/// A 4x4 fixed-point matrix, row-major: `m[row][column]`.
#[derive(Clone, Copy, Debug)]
pub struct Mat4 {
    pub m: [[Fx; 4]; 4],
}

/// One entry of the matrix product `a * b`.
pub open spec fn mat_mul_entry(a: Mat4, b: Mat4, r: int, c: int) -> int {
    fx_mul_spec(a.at(r, 0), b.at(0, c)) + fx_mul_spec(a.at(r, 1), b.at(1, c)) + fx_mul_spec(
        a.at(r, 2),
        b.at(2, c),
    ) + fx_mul_spec(a.at(r, 3), b.at(3, c))
}

/// Component `i` of the vector-matrix product `v * m`: the dot product
/// of `v` with row `i` of `m`.
pub open spec fn vec_mat_entry(v: Vector4, m: Mat4, i: int) -> int {
    fx_mul_spec(v.x.raw as int, m.at(i, 0)) + fx_mul_spec(v.y.raw as int, m.at(i, 1))
        + fx_mul_spec(v.z.raw as int, m.at(i, 2)) + fx_mul_spec(v.w.raw as int, m.at(i, 3))
}

/// All sixteen entries lie within `bound` of zero.
pub open spec fn mat_bounded(a: Mat4, bound: int) -> bool {
    forall|r: int, c: int| 0 <= r < 4 && 0 <= c < 4 ==> -bound <= #[trigger] a.at(r, c) <= bound
}

/// All sixteen product entries fit an `i64`.
pub open spec fn mat_mul_in_range(a: Mat4, b: Mat4) -> bool {
    forall|r: int, c: int|
        0 <= r < 4 && 0 <= c < 4 ==> i64::MIN <= #[trigger] mat_mul_entry(a, b, r, c) <= i64::MAX
}

/// The matrix product as a matrix, defined when every entry fits.
pub open spec fn mat_mul_spec(a: Mat4, b: Mat4) -> Mat4 {
    Mat4 {
        m: [
            [
                Fx { raw: mat_mul_entry(a, b, 0, 0) as i64 },
                Fx { raw: mat_mul_entry(a, b, 0, 1) as i64 },
                Fx { raw: mat_mul_entry(a, b, 0, 2) as i64 },
                Fx { raw: mat_mul_entry(a, b, 0, 3) as i64 },
            ],
            [
                Fx { raw: mat_mul_entry(a, b, 1, 0) as i64 },
                Fx { raw: mat_mul_entry(a, b, 1, 1) as i64 },
                Fx { raw: mat_mul_entry(a, b, 1, 2) as i64 },
                Fx { raw: mat_mul_entry(a, b, 1, 3) as i64 },
            ],
            [
                Fx { raw: mat_mul_entry(a, b, 2, 0) as i64 },
                Fx { raw: mat_mul_entry(a, b, 2, 1) as i64 },
                Fx { raw: mat_mul_entry(a, b, 2, 2) as i64 },
                Fx { raw: mat_mul_entry(a, b, 2, 3) as i64 },
            ],
            [
                Fx { raw: mat_mul_entry(a, b, 3, 0) as i64 },
                Fx { raw: mat_mul_entry(a, b, 3, 1) as i64 },
                Fx { raw: mat_mul_entry(a, b, 3, 2) as i64 },
                Fx { raw: mat_mul_entry(a, b, 3, 3) as i64 },
            ],
        ],
    }
}

/// The elementary rotation about the x axis, from the angle's sine and
/// cosine.
pub open spec fn rot_x_mat(s: Fx, c: Fx) -> Mat4 {
    Mat4 {
        m: [
            [Fx { raw: FX_ONE }, Fx { raw: 0 }, Fx { raw: 0 }, Fx { raw: 0 }],
            [Fx { raw: 0 }, c, Fx { raw: (-(s.raw as int)) as i64 }, Fx { raw: 0 }],
            [Fx { raw: 0 }, s, c, Fx { raw: 0 }],
            [Fx { raw: 0 }, Fx { raw: 0 }, Fx { raw: 0 }, Fx { raw: FX_ONE }],
        ],
    }
}

/// The elementary rotation about the y axis.
pub open spec fn rot_y_mat(s: Fx, c: Fx) -> Mat4 {
    Mat4 {
        m: [
            [c, Fx { raw: 0 }, s, Fx { raw: 0 }],
            [Fx { raw: 0 }, Fx { raw: FX_ONE }, Fx { raw: 0 }, Fx { raw: 0 }],
            [Fx { raw: (-(s.raw as int)) as i64 }, Fx { raw: 0 }, c, Fx { raw: 0 }],
            [Fx { raw: 0 }, Fx { raw: 0 }, Fx { raw: 0 }, Fx { raw: FX_ONE }],
        ],
    }
}

/// The elementary rotation about the z axis.
pub open spec fn rot_z_mat(s: Fx, c: Fx) -> Mat4 {
    Mat4 {
        m: [
            [c, Fx { raw: (-(s.raw as int)) as i64 }, Fx { raw: 0 }, Fx { raw: 0 }],
            [s, c, Fx { raw: 0 }, Fx { raw: 0 }],
            [Fx { raw: 0 }, Fx { raw: 0 }, Fx { raw: FX_ONE }, Fx { raw: 0 }],
            [Fx { raw: 0 }, Fx { raw: 0 }, Fx { raw: 0 }, Fx { raw: FX_ONE }],
        ],
    }
}

/// An identity-patterned matrix: one on the diagonal, zero elsewhere.
pub open spec fn is_identity(a: Mat4) -> bool {
    forall|r: int, c: int|
        0 <= r < 4 && 0 <= c < 4 ==> #[trigger] a.at(r, c) == if r == c {
            FX_ONE as int
        } else {
            0
        }
}

impl Mat4 {
    /// The raw value of the entry at `(row, column)`.
    pub open spec fn at(self, r: int, c: int) -> int {
        self.m[r][c].raw as int
    }

    pub fn values(&self) -> (r: [[Fx; 4]; 4])
        ensures
            r == self.m,
    {
        self.m
    }

    pub fn new(values: [[Fx; 4]; 4]) -> (r: Mat4)
        ensures
            r.m == values,
    {
        Mat4 { m: values }
    }

    /// Replaces all sixteen values at once.
    pub fn set_values(&mut self, values: [[Fx; 4]; 4])
        ensures
            final(self).m == values,
    {
        self.m = values;
    }

    pub fn empty() -> (r: Mat4)
        ensures
            forall|i: int, j: int| 0 <= i < 4 && 0 <= j < 4 ==> #[trigger] r.at(i, j) == 0,
    {
        let z = Fx { raw: 0 };
        Mat4 { m: [[z, z, z, z], [z, z, z, z], [z, z, z, z], [z, z, z, z]] }
    }

    pub fn identity() -> (r: Mat4)
        ensures
            is_identity(r),
    {
        let z = Fx { raw: 0 };
        let o = Fx { raw: FX_ONE };
        Mat4 { m: [[o, z, z, z], [z, o, z, z], [z, z, o, z], [z, z, z, o]] }
    }

    /// The scale matrix: `s` on the diagonal, one in the corner.
    pub fn scale(s: Vector3) -> (r: Mat4)
        ensures
            r.at(0, 0) == s.x.raw,
            r.at(1, 1) == s.y.raw,
            r.at(2, 2) == s.z.raw,
            r.at(3, 3) == FX_ONE as int,
            forall|i: int, j: int|
                0 <= i < 4 && 0 <= j < 4 && i != j ==> #[trigger] r.at(i, j) == 0,
    {
        let z = Fx { raw: 0 };
        let o = Fx { raw: FX_ONE };
        Mat4 { m: [[s.x, z, z, z], [z, s.y, z, z], [z, z, s.z, z], [z, z, z, o]] }
    }

    /// The translation matrix: identity with `t` in the last column.
    pub fn translation(t: Vector3) -> (r: Mat4)
        ensures
            r.at(0, 3) == t.x.raw,
            r.at(1, 3) == t.y.raw,
            r.at(2, 3) == t.z.raw,
            forall|i: int, j: int|
                0 <= i < 4 && 0 <= j < 4 && j != 3 ==> #[trigger] r.at(i, j) == if i == j {
                    FX_ONE as int
                } else {
                    0
                },
            r.at(3, 3) == FX_ONE as int,
    {
        let z = Fx { raw: 0 };
        let o = Fx { raw: FX_ONE };
        Mat4 { m: [[o, z, z, t.x], [z, o, z, t.y], [z, z, o, t.z], [z, z, z, o]] }
    }

    /// The Euler rotation `Rx * Ry * Rz`, built from the sines and
    /// cosines of the three angles (componentwise: `sin.x` and `cos.x`
    /// belong to the rotation about the x axis, and so on).
    pub fn euler_rotation(sin: Vector3, cos: Vector3) -> (r: Mat4)
        requires
            -(FX_ONE as int) <= sin.x.raw <= FX_ONE as int,
            -(FX_ONE as int) <= sin.y.raw <= FX_ONE as int,
            -(FX_ONE as int) <= sin.z.raw <= FX_ONE as int,
            -(FX_ONE as int) <= cos.x.raw <= FX_ONE as int,
            -(FX_ONE as int) <= cos.y.raw <= FX_ONE as int,
            -(FX_ONE as int) <= cos.z.raw <= FX_ONE as int,
        ensures
            forall|i: int, j: int|
                0 <= i < 4 && 0 <= j < 4 ==> #[trigger] r.at(i, j) == mat_mul_spec(
                    mat_mul_spec(rot_x_mat(sin.x, cos.x), rot_y_mat(sin.y, cos.y)),
                    rot_z_mat(sin.z, cos.z),
                ).at(i, j),
    {
        let z = Fx { raw: 0 };
        let o = Fx { raw: FX_ONE };
        let x_mat = Mat4 {
            m: [
                [o, z, z, z],
                [z, cos.x, Fx { raw: -sin.x.raw }, z],
                [z, sin.x, cos.x, z],
                [z, z, z, o],
            ],
        };
        let y_mat = Mat4 {
            m: [
                [cos.y, z, sin.y, z],
                [z, o, z, z],
                [Fx { raw: -sin.y.raw }, z, cos.y, z],
                [z, z, z, o],
            ],
        };
        let z_mat = Mat4 {
            m: [
                [cos.z, Fx { raw: -sin.z.raw }, z, z],
                [sin.z, cos.z, z, z],
                [z, z, o, z],
                [z, z, z, o],
            ],
        };
        proof {
            assert(x_mat == rot_x_mat(sin.x, cos.x));
            assert(y_mat == rot_y_mat(sin.y, cos.y));
            assert(z_mat == rot_z_mat(sin.z, cos.z));
            assert(mat_bounded(x_mat, FX_ONE as int));
            assert(mat_bounded(y_mat, FX_ONE as int));
            assert(mat_bounded(z_mat, FX_ONE as int));
            lemma_mat_mul_entry_bound(x_mat, y_mat, FX_ONE as int, FX_ONE as int);
        }
        let xy = x_mat.mul(&y_mat);
        proof {
            assert(mat_bounded(xy, 4 * (FX_ONE as int)));
            lemma_mat_mul_entry_bound(xy, z_mat, 4 * (FX_ONE as int), FX_ONE as int);
            assert(forall|i: int, j: int|
                0 <= i < 4 && 0 <= j < 4 ==> #[trigger] xy.at(i, j) == mat_mul_spec(
                    rot_x_mat(sin.x, cos.x),
                    rot_y_mat(sin.y, cos.y),
                ).at(i, j));
            lemma_mat_entries_equal(
                xy,
                mat_mul_spec(rot_x_mat(sin.x, cos.x), rot_y_mat(sin.y, cos.y)),
            );
        }
        xy.mul(&z_mat)
    }

    /// The matrix product `self * rhs`.
    pub fn mul(self, rhs: &Mat4) -> (r: Mat4)
        requires
            mat_mul_in_range(self, *rhs),
        ensures
            forall|i: int, j: int|
                0 <= i < 4 && 0 <= j < 4 ==> #[trigger] r.at(i, j) == mat_mul_entry(
                    self,
                    *rhs,
                    i,
                    j,
                ),
    {
        let r0 = [
            mat_entry(&self, rhs, 0, 0),
            mat_entry(&self, rhs, 0, 1),
            mat_entry(&self, rhs, 0, 2),
            mat_entry(&self, rhs, 0, 3),
        ];
        let r1 = [
            mat_entry(&self, rhs, 1, 0),
            mat_entry(&self, rhs, 1, 1),
            mat_entry(&self, rhs, 1, 2),
            mat_entry(&self, rhs, 1, 3),
        ];
        let r2 = [
            mat_entry(&self, rhs, 2, 0),
            mat_entry(&self, rhs, 2, 1),
            mat_entry(&self, rhs, 2, 2),
            mat_entry(&self, rhs, 2, 3),
        ];
        let r3 = [
            mat_entry(&self, rhs, 3, 0),
            mat_entry(&self, rhs, 3, 1),
            mat_entry(&self, rhs, 3, 2),
            mat_entry(&self, rhs, 3, 3),
        ];
        Mat4 { m: [r0, r1, r2, r3] }
    }
}

/// One entry of the matrix product, computed exactly.
fn mat_entry(a: &Mat4, b: &Mat4, r: usize, c: usize) -> (e: Fx)
    requires
        r < 4,
        c < 4,
        i64::MIN <= mat_mul_entry(*a, *b, r as int, c as int) <= i64::MAX,
    ensures
        e.raw == mat_mul_entry(*a, *b, r as int, c as int),
{
    let d = fx_dot4(
        a.m[r][0].raw,
        a.m[r][1].raw,
        a.m[r][2].raw,
        a.m[r][3].raw,
        b.m[0][c].raw,
        b.m[1][c].raw,
        b.m[2][c].raw,
        b.m[3][c].raw,
    );
    Fx { raw: d as i64 }
}

/// Two matrices with pointwise equal entries are equal.
pub proof fn lemma_mat_entries_equal(a: Mat4, b: Mat4)
    requires
        forall|i: int, j: int| 0 <= i < 4 && 0 <= j < 4 ==> #[trigger] a.at(i, j) == b.at(i, j),
    ensures
        a == b,
{
    assert forall|i: int| 0 <= i < 4 implies a.m[i] =~= b.m[i] by {
        assert(a.at(i, 0) == b.at(i, 0));
        assert(a.at(i, 1) == b.at(i, 1));
        assert(a.at(i, 2) == b.at(i, 2));
        assert(a.at(i, 3) == b.at(i, 3));
    }
    assert(a.m =~= b.m);
}

/// Bounded factors give bounded product entries.
pub proof fn lemma_mat_mul_entry_bound(a: Mat4, b: Mat4, ba: int, bb: int)
    requires
        0 <= ba,
        0 <= bb,
        mat_bounded(a, ba),
        mat_bounded(b, bb),
    ensures
        forall|r: int, c: int|
            0 <= r < 4 && 0 <= c < 4 ==> -(4 * ((ba * bb) / (FX_ONE as int)))
                <= #[trigger] mat_mul_entry(a, b, r, c) <= 4 * ((ba * bb) / (FX_ONE as int)),
{
    assert forall|r: int, c: int|
        0 <= r < 4 && 0 <= c < 4 implies -(4 * ((ba * bb) / (FX_ONE as int)))
        <= #[trigger] mat_mul_entry(a, b, r, c) <= 4 * ((ba * bb) / (FX_ONE as int)) by {
        lemma_fx_mul_spec_abs(a.at(r, 0), b.at(0, c), ba, bb);
        lemma_fx_mul_spec_abs(a.at(r, 1), b.at(1, c), ba, bb);
        lemma_fx_mul_spec_abs(a.at(r, 2), b.at(2, c), ba, bb);
        lemma_fx_mul_spec_abs(a.at(r, 3), b.at(3, c), ba, bb);
    }
}

/// Composing with the identity on either side leaves every entry of a
/// matrix unchanged.
pub proof fn lemma_identity_mul(ident: Mat4, m: Mat4)
    requires
        is_identity(ident),
    ensures
        forall|r: int, c: int|
            0 <= r < 4 && 0 <= c < 4 ==> #[trigger] mat_mul_entry(ident, m, r, c) == m.at(r, c),
        forall|r: int, c: int|
            0 <= r < 4 && 0 <= c < 4 ==> #[trigger] mat_mul_entry(m, ident, r, c) == m.at(r, c),
{
    assert forall|r: int, c: int|
        0 <= r < 4 && 0 <= c < 4 implies #[trigger] mat_mul_entry(ident, m, r, c) == m.at(r, c) by {
        lemma_fx_mul_one(m.at(r, c));
        lemma_fx_mul_zero(m.at(0, c));
        lemma_fx_mul_zero(m.at(1, c));
        lemma_fx_mul_zero(m.at(2, c));
        lemma_fx_mul_zero(m.at(3, c));
        lemma_fx_mul_one(m.at(0, c));
        lemma_fx_mul_one(m.at(1, c));
        lemma_fx_mul_one(m.at(2, c));
        lemma_fx_mul_one(m.at(3, c));
    }
    assert forall|r: int, c: int|
        0 <= r < 4 && 0 <= c < 4 implies #[trigger] mat_mul_entry(m, ident, r, c) == m.at(r, c) by {
        lemma_fx_mul_zero(m.at(r, 0));
        lemma_fx_mul_zero(m.at(r, 1));
        lemma_fx_mul_zero(m.at(r, 2));
        lemma_fx_mul_zero(m.at(r, 3));
        lemma_fx_mul_one(m.at(r, 0));
        lemma_fx_mul_one(m.at(r, 1));
        lemma_fx_mul_one(m.at(r, 2));
        lemma_fx_mul_one(m.at(r, 3));
    }
}

/// Multiplying a homogeneous vector by the identity leaves every
/// component unchanged.
pub proof fn lemma_vec_identity(v: Vector4, ident: Mat4)
    requires
        is_identity(ident),
    ensures
        vec_mat_entry(v, ident, 0) == v.x.raw,
        vec_mat_entry(v, ident, 1) == v.y.raw,
        vec_mat_entry(v, ident, 2) == v.z.raw,
        vec_mat_entry(v, ident, 3) == v.w.raw,
{
    lemma_fx_mul_one(v.x.raw as int);
    lemma_fx_mul_one(v.y.raw as int);
    lemma_fx_mul_one(v.z.raw as int);
    lemma_fx_mul_one(v.w.raw as int);
    lemma_fx_mul_zero(v.x.raw as int);
    lemma_fx_mul_zero(v.y.raw as int);
    lemma_fx_mul_zero(v.z.raw as int);
    lemma_fx_mul_zero(v.w.raw as int);
}

/// Scaling and then translating a homogeneous vertex (w = 1) yields
/// exactly the componentwise product plus the translation.
pub proof fn lemma_scale_then_translate(
    v: Vector4,
    sm: Mat4,
    tm: Mat4,
    s: Vector3,
    t: Vector3,
    h: Vector4,
)
    requires
        v.w.raw == FX_ONE,
        sm.at(0, 0) == s.x.raw,
        sm.at(1, 1) == s.y.raw,
        sm.at(2, 2) == s.z.raw,
        sm.at(3, 3) == FX_ONE as int,
        forall|i: int, j: int| 0 <= i < 4 && 0 <= j < 4 && i != j ==> #[trigger] sm.at(i, j) == 0,
        tm.at(0, 3) == t.x.raw,
        tm.at(1, 3) == t.y.raw,
        tm.at(2, 3) == t.z.raw,
        forall|i: int, j: int|
            0 <= i < 4 && 0 <= j < 4 && j != 3 ==> #[trigger] tm.at(i, j) == if i == j {
                FX_ONE as int
            } else {
                0
            },
        tm.at(3, 3) == FX_ONE as int,
        h.x.raw == vec_mat_entry(v, sm, 0),
        h.y.raw == vec_mat_entry(v, sm, 1),
        h.z.raw == vec_mat_entry(v, sm, 2),
        h.w.raw == vec_mat_entry(v, sm, 3),
    ensures
        h.x.raw == fx_mul_spec(v.x.raw as int, s.x.raw as int),
        h.y.raw == fx_mul_spec(v.y.raw as int, s.y.raw as int),
        h.z.raw == fx_mul_spec(v.z.raw as int, s.z.raw as int),
        h.w.raw == FX_ONE,
        vec_mat_entry(h, tm, 0) == fx_mul_spec(v.x.raw as int, s.x.raw as int) + t.x.raw,
        vec_mat_entry(h, tm, 1) == fx_mul_spec(v.y.raw as int, s.y.raw as int) + t.y.raw,
        vec_mat_entry(h, tm, 2) == fx_mul_spec(v.z.raw as int, s.z.raw as int) + t.z.raw,
        vec_mat_entry(h, tm, 3) == FX_ONE,
{
    lemma_fx_mul_zero(v.x.raw as int);
    lemma_fx_mul_zero(v.y.raw as int);
    lemma_fx_mul_zero(v.z.raw as int);
    lemma_fx_mul_zero(v.w.raw as int);
    lemma_fx_mul_one(v.w.raw as int);
    assert(h.w.raw == FX_ONE);
    lemma_fx_mul_zero(h.x.raw as int);
    lemma_fx_mul_zero(h.y.raw as int);
    lemma_fx_mul_zero(h.z.raw as int);
    lemma_fx_mul_zero(h.w.raw as int);
    lemma_fx_mul_one(h.x.raw as int);
    lemma_fx_mul_one(h.y.raw as int);
    lemma_fx_mul_one(h.z.raw as int);
    lemma_fx_mul_one(h.w.raw as int);
    lemma_fx_mul_one(t.x.raw as int);
    lemma_fx_mul_one(t.y.raw as int);
    lemma_fx_mul_one(t.z.raw as int);
}

impl Vector4 {
    /// The vector-matrix product `self * rhs`, treating `self` as a row
    /// vector against the rows of `rhs`.
    pub fn mul_mat4(self, rhs: &Mat4) -> (r: Vector4)
        requires
            forall|i: int|
                0 <= i < 4 ==> i64::MIN <= #[trigger] vec_mat_entry(self, *rhs, i) <= i64::MAX,
        ensures
            r.x.raw == vec_mat_entry(self, *rhs, 0),
            r.y.raw == vec_mat_entry(self, *rhs, 1),
            r.z.raw == vec_mat_entry(self, *rhs, 2),
            r.w.raw == vec_mat_entry(self, *rhs, 3),
    {
        let x = vec_row_entry(&self, rhs, 0);
        let y = vec_row_entry(&self, rhs, 1);
        let z = vec_row_entry(&self, rhs, 2);
        let w = vec_row_entry(&self, rhs, 3);
        Vector4 { x, y, z, w }
    }
}

/// One component of the vector-matrix product, computed exactly.
fn vec_row_entry(v: &Vector4, m: &Mat4, i: usize) -> (e: Fx)
    requires
        i < 4,
        i64::MIN <= vec_mat_entry(*v, *m, i as int) <= i64::MAX,
    ensures
        e.raw == vec_mat_entry(*v, *m, i as int),
{
    let d = fx_dot4(
        v.x.raw,
        v.y.raw,
        v.z.raw,
        v.w.raw,
        m.m[i][0].raw,
        m.m[i][1].raw,
        m.m[i][2].raw,
        m.m[i][3].raw,
    );
    Fx { raw: d as i64 }
}

} // verus!
