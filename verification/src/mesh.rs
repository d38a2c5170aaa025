//! Meshes: an append-only vertex list plus three transform matrices.
//!
//! The transformed vertices are recomputed from scratch on every request:
//! each local vertex is promoted to homogeneous form, multiplied by the
//! scale, then rotation, then translation matrix, and demoted back.

use vstd::prelude::*;

use crate::fx::{Fx, FX_ONE, fx_mul_spec, lemma_fx_mul_one, lemma_fx_mul_zero};
use crate::matrix::{Mat4, is_identity, vec_mat_entry};
use crate::vector::{Vector3, Vector4};

verus! {

/// Whether a mathematical value fits an `i64`.
pub open spec fn in_i64(x: int) -> bool {
    i64::MIN <= x <= i64::MAX
}

/// A homogeneous 4-tuple of raw components times a matrix: component `i`
/// is the dot product with row `i`.
pub open spec fn tuple_times_mat(t: (int, int, int, int), m: Mat4) -> (int, int, int, int) {
    (
        fx_mul_spec(t.0, m.at(0, 0)) + fx_mul_spec(t.1, m.at(0, 1)) + fx_mul_spec(t.2, m.at(0, 2))
            + fx_mul_spec(t.3, m.at(0, 3)),
        fx_mul_spec(t.0, m.at(1, 0)) + fx_mul_spec(t.1, m.at(1, 1)) + fx_mul_spec(t.2, m.at(1, 2))
            + fx_mul_spec(t.3, m.at(1, 3)),
        fx_mul_spec(t.0, m.at(2, 0)) + fx_mul_spec(t.1, m.at(2, 1)) + fx_mul_spec(t.2, m.at(2, 2))
            + fx_mul_spec(t.3, m.at(2, 3)),
        fx_mul_spec(t.0, m.at(3, 0)) + fx_mul_spec(t.1, m.at(3, 1)) + fx_mul_spec(t.2, m.at(3, 2))
            + fx_mul_spec(t.3, m.at(3, 3)),
    )
}

/// The raw components of a local vertex promoted to homogeneous form.
pub open spec fn promoted(v: Vector3) -> (int, int, int, int) {
    (v.x.raw as int, v.y.raw as int, v.z.raw as int, FX_ONE as int)
}

/// The raw components of a vertex taken through scale, rotation and
/// translation, demoted back to three components.
pub open spec fn transformed_vert(v: Vector3, s: Mat4, r: Mat4, t: Mat4) -> (int, int, int) {
    let h1 = tuple_times_mat(promoted(v), s);
    let h2 = tuple_times_mat(h1, r);
    let h3 = tuple_times_mat(h2, t);
    (h3.0, h3.1, h3.2)
}

/// All four components fit an `i64`.
pub open spec fn tuple_in_i64(t: (int, int, int, int)) -> bool {
    in_i64(t.0) && in_i64(t.1) && in_i64(t.2) && in_i64(t.3)
}

/// Every intermediate stage of the transform pipeline fits an `i64`.
pub open spec fn transform_in_range(v: Vector3, s: Mat4, r: Mat4, t: Mat4) -> bool {
    let h1 = tuple_times_mat(promoted(v), s);
    let h2 = tuple_times_mat(h1, r);
    let h3 = tuple_times_mat(h2, t);
    tuple_in_i64(h1) && tuple_in_i64(h2) && tuple_in_i64(h3)
}

/// The full transformed vertex list of a mesh, as `get_transformed_verts`
/// returns it (meaningful when every stage is in range).
pub open spec fn transformed_seq(m: Mesh) -> Seq<Vector3> {
    Seq::new(
        m.verts@.len(),
        |k: int|
            {
                let w = transformed_vert(
                    m.verts@[k],
                    m.scale_matrix,
                    m.rotation_matrix,
                    m.translation_matrix,
                );
                Vector3 { x: Fx { raw: w.0 as i64 }, y: Fx { raw: w.1 as i64 }, z: Fx {
                    raw: w.2 as i64,
                } }
            },
    )
}

/// One pipeline stage on a homogeneous tuple of raw components held in
/// `i64`s: the next tuple if all four of its components fit an `i64`.
fn tuple_stage(x: i64, y: i64, z: i64, w: i64, m: &Mat4) -> (r: Option<(i64, i64, i64, i64)>)
    ensures
        ({
            let t = tuple_times_mat((x as int, y as int, z as int, w as int), *m);
            match r {
                Option::Some(q) => tuple_in_i64(t) && q.0 == t.0 && q.1 == t.1 && q.2 == t.2
                    && q.3 == t.3,
                Option::None => !tuple_in_i64(t),
            }
        }),
{
    let d0 = crate::fx::fx_dot4(
        x,
        y,
        z,
        w,
        m.m[0][0].raw,
        m.m[0][1].raw,
        m.m[0][2].raw,
        m.m[0][3].raw,
    );
    let d1 = crate::fx::fx_dot4(
        x,
        y,
        z,
        w,
        m.m[1][0].raw,
        m.m[1][1].raw,
        m.m[1][2].raw,
        m.m[1][3].raw,
    );
    let d2 = crate::fx::fx_dot4(
        x,
        y,
        z,
        w,
        m.m[2][0].raw,
        m.m[2][1].raw,
        m.m[2][2].raw,
        m.m[2][3].raw,
    );
    let d3 = crate::fx::fx_dot4(
        x,
        y,
        z,
        w,
        m.m[3][0].raw,
        m.m[3][1].raw,
        m.m[3][2].raw,
        m.m[3][3].raw,
    );
    let lo: i128 = i64::MIN as i128;
    let hi: i128 = i64::MAX as i128;
    if lo <= d0 && d0 <= hi && lo <= d1 && d1 <= hi && lo <= d2 && d2 <= hi && lo <= d3 && d3
        <= hi {
        Some((d0 as i64, d1 as i64, d2 as i64, d3 as i64))
    } else {
        None
    }
}

/// Whether the whole transform pipeline for one vertex stays within
/// `i64` range: the executable form of `transform_in_range`, so that
/// unverified callers can test it before rasterizing.
pub fn vertex_transform_in_range(v: &Vector3, s: &Mat4, r: &Mat4, t: &Mat4) -> (b: bool)
    ensures
        b == transform_in_range(*v, *s, *r, *t),
{
    let h1 = match tuple_stage(v.x.raw, v.y.raw, v.z.raw, FX_ONE, s) {
        Option::Some(q) => q,
        Option::None => {
            return false;
        },
    };
    let h2 = match tuple_stage(h1.0, h1.1, h1.2, h1.3, r) {
        Option::Some(q) => q,
        Option::None => {
            return false;
        },
    };
    match tuple_stage(h2.0, h2.1, h2.2, h2.3, t) {
        Option::Some(_) => true,
        Option::None => false,
    }
}

/// The output vertex `out` is the input vertex `vin` taken through the
/// three matrices.
pub open spec fn vert_matches(out: Vector3, vin: Vector3, s: Mat4, r: Mat4, t: Mat4) -> bool {
    let w = transformed_vert(vin, s, r, t);
    out.x.raw == w.0 && out.y.raw == w.1 && out.z.raw == w.2
}

/// An ordered, append-only sequence of local-space vertices with three
/// independently settable transform matrices.  The mesh owns its
/// vertices and matrices exclusively.
pub struct Mesh {
    pub verts: Vec<Vector3>,
    pub translation_matrix: Mat4,
    pub scale_matrix: Mat4,
    pub rotation_matrix: Mat4,
}

impl Mesh {
    /// A new mesh: no vertices, identity transforms.
    pub fn new() -> (r: Mesh)
        ensures
            r.verts@.len() == 0,
            is_identity(r.translation_matrix),
            is_identity(r.scale_matrix),
            is_identity(r.rotation_matrix),
    {
        Mesh {
            verts: Vec::new(),
            translation_matrix: Mat4::identity(),
            scale_matrix: Mat4::identity(),
            rotation_matrix: Mat4::identity(),
        }
    }

    /// Replaces the translation matrix wholesale.
    pub fn set_translation_matrix(&mut self, mat: Mat4)
        ensures
            final(self).translation_matrix == mat,
            final(self).scale_matrix == old(self).scale_matrix,
            final(self).rotation_matrix == old(self).rotation_matrix,
            final(self).verts == old(self).verts,
    {
        self.translation_matrix = mat;
    }

    /// Replaces the rotation matrix wholesale.
    pub fn set_rotation_matrix(&mut self, mat: Mat4)
        ensures
            final(self).rotation_matrix == mat,
            final(self).scale_matrix == old(self).scale_matrix,
            final(self).translation_matrix == old(self).translation_matrix,
            final(self).verts == old(self).verts,
    {
        self.rotation_matrix = mat;
    }

    /// Replaces the scale matrix wholesale.
    pub fn set_scale_matrix(&mut self, mat: Mat4)
        ensures
            final(self).scale_matrix == mat,
            final(self).rotation_matrix == old(self).rotation_matrix,
            final(self).translation_matrix == old(self).translation_matrix,
            final(self).verts == old(self).verts,
    {
        self.scale_matrix = mat;
    }

    /// Appends a local-space vertex; nothing else changes.
    pub fn add_vertex(&mut self, point: Vector3)
        ensures
            final(self).verts@ == old(self).verts@.push(point),
            final(self).scale_matrix == old(self).scale_matrix,
            final(self).rotation_matrix == old(self).rotation_matrix,
            final(self).translation_matrix == old(self).translation_matrix,
    {
        self.verts.push(point);
    }

    /// Whether every vertex of this mesh can be taken through the
    /// current transforms without leaving `i64` range: the executable
    /// test of `get_transformed_verts`'s precondition.
    pub fn transforms_in_range(&self) -> (b: bool)
        ensures
            b == forall|k: int|
                0 <= k < self.verts@.len() ==> #[trigger] transform_in_range(
                    self.verts@[k],
                    self.scale_matrix,
                    self.rotation_matrix,
                    self.translation_matrix,
                ),
    {
        let n = self.verts.len();
        for i in 0..n
            invariant
                n == self.verts@.len(),
                forall|k: int|
                    0 <= k < i ==> #[trigger] transform_in_range(
                        self.verts@[k],
                        self.scale_matrix,
                        self.rotation_matrix,
                        self.translation_matrix,
                    ),
        {
            if !vertex_transform_in_range(
                &self.verts[i],
                &self.scale_matrix,
                &self.rotation_matrix,
                &self.translation_matrix,
            ) {
                return false;
            }
        }
        true
    }

    /// Recomputes and returns the full ordered list of transformed
    /// vertices: each local vertex through scale, rotation, then
    /// translation.  Pure: the mesh itself is unchanged.
    pub fn get_transformed_verts(&self) -> (r: Vec<Vector3>)
        requires
            forall|k: int|
                0 <= k < self.verts@.len() ==> #[trigger] transform_in_range(
                    self.verts@[k],
                    self.scale_matrix,
                    self.rotation_matrix,
                    self.translation_matrix,
                ),
        ensures
            r@.len() == self.verts@.len(),
            forall|k: int|
                0 <= k < self.verts@.len() ==> #[trigger] vert_matches(
                    r@[k],
                    self.verts@[k],
                    self.scale_matrix,
                    self.rotation_matrix,
                    self.translation_matrix,
                ),
    {
        let mut v: Vec<Vector3> = Vec::new();
        let n = self.verts.len();
        for i in 0..n
            invariant
                n == self.verts@.len(),
                v@.len() == i,
                forall|k: int|
                    0 <= k < n ==> #[trigger] transform_in_range(
                        self.verts@[k],
                        self.scale_matrix,
                        self.rotation_matrix,
                        self.translation_matrix,
                    ),
                forall|k: int|
                    0 <= k < i ==> #[trigger] vert_matches(
                        v@[k],
                        self.verts@[k],
                        self.scale_matrix,
                        self.rotation_matrix,
                        self.translation_matrix,
                    ),
        {
            let vert = self.verts[i];
            let h = Vector4::from(&vert);
            proof {
                assert(transform_in_range(
                    self.verts@[i as int],
                    self.scale_matrix,
                    self.rotation_matrix,
                    self.translation_matrix,
                ));
                lemma_vec_mat_matches_tuple(h, self.scale_matrix);
            }
            let h1 = h.mul_mat4(&self.scale_matrix);
            proof {
                lemma_vec_mat_matches_tuple(h1, self.rotation_matrix);
            }
            let h2 = h1.mul_mat4(&self.rotation_matrix);
            proof {
                lemma_vec_mat_matches_tuple(h2, self.translation_matrix);
            }
            let h3 = h2.mul_mat4(&self.translation_matrix);
            let out = Vector3::from(&h3);
            proof {
                assert(vert_matches(
                    out,
                    self.verts@[i as int],
                    self.scale_matrix,
                    self.rotation_matrix,
                    self.translation_matrix,
                ));
            }
            v.push(out);
        }
        v
    }
}

/// The vector-matrix product of a `Vector4` agrees componentwise with
/// the tuple-level pipeline spec.
pub proof fn lemma_vec_mat_matches_tuple(v: Vector4, m: Mat4)
    ensures
        vec_mat_entry(v, m, 0) == tuple_times_mat(
            (v.x.raw as int, v.y.raw as int, v.z.raw as int, v.w.raw as int),
            m,
        ).0,
        vec_mat_entry(v, m, 1) == tuple_times_mat(
            (v.x.raw as int, v.y.raw as int, v.z.raw as int, v.w.raw as int),
            m,
        ).1,
        vec_mat_entry(v, m, 2) == tuple_times_mat(
            (v.x.raw as int, v.y.raw as int, v.z.raw as int, v.w.raw as int),
            m,
        ).2,
        vec_mat_entry(v, m, 3) == tuple_times_mat(
            (v.x.raw as int, v.y.raw as int, v.z.raw as int, v.w.raw as int),
            m,
        ).3,
{
}

/// With identity scale, rotation and translation, the transform
/// pipeline returns every vertex unchanged (and all intermediate stages
/// fit, so `get_transformed_verts` is callable).
pub proof fn lemma_transform_identity_round_trip(v: Vector3, ident: Mat4)
    requires
        is_identity(ident),
    ensures
        transformed_vert(v, ident, ident, ident) == (
            v.x.raw as int,
            v.y.raw as int,
            v.z.raw as int,
        ),
        transform_in_range(v, ident, ident, ident),
{
    lemma_tuple_identity(promoted(v), ident);
    lemma_tuple_identity(tuple_times_mat(promoted(v), ident), ident);
    lemma_tuple_identity(
        tuple_times_mat(tuple_times_mat(promoted(v), ident), ident),
        ident,
    );
}

/// Multiplying a homogeneous tuple by an identity-patterned matrix
/// changes nothing.
pub proof fn lemma_tuple_identity(t: (int, int, int, int), ident: Mat4)
    requires
        is_identity(ident),
    ensures
        tuple_times_mat(t, ident) == t,
{
    lemma_fx_mul_one(t.0);
    lemma_fx_mul_one(t.1);
    lemma_fx_mul_one(t.2);
    lemma_fx_mul_one(t.3);
    lemma_fx_mul_zero(t.0);
    lemma_fx_mul_zero(t.1);
    lemma_fx_mul_zero(t.2);
    lemma_fx_mul_zero(t.3);
}

} // verus!
