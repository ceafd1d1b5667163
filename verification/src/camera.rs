//! The camera: a position, a look-at target and a perspective transform,
//! from which the view and projection matrices are derived.
//!
//! The view matrix is the classic look-at construction — forward, side
//! and up basis vectors from normalized differences and cross products —
//! carried out entirely in 48.16 fixed point.  Each derivation step pins
//! its result to a generous range so that every function here is total;
//! the pins are inert for any realistic scene.

use vstd::prelude::*;

verus! {

use crate::fixed::{
    FP_ONE, MAT_LIMIT, spec_clamp, clamp_i128, spec_isqrt, isqrt_u128, floor_div_i128,
    lemma_mul_bound, DIV_RANGE,
};
use crate::mat4::{
    Mat4, mat_bounded, spec_mat_clamp, spec_mat_mul_clamped,
};
use crate::vec3::Vec3;

/// Bound on camera-space differences entering the view construction.
pub const DIR_LIMIT: i64 = 0x100_0000_0000;

/// Bound on the entries of a cross product of near-unit vectors.
pub const CROSS_LIMIT: i64 = 2 * FP_ONE;

/// `pos` pinned component-wise to [`DIR_LIMIT`].
pub open spec fn spec_eye(pos: Vec3) -> (int, int, int) {
    (
        spec_clamp(pos.x as int, DIR_LIMIT as int),
        spec_clamp(pos.y as int, DIR_LIMIT as int),
        spec_clamp(pos.z as int, DIR_LIMIT as int),
    )
}

/// The difference `tgt - pos`, pinned component-wise to [`DIR_LIMIT`].
pub open spec fn spec_dir(pos: Vec3, tgt: Vec3) -> (int, int, int) {
    (
        spec_clamp(tgt.x as int - pos.x as int, DIR_LIMIT as int),
        spec_clamp(tgt.y as int - pos.y as int, DIR_LIMIT as int),
        spec_clamp(tgt.z as int - pos.z as int, DIR_LIMIT as int),
    )
}

/// Squared length of a component triple.
pub open spec fn spec_sqlen(v: (int, int, int)) -> int {
    v.0 * v.0 + v.1 * v.1 + v.2 * v.2
}

/// `v` scaled to (fixed-point) unit length: each component is
/// `c * FP_ONE / |v|` with floor rounding, pinned to `FP_ONE`; the zero
/// vector stays zero.
pub open spec fn spec_norm(v: (int, int, int)) -> (int, int, int) {
    let l = spec_isqrt(spec_sqlen(v));
    if l == 0 {
        (0, 0, 0)
    } else {
        (
            spec_clamp(v.0 * (FP_ONE as int) / l, FP_ONE as int),
            spec_clamp(v.1 * (FP_ONE as int) / l, FP_ONE as int),
            spec_clamp(v.2 * (FP_ONE as int) / l, FP_ONE as int),
        )
    }
}

/// Fixed-point cross product, each component rescaled by `FP_ONE` and
/// pinned to [`CROSS_LIMIT`].
pub open spec fn spec_cross(a: (int, int, int), b: (int, int, int)) -> (int, int, int) {
    (
        spec_clamp((a.1 * b.2 - a.2 * b.1) / (FP_ONE as int), CROSS_LIMIT as int),
        spec_clamp((a.2 * b.0 - a.0 * b.2) / (FP_ONE as int), CROSS_LIMIT as int),
        spec_clamp((a.0 * b.1 - a.1 * b.0) / (FP_ONE as int), CROSS_LIMIT as int),
    )
}

/// Fixed-point dot product, rescaled by `FP_ONE`.
pub open spec fn spec_dot(a: (int, int, int), b: (int, int, int)) -> int {
    (a.0 * b.0 + a.1 * b.1 + a.2 * b.2) / (FP_ONE as int)
}

/// The look-at view matrix for an eye at `pos` facing `tgt` with the
/// world z axis up: rows are the side, up and negated forward basis
/// vectors with the corresponding eye offsets in the last column.
pub open spec fn spec_look_at(pos: Vec3, tgt: Vec3) -> Seq<int> {
    let eye = spec_eye(pos);
    let f = spec_norm(spec_dir(pos, tgt));
    let s = spec_norm(spec_cross(f, (0, 0, FP_ONE as int)));
    let u = spec_cross(s, f);
    seq![
        s.0, s.1, s.2, -spec_clamp(spec_dot(s, eye), MAT_LIMIT as int),
        u.0, u.1, u.2, -spec_clamp(spec_dot(u, eye), MAT_LIMIT as int),
        -f.0, -f.1, -f.2, spec_clamp(spec_dot(f, eye), MAT_LIMIT as int),
        0, 0, 0, FP_ONE as int,
    ]
}

/// All three components lie within `lim`.
pub open spec fn triple_bounded(v: (int, int, int), lim: int) -> bool {
    &&& -lim <= v.0 <= lim
    &&& -lim <= v.1 <= lim
    &&& -lim <= v.2 <= lim
}

/// The triple of a vector's components.
pub open spec fn triple_of(v: Vec3) -> (int, int, int) {
    (v.x as int, v.y as int, v.z as int)
}

/// `tgt - pos`, component-wise pinned to [`DIR_LIMIT`].
fn dir_clamped(pos: Vec3, tgt: Vec3) -> (d: Vec3)
    ensures
        triple_of(d) == spec_dir(pos, tgt),
        triple_bounded(triple_of(d), DIR_LIMIT as int),
{
    Vec3 {
        x: clamp_i128((tgt.x as i128) - (pos.x as i128), DIR_LIMIT),
        y: clamp_i128((tgt.y as i128) - (pos.y as i128), DIR_LIMIT),
        z: clamp_i128((tgt.z as i128) - (pos.z as i128), DIR_LIMIT),
    }
}

/// Normalizes a bounded vector to fixed-point unit length.
fn norm_fp(v: Vec3) -> (n: Vec3)
    requires
        triple_bounded(triple_of(v), DIR_LIMIT as int),
    ensures
        triple_of(n) == spec_norm(triple_of(v)),
        triple_bounded(triple_of(n), FP_ONE as int),
{
    proof {
        lemma_mul_bound(v.x as int, v.x as int, DIR_LIMIT as int, DIR_LIMIT as int);
        lemma_mul_bound(v.y as int, v.y as int, DIR_LIMIT as int, DIR_LIMIT as int);
        lemma_mul_bound(v.z as int, v.z as int, DIR_LIMIT as int, DIR_LIMIT as int);
        assert((v.x as int) * (v.x as int) >= 0) by (nonlinear_arith);
        assert((v.y as int) * (v.y as int) >= 0) by (nonlinear_arith);
        assert((v.z as int) * (v.z as int) >= 0) by (nonlinear_arith);
    }
    let sx: i128 = (v.x as i128) * (v.x as i128);
    let sy: i128 = (v.y as i128) * (v.y as i128);
    let sz: i128 = (v.z as i128) * (v.z as i128);
    let sq: u128 = (sx + sy + sz) as u128;
    let l: u128 = isqrt_u128(sq);
    if l == 0 {
        Vec3 { x: 0, y: 0, z: 0 }
    } else {
        proof {
            lemma_mul_bound(v.x as int, FP_ONE as int, DIR_LIMIT as int, FP_ONE as int);
            lemma_mul_bound(v.y as int, FP_ONE as int, DIR_LIMIT as int, FP_ONE as int);
            lemma_mul_bound(v.z as int, FP_ONE as int, DIR_LIMIT as int, FP_ONE as int);
            assert((l as int) * (l as int) <= sq as int);
            assert((l as int) < (DIV_RANGE as int)) by (nonlinear_arith)
                requires
                    (l as int) * (l as int) <= sq as int,
                    sq as int <= 3 * (DIR_LIMIT as int) * (DIR_LIMIT as int),
                    0 <= l as int,
            ;
        }
        Vec3 {
            x: clamp_i128(floor_div_i128((v.x as i128) * (FP_ONE as i128), l as i128), FP_ONE),
            y: clamp_i128(floor_div_i128((v.y as i128) * (FP_ONE as i128), l as i128), FP_ONE),
            z: clamp_i128(floor_div_i128((v.z as i128) * (FP_ONE as i128), l as i128), FP_ONE),
        }
    }
}

/// Fixed-point cross product of two near-unit vectors.
fn cross_fp(a: Vec3, b: Vec3) -> (c: Vec3)
    requires
        triple_bounded(triple_of(a), CROSS_LIMIT as int),
        triple_bounded(triple_of(b), CROSS_LIMIT as int),
    ensures
        triple_of(c) == spec_cross(triple_of(a), triple_of(b)),
        triple_bounded(triple_of(c), CROSS_LIMIT as int),
{
    proof {
        lemma_mul_bound(a.y as int, b.z as int, CROSS_LIMIT as int, CROSS_LIMIT as int);
        lemma_mul_bound(a.z as int, b.y as int, CROSS_LIMIT as int, CROSS_LIMIT as int);
        lemma_mul_bound(a.z as int, b.x as int, CROSS_LIMIT as int, CROSS_LIMIT as int);
        lemma_mul_bound(a.x as int, b.z as int, CROSS_LIMIT as int, CROSS_LIMIT as int);
        lemma_mul_bound(a.x as int, b.y as int, CROSS_LIMIT as int, CROSS_LIMIT as int);
        lemma_mul_bound(a.y as int, b.x as int, CROSS_LIMIT as int, CROSS_LIMIT as int);
    }
    let cx: i128 = (a.y as i128) * (b.z as i128) - (a.z as i128) * (b.y as i128);
    let cy: i128 = (a.z as i128) * (b.x as i128) - (a.x as i128) * (b.z as i128);
    let cz: i128 = (a.x as i128) * (b.y as i128) - (a.y as i128) * (b.x as i128);
    Vec3 {
        x: clamp_i128(floor_div_i128(cx, FP_ONE as i128), CROSS_LIMIT),
        y: clamp_i128(floor_div_i128(cy, FP_ONE as i128), CROSS_LIMIT),
        z: clamp_i128(floor_div_i128(cz, FP_ONE as i128), CROSS_LIMIT),
    }
}

/// Fixed-point dot product of a near-unit vector with a bounded point.
fn dot_fp(a: Vec3, e: Vec3) -> (d: i128)
    requires
        triple_bounded(triple_of(a), CROSS_LIMIT as int),
        triple_bounded(triple_of(e), DIR_LIMIT as int),
    ensures
        d as int == spec_dot(triple_of(a), triple_of(e)),
{
    proof {
        lemma_mul_bound(a.x as int, e.x as int, CROSS_LIMIT as int, DIR_LIMIT as int);
        lemma_mul_bound(a.y as int, e.y as int, CROSS_LIMIT as int, DIR_LIMIT as int);
        lemma_mul_bound(a.z as int, e.z as int, CROSS_LIMIT as int, DIR_LIMIT as int);
    }
    let s: i128 = (a.x as i128) * (e.x as i128) + (a.y as i128) * (e.y as i128) + (a.z as i128)
        * (e.z as i128);
    floor_div_i128(s, FP_ONE as i128)
}

/// Builds the look-at view matrix for an eye at `pos` facing `tgt`.
pub fn look_at_matrix(pos: Vec3, tgt: Vec3) -> (m: Mat4)
    ensures
        m@ == spec_look_at(pos, tgt),
        mat_bounded(m@),
{
    let eye = Vec3 {
        x: clamp_i128(pos.x as i128, DIR_LIMIT),
        y: clamp_i128(pos.y as i128, DIR_LIMIT),
        z: clamp_i128(pos.z as i128, DIR_LIMIT),
    };
    let f = norm_fp(dir_clamped(pos, tgt));
    let up = Vec3 { x: 0, y: 0, z: FP_ONE };
    let s = norm_fp(cross_fp(f, up));
    let u = cross_fp(s, f);
    let ds = clamp_i128(dot_fp(s, eye), MAT_LIMIT);
    let du = clamp_i128(dot_fp(u, eye), MAT_LIMIT);
    let df = clamp_i128(dot_fp(f, eye), MAT_LIMIT);
    let m = Mat4 {
        m: [
            s.x, s.y, s.z, -ds,
            u.x, u.y, u.z, -du,
            -f.x, -f.y, -f.z, df,
            0, 0, 0, FP_ONE,
        ],
    };
    proof {
        assert(m@ =~= spec_look_at(pos, tgt));
        assert forall|k: int| 0 <= k < 16 implies -MAT_LIMIT <= #[trigger] m@[k] <= MAT_LIMIT by {
        }
    }
    m
}

/// A camera: world placement, look-at target and perspective transform.
/// The view and projection matrices are derived on demand, so they are
/// always current after a move or look-at command.
pub struct Camera {
    /// Eye position.
    pub position: Vec3,
    /// Point the camera looks at.
    pub target: Vec3,
    /// The perspective transform supplied at construction.
    pub perspective: Mat4,
}

impl Camera {
    /// The current view matrix.
    pub open spec fn spec_view(self) -> Seq<int> {
        spec_look_at(self.position, self.target)
    }

    /// The current projection matrix: the (entry-pinned) perspective
    /// transform times the view matrix.
    pub open spec fn spec_projection(self) -> Seq<int> {
        spec_mat_mul_clamped(spec_mat_clamp(self.perspective@), self.spec_view())
    }

    /// A camera at `position` looking at `target` through `perspective`.
    pub fn new(position: Vec3, target: Vec3, perspective: Mat4) -> (c: Camera)
        ensures
            c.position == position,
            c.target == target,
            c.perspective == perspective,
    {
        Camera { position, target, perspective }
    }

    /// Points the camera at a new target.
    pub fn look_at(&mut self, target: Vec3)
        ensures
            final(self).target == target,
            final(self).position == old(self).position,
            final(self).perspective == old(self).perspective,
    {
        self.target = target;
    }

    /// The (saturating) direction from the eye to the target.
    pub fn direction(&self) -> (d: Vec3)
        ensures
            d == self.target.spec_minus(self.position),
    {
        self.target.minus(self.position)
    }

    /// Moves the eye by `v`.
    pub fn translate(&mut self, v: Vec3)
        ensures
            final(self).position == old(self).position.spec_plus(v),
            final(self).target == old(self).target,
            final(self).perspective == old(self).perspective,
    {
        self.position = self.position.plus(v);
    }

    /// Computes the current view matrix.
    pub fn view(&self) -> (m: Mat4)
        ensures
            m@ == self.spec_view(),
            mat_bounded(m@),
    {
        look_at_matrix(self.position, self.target)
    }

    /// Computes the current projection matrix.
    pub fn projection(&self) -> (m: Mat4)
        ensures
            m@ == self.spec_projection(),
            mat_bounded(m@),
    {
        let v = self.view();
        self.perspective.clamped().mul_clamped(&v)
    }
}

} // verus!
