//! 4x4 transform matrices in 48.16 fixed point.
//!
//! A matrix is sixteen fixed-point entries in row-major order.  Points are
//! treated as column vectors, so a translation sits in the last column and
//! `a * b` applies `b` first and `a` second.  Multiplication rescales each
//! dot product by [`FP_ONE`] with floor rounding, so every entry of a
//! product is an exactly specified integer.

use vstd::prelude::*;

verus! {

use crate::fixed::{FP_ONE, MAT_LIMIT, floor_div_i128, clamp_i128, lemma_mul_bound, spec_clamp};
use vstd::arithmetic::mul::lemma_mul_inequality;
use vstd::arithmetic::mul::lemma_mul_nonnegative;
use vstd::arithmetic::div_mod::lemma_div_is_ordered;
use vstd::arithmetic::div_mod::lemma_div_pos_is_pos;
use vstd::arithmetic::div_mod::lemma_div_multiples_vanish;

/// A 4x4 transform, sixteen 48.16 fixed-point entries in row-major order.
#[derive(Clone, Copy, PartialEq, Eq, Debug)]
pub struct Mat4 {
    pub m: [i64; 16],
}

impl View for Mat4 {
    type V = Seq<int>;

    open spec fn view(&self) -> Seq<int> {
        Seq::new(16, |k: int| self.m@[k] as int)
    }
}

/// All sixteen entries lie within [`MAT_LIMIT`], so the matrix can enter
/// further products without overflowing their intermediates.
pub open spec fn mat_bounded(s: Seq<int>) -> bool {
    forall|k: int| 0 <= k < 16 ==> -MAT_LIMIT <= #[trigger] s[k] <= MAT_LIMIT
}

/// The identity transform: `FP_ONE` on the diagonal.
pub open spec fn spec_identity() -> Seq<int> {
    Seq::new(16, |k: int| if k == 0 || k == 5 || k == 10 || k == 15 {
        FP_ONE as int
    } else {
        0
    })
}

/// A translation by `(x, y, z)`: identity rotation with the offset in the
/// last column.
pub open spec fn spec_translation(x: int, y: int, z: int) -> Seq<int> {
    seq![
        FP_ONE as int, 0, 0, x,
        0, FP_ONE as int, 0, y,
        0, 0, FP_ONE as int, z,
        0, 0, 0, FP_ONE as int,
    ]
}

/// Entry `(r, c)` of a matrix product: the dot product of row `r` of `a`
/// with column `c` of `b`, rescaled by `FP_ONE` with floor rounding.
pub open spec fn spec_mul_entry(a: Seq<int>, b: Seq<int>, r: int, c: int) -> int {
    (a[4 * r] * b[c]
        + a[4 * r + 1] * b[4 + c]
        + a[4 * r + 2] * b[8 + c]
        + a[4 * r + 3] * b[12 + c]) / (FP_ONE as int)
}

/// The matrix product `a * b`.
pub open spec fn spec_mat_mul(a: Seq<int>, b: Seq<int>) -> Seq<int> {
    Seq::new(16, |k: int| spec_mul_entry(a, b, k / 4, k % 4))
}

/// One interpolated entry: `a + (b - a) * t / FP_ONE` with floor rounding,
/// for a blend factor `t` between `0` and `FP_ONE`.
pub open spec fn spec_lerp_entry(a: int, b: int, t: int) -> int {
    a + (b - a) * t / (FP_ONE as int)
}

/// Component-wise linear interpolation between two matrices.
pub open spec fn spec_mat_lerp(a: Seq<int>, b: Seq<int>, t: int) -> Seq<int> {
    Seq::new(16, |k: int| spec_lerp_entry(a[k], b[k], t))
}

/// Every entry pinned to [`MAT_LIMIT`].
pub open spec fn spec_mat_clamp(s: Seq<int>) -> Seq<int> {
    Seq::new(16, |k: int| spec_clamp(s[k], MAT_LIMIT as int))
}

/// The matrix product `a * b` with every entry pinned to [`MAT_LIMIT`].
pub open spec fn spec_mat_mul_clamped(a: Seq<int>, b: Seq<int>) -> Seq<int> {
    Seq::new(16, |k: int| spec_clamp(spec_mul_entry(a, b, k / 4, k % 4), MAT_LIMIT as int))
}

/// The component-wise arithmetic mean of two matrices, rounded toward
/// negative infinity.
pub open spec fn spec_mat_mean(a: Seq<int>, b: Seq<int>) -> Seq<int> {
    Seq::new(16, |k: int| (a[k] + b[k]) / 2)
}

/// An interpolated entry never leaves the interval spanned by its two
/// endpoints.
pub proof fn lemma_lerp_entry_bounds(a: int, b: int, t: int)
    requires
        0 <= t <= FP_ONE,
    ensures
        a <= b ==> a <= spec_lerp_entry(a, b, t) <= b,
        b <= a ==> b <= spec_lerp_entry(a, b, t) <= a,
{
    let d = b - a;
    let f = FP_ONE as int;
    lemma_div_multiples_vanish(d, f);
    assert(d * f == f * d) by (nonlinear_arith);
    if d >= 0 {
        lemma_mul_nonnegative(d, t);
        lemma_div_pos_is_pos(d * t, f);
        lemma_mul_inequality(t, f, d);
        assert(t * d == d * t && f * d == d * f) by (nonlinear_arith);
        lemma_div_is_ordered(d * t, d * f, f);
    } else {
        lemma_mul_inequality(t, f, -d);
        assert(t * -d == -(d * t) && f * -d == -(d * f)) by (nonlinear_arith);
        lemma_div_is_ordered(d * f, d * t, f);
        lemma_mul_nonnegative(-d, t);
        lemma_div_multiples_vanish(0, f);
        lemma_div_is_ordered(d * t, 0, f);
    }
}

/// Interpolating two bounded matrices yields a bounded matrix.
pub proof fn lemma_lerp_bounded(a: Seq<int>, b: Seq<int>, t: int)
    requires
        mat_bounded(a),
        mat_bounded(b),
        0 <= t <= FP_ONE,
    ensures
        mat_bounded(spec_mat_lerp(a, b, t)),
{
    assert forall|k: int| 0 <= k < 16 implies
        -MAT_LIMIT <= #[trigger] spec_mat_lerp(a, b, t)[k] <= MAT_LIMIT by {
        lemma_lerp_entry_bounds(a[k], b[k], t);
    }
}

/// One interpolated fixed-point entry.
fn lerp_entry(a: i64, b: i64, t: i64) -> (v: i64)
    requires
        0 <= t <= FP_ONE,
    ensures
        v == spec_lerp_entry(a as int, b as int, t as int),
{
    let d: i128 = (b as i128) - (a as i128);
    proof {
        lemma_mul_bound(d as int, t as int, 0x2_0000_0000_0000_0000, FP_ONE as int);
    }
    let p: i128 = d * (t as i128);
    let q: i128 = floor_div_i128(p, FP_ONE as i128);
    proof {
        lemma_lerp_entry_bounds(a as int, b as int, t as int);
    }
    let v: i128 = (a as i128) + q;
    v as i64
}

impl Mat4 {
    /// Wraps sixteen row-major entries.
    pub fn new(m: [i64; 16]) -> (r: Mat4)
        ensures
            r@ == Seq::new(16, |k: int| m@[k] as int),
    {
        Mat4 { m }
    }

    /// The identity transform.
    pub fn identity() -> (r: Mat4)
        ensures
            r@ == spec_identity(),
            mat_bounded(r@),
    {
        let r = Mat4 {
            m: [
                FP_ONE, 0, 0, 0,
                0, FP_ONE, 0, 0,
                0, 0, FP_ONE, 0,
                0, 0, 0, FP_ONE,
            ],
        };
        proof {
            assert(r@ =~= spec_identity());
        }
        r
    }

    /// A translation by the fixed-point offset `(x, y, z)`.
    pub fn translation(x: i64, y: i64, z: i64) -> (r: Mat4)
        ensures
            r@ == spec_translation(x as int, y as int, z as int),
    {
        let r = Mat4 {
            m: [
                FP_ONE, 0, 0, x,
                0, FP_ONE, 0, y,
                0, 0, FP_ONE, z,
                0, 0, 0, FP_ONE,
            ],
        };
        proof {
            assert(r@ =~= spec_translation(x as int, y as int, z as int));
        }
        r
    }

    /// Checked matrix product `self * o`.  Returns `None` exactly when
    /// some entry of the mathematical product falls outside
    /// [`MAT_LIMIT`]; otherwise every entry of the result is that exact
    /// floor-rounded dot product.
    pub fn mul_checked(&self, o: &Mat4) -> (r: Option<Mat4>)
        requires
            mat_bounded(self@),
            mat_bounded(o@),
        ensures
            match r {
                Some(p) => p@ == spec_mat_mul(self@, o@) && mat_bounded(p@),
                None => !mat_bounded(spec_mat_mul(self@, o@)),
            },
    {
        let e0 = match Self::mul_entry_checked(self, o, 0, 0) { Some(v) => v, None => { return None; } };
        let e1 = match Self::mul_entry_checked(self, o, 0, 1) { Some(v) => v, None => { return None; } };
        let e2 = match Self::mul_entry_checked(self, o, 0, 2) { Some(v) => v, None => { return None; } };
        let e3 = match Self::mul_entry_checked(self, o, 0, 3) { Some(v) => v, None => { return None; } };
        let e4 = match Self::mul_entry_checked(self, o, 1, 0) { Some(v) => v, None => { return None; } };
        let e5 = match Self::mul_entry_checked(self, o, 1, 1) { Some(v) => v, None => { return None; } };
        let e6 = match Self::mul_entry_checked(self, o, 1, 2) { Some(v) => v, None => { return None; } };
        let e7 = match Self::mul_entry_checked(self, o, 1, 3) { Some(v) => v, None => { return None; } };
        let e8 = match Self::mul_entry_checked(self, o, 2, 0) { Some(v) => v, None => { return None; } };
        let e9 = match Self::mul_entry_checked(self, o, 2, 1) { Some(v) => v, None => { return None; } };
        let e10 = match Self::mul_entry_checked(self, o, 2, 2) { Some(v) => v, None => { return None; } };
        let e11 = match Self::mul_entry_checked(self, o, 2, 3) { Some(v) => v, None => { return None; } };
        let e12 = match Self::mul_entry_checked(self, o, 3, 0) { Some(v) => v, None => { return None; } };
        let e13 = match Self::mul_entry_checked(self, o, 3, 1) { Some(v) => v, None => { return None; } };
        let e14 = match Self::mul_entry_checked(self, o, 3, 2) { Some(v) => v, None => { return None; } };
        let e15 = match Self::mul_entry_checked(self, o, 3, 3) { Some(v) => v, None => { return None; } };
        let p = Mat4 {
            m: [e0, e1, e2, e3, e4, e5, e6, e7, e8, e9, e10, e11, e12, e13, e14, e15],
        };
        proof {
            assert(p@ =~= spec_mat_mul(self@, o@));
        }
        Some(p)
    }

    /// One checked entry of the product `a * b`; reports a violation of
    /// [`MAT_LIMIT`] as `None`.
    fn mul_entry_checked(a: &Mat4, b: &Mat4, r: usize, c: usize) -> (res: Option<i64>)
        requires
            r < 4,
            c < 4,
            mat_bounded(a@),
            mat_bounded(b@),
        ensures
            match res {
                Some(v) => {
                    &&& v == spec_mat_mul(a@, b@)[4 * (r as int) + (c as int)]
                    &&& -MAT_LIMIT <= spec_mat_mul(a@, b@)[4 * (r as int) + (c as int)] <= MAT_LIMIT
                },
                None => !mat_bounded(spec_mat_mul(a@, b@)),
            },
    {
        let q: i128 = Self::mul_entry_q(a, b, r, c);
        let ghost k: int = 4 * (r as int) + (c as int);
        proof {
            assert(spec_mat_mul(a@, b@)[k] == spec_mul_entry(a@, b@, r as int, c as int));
        }
        if q > (MAT_LIMIT as i128) || q < -(MAT_LIMIT as i128) {
            proof {
                assert(!(-MAT_LIMIT <= spec_mat_mul(a@, b@)[k] <= MAT_LIMIT));
            }
            None
        } else {
            Some(q as i64)
        }
    }

    /// The exact (unclamped) entry `(r, c)` of the product `a * b`,
    /// carried in 128 bits.
    fn mul_entry_q(a: &Mat4, b: &Mat4, r: usize, c: usize) -> (q: i128)
        requires
            r < 4,
            c < 4,
            mat_bounded(a@),
            mat_bounded(b@),
        ensures
            q as int == spec_mul_entry(a@, b@, r as int, c as int),
    {
        proof {
            lemma_mul_bound(a@[4 * (r as int)], b@[c as int], MAT_LIMIT as int, MAT_LIMIT as int);
            lemma_mul_bound(a@[4 * (r as int) + 1], b@[4 + c as int], MAT_LIMIT as int, MAT_LIMIT as int);
            lemma_mul_bound(a@[4 * (r as int) + 2], b@[8 + c as int], MAT_LIMIT as int, MAT_LIMIT as int);
            lemma_mul_bound(a@[4 * (r as int) + 3], b@[12 + c as int], MAT_LIMIT as int, MAT_LIMIT as int);
        }
        let x0: i128 = (a.m[4 * r] as i128) * (b.m[c] as i128);
        let x1: i128 = (a.m[4 * r + 1] as i128) * (b.m[4 + c] as i128);
        let x2: i128 = (a.m[4 * r + 2] as i128) * (b.m[8 + c] as i128);
        let x3: i128 = (a.m[4 * r + 3] as i128) * (b.m[12 + c] as i128);
        let s: i128 = x0 + x1 + x2 + x3;
        floor_div_i128(s, FP_ONE as i128)
    }

    /// Component-wise linear interpolation from `self` (at `t == 0`) to
    /// `o` (at `t == FP_ONE`), with floor rounding.
    pub fn lerp(&self, o: &Mat4, t: i64) -> (r: Mat4)
        requires
            0 <= t <= FP_ONE,
        ensures
            r@ == spec_mat_lerp(self@, o@, t as int),
    {
        let m = [
            lerp_entry(self.m[0], o.m[0], t),
            lerp_entry(self.m[1], o.m[1], t),
            lerp_entry(self.m[2], o.m[2], t),
            lerp_entry(self.m[3], o.m[3], t),
            lerp_entry(self.m[4], o.m[4], t),
            lerp_entry(self.m[5], o.m[5], t),
            lerp_entry(self.m[6], o.m[6], t),
            lerp_entry(self.m[7], o.m[7], t),
            lerp_entry(self.m[8], o.m[8], t),
            lerp_entry(self.m[9], o.m[9], t),
            lerp_entry(self.m[10], o.m[10], t),
            lerp_entry(self.m[11], o.m[11], t),
            lerp_entry(self.m[12], o.m[12], t),
            lerp_entry(self.m[13], o.m[13], t),
            lerp_entry(self.m[14], o.m[14], t),
            lerp_entry(self.m[15], o.m[15], t),
        ];
        let r = Mat4 { m };
        proof {
            assert(r@ =~= spec_mat_lerp(self@, o@, t as int));
        }
        r
    }

    /// Pins every entry to [`MAT_LIMIT`].
    pub fn clamped(&self) -> (r: Mat4)
        ensures
            r@ == spec_mat_clamp(self@),
            mat_bounded(r@),
    {
        let r = Mat4 {
            m: [
                clamp_i128(self.m[0] as i128, MAT_LIMIT),
                clamp_i128(self.m[1] as i128, MAT_LIMIT),
                clamp_i128(self.m[2] as i128, MAT_LIMIT),
                clamp_i128(self.m[3] as i128, MAT_LIMIT),
                clamp_i128(self.m[4] as i128, MAT_LIMIT),
                clamp_i128(self.m[5] as i128, MAT_LIMIT),
                clamp_i128(self.m[6] as i128, MAT_LIMIT),
                clamp_i128(self.m[7] as i128, MAT_LIMIT),
                clamp_i128(self.m[8] as i128, MAT_LIMIT),
                clamp_i128(self.m[9] as i128, MAT_LIMIT),
                clamp_i128(self.m[10] as i128, MAT_LIMIT),
                clamp_i128(self.m[11] as i128, MAT_LIMIT),
                clamp_i128(self.m[12] as i128, MAT_LIMIT),
                clamp_i128(self.m[13] as i128, MAT_LIMIT),
                clamp_i128(self.m[14] as i128, MAT_LIMIT),
                clamp_i128(self.m[15] as i128, MAT_LIMIT),
            ],
        };
        proof {
            assert(r@ =~= spec_mat_clamp(self@));
        }
        r
    }

    /// The matrix product `self * o` with every entry pinned to
    /// [`MAT_LIMIT`]: a total companion of [`Self::mul_checked`] for
    /// derived state that must always exist.
    pub fn mul_clamped(&self, o: &Mat4) -> (r: Mat4)
        requires
            mat_bounded(self@),
            mat_bounded(o@),
        ensures
            r@ == spec_mat_mul_clamped(self@, o@),
            mat_bounded(r@),
    {
        let r = Mat4 {
            m: [
                Self::mul_entry_clamped(self, o, 0, 0),
                Self::mul_entry_clamped(self, o, 0, 1),
                Self::mul_entry_clamped(self, o, 0, 2),
                Self::mul_entry_clamped(self, o, 0, 3),
                Self::mul_entry_clamped(self, o, 1, 0),
                Self::mul_entry_clamped(self, o, 1, 1),
                Self::mul_entry_clamped(self, o, 1, 2),
                Self::mul_entry_clamped(self, o, 1, 3),
                Self::mul_entry_clamped(self, o, 2, 0),
                Self::mul_entry_clamped(self, o, 2, 1),
                Self::mul_entry_clamped(self, o, 2, 2),
                Self::mul_entry_clamped(self, o, 2, 3),
                Self::mul_entry_clamped(self, o, 3, 0),
                Self::mul_entry_clamped(self, o, 3, 1),
                Self::mul_entry_clamped(self, o, 3, 2),
                Self::mul_entry_clamped(self, o, 3, 3),
            ],
        };
        proof {
            assert(r@ =~= spec_mat_mul_clamped(self@, o@));
        }
        r
    }

    /// One entry of the product `a * b`, pinned to [`MAT_LIMIT`].
    fn mul_entry_clamped(a: &Mat4, b: &Mat4, r: usize, c: usize) -> (v: i64)
        requires
            r < 4,
            c < 4,
            mat_bounded(a@),
            mat_bounded(b@),
        ensures
            v as int == spec_clamp(spec_mul_entry(a@, b@, r as int, c as int), MAT_LIMIT as int),
    {
        let q: i128 = Self::mul_entry_q(a, b, r, c);
        clamp_i128(q, MAT_LIMIT)
    }

    /// Checks that every entry lies within [`MAT_LIMIT`].
    pub fn in_limit(&self) -> (b: bool)
        ensures
            b == mat_bounded(self@),
    {
        let mut k: usize = 0;
        while k < 16
            invariant
                k <= 16,
                forall|j: int| 0 <= j < k ==> -MAT_LIMIT <= #[trigger] self@[j] <= MAT_LIMIT,
            decreases 16 - k,
        {
            if self.m[k] > MAT_LIMIT || self.m[k] < -MAT_LIMIT {
                proof {
                    assert(!(-MAT_LIMIT <= self@[k as int] <= MAT_LIMIT));
                }
                return false;
            }
            k += 1;
        }
        true
    }

    /// Reads entry `(r, c)`.
    pub fn entry(&self, r: usize, c: usize) -> (v: i64)
        requires
            r < 4,
            c < 4,
        ensures
            v == self@[4 * r + c],
    {
        self.m[4 * r + c]
    }
}

} // verus!
