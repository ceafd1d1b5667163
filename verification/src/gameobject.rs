//! Animated entities: a skeleton, its animation tracks, and the pose
//! evaluator that turns elapsed time (or a discrete frame index) into one
//! skinning matrix per joint.

use vstd::prelude::*;

verus! {

use crate::fixed::CYCLE_TICKS;
use crate::mat4::{
    Mat4, mat_bounded, spec_identity, spec_mat_mul, spec_mat_lerp, lemma_lerp_bounded,
};
use crate::joint::{Joint, ROOT_PARENT, skeleton_wf};
use crate::vec3::Vec3;
use vstd::arithmetic::mul::lemma_mul_upper_bound;
use vstd::arithmetic::mul::lemma_mul_strict_inequality;
use vstd::arithmetic::mul::lemma_mul_nonnegative;
use vstd::arithmetic::div_mod::lemma_multiply_divide_lt;
use vstd::arithmetic::div_mod::lemma_fundamental_div_mod;
use vstd::arithmetic::div_mod::lemma_fundamental_div_mod_converse;
use vstd::arithmetic::div_mod::lemma_mod_bound;
use vstd::arithmetic::div_mod::lemma_mod_multiples_vanish;
use vstd::arithmetic::div_mod::lemma_mod_multiples_basic;
use vstd::arithmetic::div_mod::lemma_div_multiples_vanish;
use vstd::arithmetic::div_mod::lemma_div_multiples_vanish_fancy;
use vstd::arithmetic::div_mod::lemma_div_pos_is_pos;
use vstd::arithmetic::div_mod::lemma_basic_div;
use crate::mat4::spec_mat_mean;
use crate::mat4::spec_lerp_entry;

/// One keyframe: a timestamp and the pose sampled at it.  Evaluation
/// indexes tracks by computed position, not by the stored timestamp.
pub type TrackSample = (i64, Mat4);

/// Why a skeleton or its tracks were rejected at construction.
#[derive(Clone, Copy, PartialEq, Eq, Structural, Debug)]
pub enum LoadError {
    /// The joint list is too long, a joint sits at the wrong position,
    /// a parent comes at or after its child, or a joint matrix entry is
    /// out of range.
    InvalidSkeleton,
    /// An animation track holds a pose matrix entry that is out of range.
    InvalidTrack,
}

/// Why evaluation failed: some matrix product left the representable
/// entry range.
#[derive(Clone, Copy, PartialEq, Eq, Structural, Debug)]
pub enum SkinningError {
    Overflow,
}

/// Every pose matrix of every track is bounded.
pub open spec fn tracks_wf(anims: Seq<Vec<TrackSample>>) -> bool {
    forall|i: int, j: int|
        0 <= i < anims.len() && 0 <= j < anims[i]@.len() ==> mat_bounded(
            (#[trigger] anims[i]@[j]).1@,
        )
}

/// An animated entity: world placement, a skeleton in topological order,
/// and one (possibly empty or missing) animation track per joint index.
#[derive(Debug)]
pub struct GameObject {
    /// World placement, moved by translate commands.
    pub position: Vec3,
    /// The skeleton, immutable after load.
    pub joints: Vec<Joint>,
    /// Track list indexed by joint index, immutable after load.
    pub animations: Vec<Vec<TrackSample>>,
}

impl GameObject {
    /// The structural invariant the evaluator relies on.
    pub open spec fn wf(self) -> bool {
        &&& skeleton_wf(self.joints@)
        &&& tracks_wf(self.animations@)
    }

    /// Joint `i` has a non-empty animation track.
    pub open spec fn has_track(self, i: int) -> bool {
        &&& 0 <= i < self.animations@.len()
        &&& self.animations@[i]@.len() > 0
    }

    /// Length of joint `i`'s track.
    pub open spec fn track_len(self, i: int) -> int {
        self.animations@[i]@.len() as int
    }

    /// Pose of joint `i`'s track sampled at `time`: the two neighbouring
    /// keyframes blended by the fractional position.  Joints without a
    /// usable track pose at their bind transform.
    pub open spec fn pose_at_time(self, i: int, time: int) -> Seq<int> {
        if self.has_track(i) {
            let tr = self.animations@[i]@;
            let len = tr.len() as int;
            spec_mat_lerp(
                tr[spec_index1(time, len)].1@,
                tr[spec_index2(time, len)].1@,
                spec_blend(time, len),
            )
        } else {
            self.joints@[i].bind@
        }
    }

    /// Pose of joint `i` at the discrete frame `frame`: one keyframe
    /// selected by `frame mod len`, with no blending.
    pub open spec fn pose_at_frame(self, i: int, frame: int) -> Seq<int> {
        if self.has_track(i) {
            let tr = self.animations@[i]@;
            tr[frame % (tr.len() as int)].1@
        } else {
            self.joints@[i].bind@
        }
    }

    /// Accumulated world transform of joint `i` at `time`: the parent's
    /// world transform (identity for roots) times this joint's pose.
    pub open spec fn world_at_time(self, i: int, time: int) -> Seq<int>
        decreases i,
    {
        let p = self.joints@[i].parent_index;
        if p == ROOT_PARENT || p as int >= i {
            spec_mat_mul(spec_identity(), self.pose_at_time(i, time))
        } else {
            spec_mat_mul(self.world_at_time(p as int, time), self.pose_at_time(i, time))
        }
    }

    /// Accumulated world transform of joint `i` at frame `frame`.
    pub open spec fn world_at_frame(self, i: int, frame: int) -> Seq<int>
        decreases i,
    {
        let p = self.joints@[i].parent_index;
        if p == ROOT_PARENT || p as int >= i {
            spec_mat_mul(spec_identity(), self.pose_at_frame(i, frame))
        } else {
            spec_mat_mul(self.world_at_frame(p as int, frame), self.pose_at_frame(i, frame))
        }
    }

    /// The world transform joint `i` inherits from its parent: the
    /// identity for roots, otherwise the parent's accumulated transform.
    pub open spec fn parent_world_at_time(self, i: int, time: int) -> Seq<int> {
        let p = self.joints@[i].parent_index;
        if p == ROOT_PARENT || p as int >= i {
            spec_identity()
        } else {
            self.world_at_time(p as int, time)
        }
    }

    /// As [`Self::parent_world_at_time`], for discrete-frame evaluation.
    pub open spec fn parent_world_at_frame(self, i: int, frame: int) -> Seq<int> {
        let p = self.joints@[i].parent_index;
        if p == ROOT_PARENT || p as int >= i {
            spec_identity()
        } else {
            self.world_at_frame(p as int, frame)
        }
    }

    /// Exported skinning matrix of joint `i` at `time`: the accumulated
    /// world transform post-multiplied by this joint's inverse bind pose.
    /// A joint without a usable track exports its accumulated bind chain
    /// verbatim, with no inverse-bind factor.
    pub open spec fn skin_at_time(self, i: int, time: int) -> Seq<int> {
        if self.has_track(i) {
            spec_mat_mul(self.world_at_time(i, time), self.joints@[i].inverse_bind@)
        } else {
            self.world_at_time(i, time)
        }
    }

    /// As [`Self::skin_at_time`], for discrete-frame evaluation.
    pub open spec fn skin_at_frame(self, i: int, frame: int) -> Seq<int> {
        if self.has_track(i) {
            spec_mat_mul(self.world_at_frame(i, frame), self.joints@[i].inverse_bind@)
        } else {
            self.world_at_frame(i, frame)
        }
    }

    /// The full time-based evaluation result: one matrix per joint in
    /// index order, or a single identity matrix for an empty skeleton.
    pub open spec fn spec_skinning(self, time: int) -> Seq<Seq<int>> {
        if self.joints@.len() == 0 {
            seq![spec_identity()]
        } else {
            Seq::new(self.joints@.len(), |i: int| self.skin_at_time(i, time))
        }
    }

    /// The full discrete-frame evaluation result.
    pub open spec fn spec_skinning_at(self, frame: int) -> Seq<Seq<int>> {
        if self.joints@.len() == 0 {
            seq![spec_identity()]
        } else {
            Seq::new(self.joints@.len(), |i: int| self.skin_at_frame(i, frame))
        }
    }

    /// Joint `i`'s transforms stay inside the representable entry range
    /// at `time`.
    pub open spec fn eval_fits_at(self, i: int, time: int) -> bool {
        &&& mat_bounded(self.world_at_time(i, time))
        &&& (self.has_track(i) ==> mat_bounded(self.skin_at_time(i, time)))
    }

    /// Time-based evaluation stays inside the representable entry range.
    pub open spec fn eval_fits(self, time: int) -> bool {
        forall|i: int| 0 <= i < self.joints@.len() ==> self.eval_fits_at(i, time)
    }

    /// As [`Self::eval_fits_at`], for discrete-frame evaluation.
    pub open spec fn frame_fits_at(self, i: int, frame: int) -> bool {
        &&& mat_bounded(self.world_at_frame(i, frame))
        &&& (self.has_track(i) ==> mat_bounded(self.skin_at_frame(i, frame)))
    }

    /// Discrete-frame evaluation stays inside the representable range.
    pub open spec fn frame_fits(self, frame: int) -> bool {
        forall|i: int| 0 <= i < self.joints@.len() ==> self.frame_fits_at(i, frame)
    }
}

impl GameObject {
    /// Builds an animated entity, validating the structural invariant
    /// the evaluator relies on: at most 255 joints, each joint at its
    /// own index with its parent strictly before it, and every matrix
    /// entry within the representable range.
    pub fn new(position: Vec3, joints: Vec<Joint>, animations: Vec<Vec<TrackSample>>) -> (r:
        Result<GameObject, LoadError>)
        ensures
            match r {
                Ok(o) => {
                    &&& o.wf()
                    &&& o.position == position
                    &&& o.joints@ == joints@
                    &&& o.animations@ == animations@
                },
                Err(LoadError::InvalidSkeleton) => !skeleton_wf(joints@),
                Err(LoadError::InvalidTrack) => skeleton_wf(joints@) && !tracks_wf(animations@),
            },
    {
        if joints.len() > 255 {
            return Err(LoadError::InvalidSkeleton);
        }
        let mut i: usize = 0;
        while i < joints.len()
            invariant
                i <= joints@.len() <= 255,
                forall|k: int| 0 <= k < i ==> (#[trigger] joints@[k]).wf_at(k),
            decreases joints@.len() - i,
        {
            let j = joints[i];
            if j.joint_index as usize != i {
                return Err(LoadError::InvalidSkeleton);
            }
            if j.parent_index != ROOT_PARENT && j.parent_index as usize >= i {
                return Err(LoadError::InvalidSkeleton);
            }
            if !j.bind.in_limit() {
                return Err(LoadError::InvalidSkeleton);
            }
            if !j.inverse_bind.in_limit() {
                return Err(LoadError::InvalidSkeleton);
            }
            i += 1;
        }
        let mut a: usize = 0;
        while a < animations.len()
            invariant
                skeleton_wf(joints@),
                a <= animations@.len(),
                forall|x: int, y: int|
                    0 <= x < a && 0 <= y < animations@[x]@.len() ==> mat_bounded(
                        (#[trigger] animations@[x]@[y]).1@,
                    ),
            decreases animations@.len() - a,
        {
            let mut s: usize = 0;
            while s < animations[a].len()
                invariant
                    skeleton_wf(joints@),
                    a < animations@.len(),
                    s <= animations@[a as int]@.len(),
                    forall|y: int|
                        0 <= y < s ==> mat_bounded((#[trigger] animations@[a as int]@[y]).1@),
                decreases animations@[a as int]@.len() - s,
            {
                if !animations[a][s].1.in_limit() {
                    proof {
                        assert(!mat_bounded(animations@[a as int]@[s as int].1@));
                    }
                    return Err(LoadError::InvalidTrack);
                }
                s += 1;
            }
            a += 1;
        }
        Ok(GameObject { position, joints, animations })
    }

    /// Moves the entity by `v` (component-wise saturating addition);
    /// the skeleton and the tracks are untouched.
    pub fn translate(&mut self, v: Vec3)
        ensures
            final(self).position == old(self).position.spec_plus(v),
            final(self).joints == old(self).joints,
            final(self).animations == old(self).animations,
    {
        self.position = self.position.plus(v);
    }

    /// Discrete-frame pose evaluation: one skinning matrix per joint in
    /// index order (a single identity matrix for an empty skeleton),
    /// selecting keyframe `frame mod len` for each animated joint.
    /// Fails with `Overflow` exactly when some transform leaves the
    /// representable entry range.
    pub fn get_skinning_at(&self, frame: usize) -> (r: Result<Vec<Mat4>, SkinningError>)
        requires
            self.wf(),
        ensures
            match r {
                Ok(v) => {
                    &&& self.frame_fits(frame as int)
                    &&& v@.map_values(|m: Mat4| m@) == self.spec_skinning_at(frame as int)
                },
                Err(e) => !self.frame_fits(frame as int) && e == SkinningError::Overflow,
            },
    {
        let n = self.joints.len();
        if n == 0 {
            let mut out: Vec<Mat4> = Vec::new();
            out.push(Mat4::identity());
            proof {
                assert(out@.map_values(|m: Mat4| m@) =~~= self.spec_skinning_at(frame as int));
            }
            return Ok(out);
        }
        let mut scratch: Vec<Mat4> = Vec::new();
        let mut out: Vec<Mat4> = Vec::new();
        let mut i: usize = 0;
        while i < n
            invariant
                self.wf(),
                n == self.joints@.len(),
                0 < n <= 255,
                i <= n,
                scratch@.len() == i,
                out@.len() == i,
                forall|k: int|
                    0 <= k < i ==> (#[trigger] scratch@[k])@ == self.world_at_frame(
                        k,
                        frame as int,
                    ) && mat_bounded(scratch@[k]@),
                forall|k: int|
                    0 <= k < i ==> (#[trigger] out@[k])@ == self.skin_at_frame(k, frame as int),
                forall|k: int| 0 <= k < i ==> self.frame_fits_at(k, frame as int),
            decreases n - i,
        {
            let ghost gi: int = i as int;
            let ghost gframe: int = frame as int;
            let j = self.joints[i];
            proof {
                assert(self.joints@[gi].wf_at(gi));
            }
            let parent_world: Mat4 = if j.parent_index == ROOT_PARENT {
                Mat4::identity()
            } else {
                scratch[j.parent_index as usize]
            };
            proof {
                assert(parent_world@ == self.parent_world_at_frame(gi, gframe));
            }
            let animated: bool = i < self.animations.len() && self.animations[i].len() > 0;
            let pose: Mat4 = if animated {
                let tr = &self.animations[i];
                let len = tr.len();
                let idx: usize = frame % len;
                tr[idx].1
            } else {
                j.bind
            };
            proof {
                assert(animated == self.has_track(gi));
                assert(pose@ == self.pose_at_frame(gi, gframe));
                if animated {
                    let idx = gframe % self.animations@[gi]@.len() as int;
                    assert(mat_bounded(self.animations@[gi]@[idx].1@));
                }
                assert(mat_bounded(pose@));
                assert(self.world_at_frame(gi, gframe) == spec_mat_mul(parent_world@, pose@));
            }
            let world: Mat4 = match parent_world.mul_checked(&pose) {
                Some(w) => w,
                None => {
                    proof {
                        assert(!self.frame_fits_at(gi, gframe));
                        assert(!self.frame_fits(gframe));
                    }
                    return Err(SkinningError::Overflow);
                },
            };
            scratch.push(world);
            let skin: Mat4 = if animated {
                match world.mul_checked(&j.inverse_bind) {
                    Some(s) => s,
                    None => {
                        proof {
                            assert(!self.frame_fits_at(gi, gframe));
                            assert(!self.frame_fits(gframe));
                        }
                        return Err(SkinningError::Overflow);
                    },
                }
            } else {
                world
            };
            out.push(skin);
            proof {
                assert(skin@ == self.skin_at_frame(gi, gframe));
                assert(self.frame_fits_at(gi, gframe));
            }
            i += 1;
        }
        proof {
            assert(out@.map_values(|m: Mat4| m@) =~~= self.spec_skinning_at(frame as int));
        }
        Ok(out)
    }
    /// Time-based pose evaluation: one skinning matrix per joint in
    /// index order (a single identity matrix for an empty skeleton).
    /// `time` is elapsed fixed-point ticks; it wraps modulo the cycle
    /// length, and each animated joint blends the two keyframes around
    /// the scaled position.  Fails with `Overflow` exactly when some
    /// transform leaves the representable entry range.
    pub fn get_skinning(&self, time: i64) -> (r: Result<Vec<Mat4>, SkinningError>)
        requires
            self.wf(),
            time >= 0,
        ensures
            match r {
                Ok(v) => {
                    &&& self.eval_fits(time as int)
                    &&& v@.map_values(|m: Mat4| m@) == self.spec_skinning(time as int)
                },
                Err(e) => !self.eval_fits(time as int) && e == SkinningError::Overflow,
            },
    {
        let n = self.joints.len();
        if n == 0 {
            let mut out: Vec<Mat4> = Vec::new();
            out.push(Mat4::identity());
            proof {
                assert(out@.map_values(|m: Mat4| m@) =~~= self.spec_skinning(time as int));
            }
            return Ok(out);
        }
        let rem: u64 = (time as u64) % (CYCLE_TICKS as u64);
        let mut scratch: Vec<Mat4> = Vec::new();
        let mut out: Vec<Mat4> = Vec::new();
        let mut i: usize = 0;
        while i < n
            invariant
                self.wf(),
                time >= 0,
                rem as int == time as int % (CYCLE_TICKS as int),
                n == self.joints@.len(),
                0 < n <= 255,
                i <= n,
                scratch@.len() == i,
                out@.len() == i,
                forall|k: int|
                    0 <= k < i ==> (#[trigger] scratch@[k])@ == self.world_at_time(
                        k,
                        time as int,
                    ) && mat_bounded(scratch@[k]@),
                forall|k: int|
                    0 <= k < i ==> (#[trigger] out@[k])@ == self.skin_at_time(k, time as int),
                forall|k: int| 0 <= k < i ==> self.eval_fits_at(k, time as int),
            decreases n - i,
        {
            let ghost gi: int = i as int;
            let ghost gtime: int = time as int;
            let j = self.joints[i];
            proof {
                assert(self.joints@[gi].wf_at(gi));
            }
            let parent_world: Mat4 = if j.parent_index == ROOT_PARENT {
                Mat4::identity()
            } else {
                scratch[j.parent_index as usize]
            };
            proof {
                assert(parent_world@ == self.parent_world_at_time(gi, gtime));
            }
            let animated: bool = i < self.animations.len() && self.animations[i].len() > 0;
            let pose: Mat4 = if animated {
                let tr = &self.animations[i];
                let len = tr.len();
                proof {
                    lemma_mul_upper_bound(rem as int, CYCLE_TICKS as int - 1, len as int,
                        u64::MAX as int);
                    lemma_mul_nonnegative(rem as int, len as int);
                    lemma_mul_strict_inequality(rem as int, CYCLE_TICKS as int, len as int);
                }
                let pos: u128 = (rem as u128) * (len as u128);
                proof {
                    lemma_multiply_divide_lt(pos as int, CYCLE_TICKS as int, len as int);
                }
                let idx1: usize = (pos / (CYCLE_TICKS as u128)) as usize;
                let rem2: u128 = pos % (CYCLE_TICKS as u128);
                let blend: i64 = (rem2 / 4) as i64;
                let ceiled: usize = if rem2 == 0 {
                    idx1
                } else {
                    idx1 + 1
                };
                let idx2: usize = if ceiled == len {
                    0
                } else {
                    ceiled
                };
                proof {
                    assert(idx1 as int == spec_index1(gtime, len as int));
                    assert(idx2 as int == spec_index2(gtime, len as int));
                    assert(blend as int == spec_blend(gtime, len as int));
                    assert(0 <= blend as int <= crate::fixed::FP_ONE as int);
                    assert(mat_bounded(self.animations@[gi]@[idx1 as int].1@));
                    assert(mat_bounded(self.animations@[gi]@[idx2 as int].1@));
                }
                let p1: Mat4 = tr[idx1].1;
                let p2: Mat4 = tr[idx2].1;
                let pose = p1.lerp(&p2, blend);
                proof {
                    lemma_lerp_bounded(p1@, p2@, blend as int);
                }
                pose
            } else {
                j.bind
            };
            proof {
                assert(animated == self.has_track(gi));
                assert(pose@ == self.pose_at_time(gi, gtime));
                assert(mat_bounded(pose@));
                assert(self.world_at_time(gi, gtime) == spec_mat_mul(parent_world@, pose@));
            }
            let world: Mat4 = match parent_world.mul_checked(&pose) {
                Some(w) => w,
                None => {
                    proof {
                        assert(!self.eval_fits_at(gi, gtime));
                        assert(!self.eval_fits(gtime));
                    }
                    return Err(SkinningError::Overflow);
                },
            };
            scratch.push(world);
            let skin: Mat4 = if animated {
                match world.mul_checked(&j.inverse_bind) {
                    Some(s) => s,
                    None => {
                        proof {
                            assert(!self.eval_fits_at(gi, gtime));
                            assert(!self.eval_fits(gtime));
                        }
                        return Err(SkinningError::Overflow);
                    },
                }
            } else {
                world
            };
            out.push(skin);
            proof {
                assert(skin@ == self.skin_at_time(gi, gtime));
                assert(self.eval_fits_at(gi, gtime));
            }
            i += 1;
        }
        proof {
            assert(out@.map_values(|m: Mat4| m@) =~~= self.spec_skinning(time as int));
        }
        Ok(out)
    }
}

/// Position of `time` within joint-track space: the offset into the
/// current cycle, scaled by the track length.
pub open spec fn spec_frame_pos(time: int, len: int) -> int {
    (time % (CYCLE_TICKS as int)) * len
}

/// Index of the keyframe at or before `time`.
pub open spec fn spec_index1(time: int, len: int) -> int {
    spec_frame_pos(time, len) / (CYCLE_TICKS as int)
}

/// Index of the keyframe after `time`, wrapping to the first keyframe
/// past the end of the track.
pub open spec fn spec_index2(time: int, len: int) -> int {
    let c = if spec_frame_pos(time, len) % (CYCLE_TICKS as int) == 0 {
        spec_index1(time, len)
    } else {
        spec_index1(time, len) + 1
    };
    if c == len {
        0
    } else {
        c
    }
}

/// Fixed-point blend factor between the two neighbouring keyframes.
pub open spec fn spec_blend(time: int, len: int) -> int {
    (spec_frame_pos(time, len) % (CYCLE_TICKS as int)) / 4
}

/// An empty skeleton always evaluates to exactly one identity matrix.
pub proof fn lemma_empty_skeleton_identity(o: GameObject, time: int, frame: int)
    requires
        o.joints@.len() == 0,
    ensures
        o.spec_skinning(time) == seq![spec_identity()],
        o.spec_skinning_at(frame) == seq![spec_identity()],
{
}

/// A joint without a usable animation track exports its accumulated
/// bind chain: the parent's world transform times its own bind pose,
/// with no inverse-bind factor.
pub proof fn lemma_unanimated_joint(o: GameObject, i: int, time: int)
    requires
        0 <= i < o.joints@.len(),
        !o.has_track(i),
    ensures
        o.skin_at_time(i, time) == spec_mat_mul(
            o.parent_world_at_time(i, time),
            o.joints@[i].bind@,
        ),
{
}

/// Half the difference plus the first endpoint is the floor-mean: a
/// blend factor of exactly one half turns the interpolation formula
/// into the component-wise arithmetic mean (rounded down).
proof fn lemma_lerp_half(a: int, b: int)
    ensures
        spec_lerp_entry(a, b, 32768) == (a + b) / 2,
{
    let d = b - a;
    lemma_fundamental_div_mod(d, 2);
    lemma_mod_bound(d, 2);
    let e = d / 2;
    let f = d % 2;
    assert(d * 32768 == 65536 * e + 32768 * f) by (nonlinear_arith)
        requires
            d == 2 * e + f,
    ;
    assert(0 <= 32768 * f < 65536) by (nonlinear_arith)
        requires
            0 <= f < 2,
    ;
    lemma_div_multiples_vanish_fancy(e, 32768 * f, 65536);
    lemma_div_multiples_vanish_fancy(a + e, f, 2);
    assert(a + b == 2 * (a + e) + f);
}

/// Interpolation midpoint: at a time whose position within the cycle
/// falls exactly halfway between two neighbouring keyframes, the
/// blended pose is the component-wise arithmetic mean (rounded down)
/// of the two sampled pose matrices.
pub proof fn lemma_midpoint_mean(o: GameObject, i: int, time: int)
    requires
        o.has_track(i),
        spec_frame_pos(time, o.track_len(i)) % (CYCLE_TICKS as int) == (CYCLE_TICKS as int) / 2,
    ensures
        o.pose_at_time(i, time) == spec_mat_mean(
            o.animations@[i]@[spec_index1(time, o.track_len(i))].1@,
            o.animations@[i]@[spec_index2(time, o.track_len(i))].1@,
        ),
{
    let len = o.track_len(i);
    let a = o.animations@[i]@[spec_index1(time, len)].1@;
    let b = o.animations@[i]@[spec_index2(time, len)].1@;
    assert(spec_blend(time, len) == 32768);
    assert forall|k: int| 0 <= k < 16 implies spec_mat_lerp(a, b, 32768)[k] == spec_mat_mean(
        a,
        b,
    )[k] by {
        lemma_lerp_half(a[k], b[k]);
    }
    assert(o.pose_at_time(i, time) =~= spec_mat_mean(a, b));
}

/// Keyframe boundaries: at an elapsed time of exactly `k` sample
/// periods (`time == k * CYCLE_TICKS / len`, with the division exact),
/// the evaluated joint transform is precisely `parent_world *
/// pose[k mod len] * inverse_bind`, with no interpolation residue.
pub proof fn lemma_sample_boundary(o: GameObject, i: int, k: int, time: int)
    requires
        0 <= i < o.joints@.len(),
        o.has_track(i),
        0 <= k,
        (k * (CYCLE_TICKS as int)) % o.track_len(i) == 0,
        time == (k * (CYCLE_TICKS as int)) / o.track_len(i),
    ensures
        o.skin_at_time(i, time) == spec_mat_mul(
            spec_mat_mul(
                o.parent_world_at_time(i, time),
                o.animations@[i]@[k % o.track_len(i)].1@,
            ),
            o.joints@[i].inverse_bind@,
        ),
{
    let c = CYCLE_TICKS as int;
    let len = o.track_len(i);
    let q = k / len;
    let r = k % len;
    lemma_fundamental_div_mod(k, len);
    lemma_mod_bound(k, len);
    let kc = k * c;
    assert(kc == len * (q * c) + r * c) by (nonlinear_arith)
        requires
            kc == k * c,
            k == len * q + r,
    ;
    lemma_mod_multiples_vanish(q * c, r * c, len);
    let rcq = (r * c) / len;
    lemma_fundamental_div_mod(r * c, len);
    assert(r * c == len * rcq);
    assert(kc == len * (q * c + rcq) + 0) by (nonlinear_arith)
        requires
            kc == len * (q * c) + r * c,
            r * c == len * rcq,
    ;
    lemma_fundamental_div_mod_converse(kc, len, q * c + rcq, 0);
    assert(time == q * c + rcq);
    lemma_mul_nonnegative(r, c);
    lemma_div_pos_is_pos(r * c, len);
    lemma_mul_strict_inequality(r, len, c);
    lemma_multiply_divide_lt(r * c, len, c);
    assert(0 <= rcq < c);
    assert(time == c * q + rcq) by (nonlinear_arith)
        requires
            time == q * c + rcq,
    ;
    lemma_fundamental_div_mod_converse(time, c, q, rcq);
    assert(time % c == rcq);
    assert(spec_frame_pos(time, len) == rcq * len);
    assert(rcq * len == c * r) by (nonlinear_arith)
        requires
            r * c == len * rcq,
    ;
    lemma_div_multiples_vanish(r, c);
    assert(spec_index1(time, len) == r);
    lemma_mod_multiples_basic(r, c);
    assert(spec_frame_pos(time, len) % c == 0) by {
        assert(rcq * len == r * c);
    }
    lemma_basic_div(0, 4);
    assert(spec_blend(time, len) == 0);
    assert(spec_index2(time, len) == r);
    let p = o.animations@[i]@[r].1@;
    assert forall|e: int| 0 <= e < 16 implies spec_mat_lerp(p, p, 0)[e] == p[e] by {
        lemma_basic_div(0, 65536);
        assert((p[e] - p[e]) * 0 == 0);
    }
    assert(o.pose_at_time(i, time) =~= p);
}

/// The track pose is unchanged when the elapsed time grows by one full
/// cycle.
proof fn lemma_pose_time_wrap(o: GameObject, i: int, time: int)
    ensures
        o.pose_at_time(i, time + CYCLE_TICKS as int) == o.pose_at_time(i, time),
{
    broadcast use vstd::arithmetic::div_mod::lemma_mod_add_multiples_vanish;

    assert(time + CYCLE_TICKS as int == CYCLE_TICKS as int + time);
    assert((CYCLE_TICKS as int + time) % (CYCLE_TICKS as int) == time % (CYCLE_TICKS as int));
}

/// The accumulated world transform is unchanged when the elapsed time
/// grows by one full cycle.
proof fn lemma_world_time_wrap(o: GameObject, i: int, time: int)
    ensures
        o.world_at_time(i, time + CYCLE_TICKS as int) == o.world_at_time(i, time),
    decreases i,
{
    lemma_pose_time_wrap(o, i, time);
    let p = o.joints@[i].parent_index;
    if !(p == ROOT_PARENT || p as int >= i) {
        lemma_world_time_wrap(o, p as int, time);
    }
}

/// Time wraps: evaluating one full cycle later yields the identical
/// output, for every skeleton and every time.
pub proof fn lemma_time_wrap(o: GameObject, time: int)
    ensures
        o.spec_skinning(time + CYCLE_TICKS as int) == o.spec_skinning(time),
{
    let c = CYCLE_TICKS as int;
    assert forall|i: int| 0 <= i < o.joints@.len() implies o.skin_at_time(i, time + c)
        == o.skin_at_time(i, time) by {
        lemma_world_time_wrap(o, i, time);
    }
    assert(o.spec_skinning(time + c) =~~= o.spec_skinning(time));
}

/// The selected keyframe is unchanged when the frame index grows by the
/// track length `len`, provided every non-empty track has that length.
proof fn lemma_world_frame_wrap(o: GameObject, i: int, frame: int, len: int)
    requires
        0 < len,
        forall|k: int| o.has_track(k) ==> o.track_len(k) == len,
    ensures
        o.world_at_frame(i, frame + len) == o.world_at_frame(i, frame),
    decreases i,
{
    broadcast use vstd::arithmetic::div_mod::lemma_mod_add_multiples_vanish;

    if o.has_track(i) {
        assert(frame + len == len + frame);
        assert((len + frame) % len == frame % len);
    }
    let p = o.joints@[i].parent_index;
    if !(p == ROOT_PARENT || p as int >= i) {
        lemma_world_frame_wrap(o, p as int, frame, len);
    }
}

/// Discrete frames wrap: when every non-empty track has length `len`,
/// evaluating at `frame + len` yields the identical output.
pub proof fn lemma_frame_wrap(o: GameObject, frame: int, len: int)
    requires
        0 < len,
        forall|k: int| o.has_track(k) ==> o.track_len(k) == len,
    ensures
        o.spec_skinning_at(frame + len) == o.spec_skinning_at(frame),
{
    assert forall|i: int| 0 <= i < o.joints@.len() implies o.skin_at_frame(i, frame + len)
        == o.skin_at_frame(i, frame) by {
        lemma_world_frame_wrap(o, i, frame, len);
    }
    assert(o.spec_skinning_at(frame + len) =~~= o.spec_skinning_at(frame));
}

} // verus!
