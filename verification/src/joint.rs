//! Joints: the bones of a skeleton.

use vstd::prelude::*;

verus! {

use crate::mat4::{Mat4, mat_bounded};

/// Sentinel parent index marking a root joint.
pub const ROOT_PARENT: u8 = 255;

/// One bone of a skeleton: its place in the flat joint array, a link to
/// its parent, and its bind-pose and inverse-bind-pose transforms.
#[derive(Clone, Copy, Debug)]
pub struct Joint {
    /// Position of this joint in the skeleton's flat array; also the key
    /// into the per-skeleton animation track list.
    pub joint_index: u8,
    /// Index of the parent joint, or [`ROOT_PARENT`] for a root.
    pub parent_index: u8,
    /// Local bind-pose transform.
    pub bind: Mat4,
    /// Inverse of the joint's world bind transform.
    pub inverse_bind: Mat4,
}

impl Joint {
    /// A joint stored at position `i` must carry its own index, point at
    /// a strictly earlier joint (or at no joint), and hold matrices whose
    /// entries admit further products.
    pub open spec fn wf_at(self, i: int) -> bool {
        &&& self.joint_index as int == i
        &&& (self.parent_index == ROOT_PARENT || (self.parent_index as int) < i)
        &&& mat_bounded(self.bind@)
        &&& mat_bounded(self.inverse_bind@)
    }
}

/// Joints are listed in topological order: each joint sits at its own
/// index and its parent, if any, comes strictly before it.  At most 255
/// joints fit, since index 255 is the root sentinel.
pub open spec fn skeleton_wf(joints: Seq<Joint>) -> bool {
    &&& joints.len() <= 255
    &&& forall|i: int| 0 <= i < joints.len() ==> (#[trigger] joints[i]).wf_at(i)
}

} // verus!
