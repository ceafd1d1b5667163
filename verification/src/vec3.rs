//! Fixed-point 3-component vectors for world placement and camera motion.

use vstd::prelude::*;

verus! {

/// Saturating addition on `i64`: the exact sum, pinned to the
/// representable range at the extremes.
pub open spec fn spec_sat_add(a: int, b: int) -> int {
    if a + b > i64::MAX {
        i64::MAX as int
    } else if a + b < i64::MIN {
        i64::MIN as int
    } else {
        a + b
    }
}

/// Saturating fixed-point addition.
pub fn sat_add(a: i64, b: i64) -> (r: i64)
    ensures
        r as int == spec_sat_add(a as int, b as int),
{
    let s: i128 = (a as i128) + (b as i128);
    if s > i64::MAX as i128 {
        i64::MAX
    } else if s < i64::MIN as i128 {
        i64::MIN
    } else {
        s as i64
    }
}

/// Saturating subtraction on `i64`.
pub open spec fn spec_sat_sub(a: int, b: int) -> int {
    if a - b > i64::MAX {
        i64::MAX as int
    } else if a - b < i64::MIN {
        i64::MIN as int
    } else {
        a - b
    }
}

/// Saturating fixed-point subtraction.
pub fn sat_sub(a: i64, b: i64) -> (r: i64)
    ensures
        r as int == spec_sat_sub(a as int, b as int),
{
    let s: i128 = (a as i128) - (b as i128);
    if s > i64::MAX as i128 {
        i64::MAX
    } else if s < i64::MIN as i128 {
        i64::MIN
    } else {
        s as i64
    }
}

/// A point or direction with 48.16 fixed-point components.
#[derive(Clone, Copy, PartialEq, Eq, Structural, Debug)]
pub struct Vec3 {
    pub x: i64,
    pub y: i64,
    pub z: i64,
}

impl Vec3 {
    /// The component-wise saturating sum `self + o`.
    pub open spec fn spec_plus(self, o: Vec3) -> Vec3 {
        Vec3 {
            x: spec_sat_add(self.x as int, o.x as int) as i64,
            y: spec_sat_add(self.y as int, o.y as int) as i64,
            z: spec_sat_add(self.z as int, o.z as int) as i64,
        }
    }

    /// Builds a vector from its three components.
    pub fn new(x: i64, y: i64, z: i64) -> (r: Vec3)
        ensures
            r == (Vec3 { x, y, z }),
    {
        Vec3 { x, y, z }
    }

    /// The component-wise saturating difference `self - o`.
    pub open spec fn spec_minus(self, o: Vec3) -> Vec3 {
        Vec3 {
            x: spec_sat_sub(self.x as int, o.x as int) as i64,
            y: spec_sat_sub(self.y as int, o.y as int) as i64,
            z: spec_sat_sub(self.z as int, o.z as int) as i64,
        }
    }

    /// Component-wise saturating subtraction.
    pub fn minus(self, o: Vec3) -> (r: Vec3)
        ensures
            r == self.spec_minus(o),
    {
        Vec3 {
            x: sat_sub(self.x, o.x),
            y: sat_sub(self.y, o.y),
            z: sat_sub(self.z, o.z),
        }
    }

    /// Component-wise saturating addition.
    pub fn plus(self, o: Vec3) -> (r: Vec3)
        ensures
            r == self.spec_plus(o),
    {
        Vec3 {
            x: sat_add(self.x, o.x),
            y: sat_add(self.y, o.y),
            z: sat_add(self.z, o.z),
        }
    }
}

} // verus!
