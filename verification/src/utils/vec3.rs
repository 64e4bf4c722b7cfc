//! Componentwise helpers on three-component vectors.

use vstd::prelude::*;
use crate::types::{Vec3, Vec4};
use crate::utils::scalar::{almost_eq, spec_almost_eq};

verus! {

/// Extra operations on three-component vectors.
pub trait Vector3fExt {
    /// Componentwise tolerance comparison, as a spec.
    spec fn almost_eq_spec(&self, v: &Vec3) -> bool;

    /// The three-component prefix of a homogeneous four-component vector.
    fn from_vec4f(v: Vec4) -> (r: Vec3)
        ensures
            r.x == v.x && r.y == v.y && r.z == v.z,
    ;

    /// Componentwise tolerance comparison.
    fn almost_eq(&self, v: &Vec3) -> (r: bool)
        ensures
            r == self.almost_eq_spec(v),
    ;
}

impl Vector3fExt for Vec3 {
    open spec fn almost_eq_spec(&self, v: &Vec3) -> bool {
        spec_almost_eq(self.x as int, v.x as int) && spec_almost_eq(self.y as int, v.y as int)
            && spec_almost_eq(self.z as int, v.z as int)
    }

    fn from_vec4f(v: Vec4) -> (r: Vec3) {
        Vec3 { x: v.x, y: v.y, z: v.z }
    }

    fn almost_eq(&self, v: &Vec3) -> (r: bool) {
        almost_eq(self.x, v.x) && almost_eq(self.y, v.y) && almost_eq(self.z, v.z)
    }
}

/// Componentwise tolerance comparison of two points.
pub fn pt3f_almost_eq(a: &Vec3, b: &Vec3) -> (r: bool)
    ensures
        r == a.almost_eq_spec(b),
{
    a.almost_eq(b)
}

} // verus!
