//! A ray: origin, direction and a time stamp (for motion blur), evaluable at
//! a parameter t as origin + t * direction.
use vstd::prelude::*;
use crate::fixed::iabs;
use crate::vec3::{sadd, sscale, v, V3i, Vec3};

verus! {

#[derive(Clone, Copy, PartialEq, Eq, Structural, Debug)]
pub struct Ray {
    pub origin: Vec3,
    pub direction: Vec3,
    pub time: i128,
}

/// Where the ray is at parameter t, in fixed-point arithmetic.
pub open spec fn spoint_at(origin: V3i, direction: V3i, t: int) -> V3i {
    sadd(origin, sscale(direction, t))
}

impl Ray {
    pub fn new(origin: Vec3, direction: Vec3, time: i128) -> (r: Ray)
        ensures
            r.origin == origin && r.direction == direction && r.time == time,
    {
        Ray { origin, direction, time }
    }

    pub fn point_at_parameter(&self, t: i128) -> (r: Vec3)
        requires
            iabs(self.direction.x as int) * iabs(t as int) <= i128::MAX,
            iabs(self.direction.y as int) * iabs(t as int) <= i128::MAX,
            iabs(self.direction.z as int) * iabs(t as int) <= i128::MAX,
            i128::MIN <= self.origin.x + crate::fixed::fmul_s(self.direction.x as int, t as int)
                <= i128::MAX,
            i128::MIN <= self.origin.y + crate::fixed::fmul_s(self.direction.y as int, t as int)
                <= i128::MAX,
            i128::MIN <= self.origin.z + crate::fixed::fmul_s(self.direction.z as int, t as int)
                <= i128::MAX,
        ensures
            v(r) == spoint_at(v(self.origin), v(self.direction), t as int),
    {
        let d = self.direction.scale(t);
        self.origin.add(&d)
    }
}

} // verus!
