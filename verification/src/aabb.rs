//! Axis-aligned bounding boxes: the surrounding (minimal enclosing) box of
//! two boxes, and the slab test a BVH node runs before descending.
use vstd::prelude::*;
use crate::fixed::{fdiv_s, iabs, FX_ONE};
use crate::vec3::{smax3, smin3, v, V3i, Vec3};

verus! {

/// Coordinates of scene geometry (and ray origins/directions) are kept
/// within this magnitude so that every intersection computation fits in
/// an `i128` with room to spare.
pub const COORD_MAX: i128 = 0x4000_0000;

/// Ray origins and directions handed to `hit` stay within this magnitude.
pub const HIT_MAX: i128 = 0x1_0000_0000;

/// Bounding boxes of well-formed hitables are bounded by this magnitude.
pub const BOX_MAX: i128 = 0x1000_0000_0000_0000;

#[derive(Clone, Copy, PartialEq, Eq, Structural, Debug)]
pub struct Aabb {
    pub min: Vec3,
    pub max: Vec3,
}

/// `outer` contains `inner`, componentwise.
pub open spec fn box_contains(outer: Aabb, inner: Aabb) -> bool {
    outer.min.x <= inner.min.x && outer.min.y <= inner.min.y && outer.min.z <= inner.min.z
        && inner.max.x <= outer.max.x && inner.max.y <= outer.max.y && inner.max.z <= outer.max.z
}

pub open spec fn surrounding_s(a: Aabb, b: Aabb) -> Aabb {
    Aabb {
        min: Vec3 {
            x: if a.min.x <= b.min.x { a.min.x } else { b.min.x },
            y: if a.min.y <= b.min.y { a.min.y } else { b.min.y },
            z: if a.min.z <= b.min.z { a.min.z } else { b.min.z },
        },
        max: Vec3 {
            x: if a.max.x >= b.max.x { a.max.x } else { b.max.x },
            y: if a.max.y >= b.max.y { a.max.y } else { b.max.y },
            z: if a.max.z >= b.max.z { a.max.z } else { b.max.z },
        },
    }
}

/// One slab of the test: the t-interval (lo, hi) the axis allows, folded
/// into the accumulator; an axis parallel to the ray constrains nothing
/// but requires the origin to lie inside the slab.
pub open spec fn axis_inside(mn: int, mx: int, o: int, d: int) -> bool {
    d != 0 || (mn <= o && o <= mx)
}

pub open spec fn axis_lo(mn: int, mx: int, o: int, d: int) -> int {
    if d > 0 {
        fdiv_s(mn - o, d)
    } else {
        fdiv_s(mx - o, d)
    }
}

pub open spec fn axis_hi(mn: int, mx: int, o: int, d: int) -> int {
    if d > 0 {
        fdiv_s(mx - o, d)
    } else {
        fdiv_s(mn - o, d)
    }
}

pub open spec fn fold_lo(t0: int, mn: int, mx: int, o: int, d: int) -> int {
    if d == 0 {
        t0
    } else {
        let l = axis_lo(mn, mx, o, d);
        if l > t0 {
            l
        } else {
            t0
        }
    }
}

pub open spec fn fold_hi(t1: int, mn: int, mx: int, o: int, d: int) -> int {
    if d == 0 {
        t1
    } else {
        let h = axis_hi(mn, mx, o, d);
        if h < t1 {
            h
        } else {
            t1
        }
    }
}

/// The slab test: the box's t-interval, intersected with (t_min, t_max),
/// is non-empty.
pub open spec fn box_hit_s(b: Aabb, origin: V3i, direction: V3i, t_min: int, t_max: int) -> bool {
    let mn = v(b.min);
    let mx = v(b.max);
    axis_inside(mn.x, mx.x, origin.x, direction.x) && axis_inside(
        mn.y,
        mx.y,
        origin.y,
        direction.y,
    ) && axis_inside(mn.z, mx.z, origin.z, direction.z) && {
        let t0 = fold_lo(
            fold_lo(fold_lo(t_min, mn.x, mx.x, origin.x, direction.x), mn.y, mx.y, origin.y, direction.y),
            mn.z,
            mx.z,
            origin.z,
            direction.z,
        );
        let t1 = fold_hi(
            fold_hi(fold_hi(t_max, mn.x, mx.x, origin.x, direction.x), mn.y, mx.y, origin.y, direction.y),
            mn.z,
            mx.z,
            origin.z,
            direction.z,
        );
        t1 > t0
    }
}

impl Aabb {
    pub fn new(min: Vec3, max: Vec3) -> (r: Aabb)
        ensures
            r.min == min && r.max == max,
    {
        Aabb { min, max }
    }

    /// The minimal box enclosing this box and another.
    pub fn surrounding_box(&self, o: &Aabb) -> (r: Aabb)
        ensures
            r == surrounding_s(*self, *o),
            v(r.min) == smin3(v(self.min), v(o.min)),
            v(r.max) == smax3(v(self.max), v(o.max)),
    {
        Aabb { min: self.min.vmin(&o.min), max: self.max.vmax(&o.max) }
    }

    /// The slab test against a ray, restricted to the window (t_min, t_max).
    pub fn hit(&self, origin: &Vec3, direction: &Vec3, t_min: i128, t_max: i128) -> (r: bool)
        requires
            crate::vec3::bounded3(v(self.min), BOX_MAX as int),
            crate::vec3::bounded3(v(self.max), BOX_MAX as int),
            crate::vec3::bounded3(v(*origin), HIT_MAX as int),
            crate::vec3::bounded3(v(*direction), HIT_MAX as int),
        ensures
            r == box_hit_s(*self, v(*origin), v(*direction), t_min as int, t_max as int),
    {
        let mut t0: i128 = t_min;
        let mut t1: i128 = t_max;
        if direction.x == 0 {
            if origin.x < self.min.x || origin.x > self.max.x {
                return false;
            }
        } else {
            let tn: i128 = crate::fixed::fx_div(
                if direction.x > 0 { self.min.x - origin.x } else { self.max.x - origin.x },
                direction.x,
            );
            let tf: i128 = crate::fixed::fx_div(
                if direction.x > 0 { self.max.x - origin.x } else { self.min.x - origin.x },
                direction.x,
            );
            if tn > t0 {
                t0 = tn;
            }
            if tf < t1 {
                t1 = tf;
            }
        }
        if direction.y == 0 {
            if origin.y < self.min.y || origin.y > self.max.y {
                return false;
            }
        } else {
            let tn: i128 = crate::fixed::fx_div(
                if direction.y > 0 { self.min.y - origin.y } else { self.max.y - origin.y },
                direction.y,
            );
            let tf: i128 = crate::fixed::fx_div(
                if direction.y > 0 { self.max.y - origin.y } else { self.min.y - origin.y },
                direction.y,
            );
            if tn > t0 {
                t0 = tn;
            }
            if tf < t1 {
                t1 = tf;
            }
        }
        if direction.z == 0 {
            if origin.z < self.min.z || origin.z > self.max.z {
                return false;
            }
        } else {
            let tn: i128 = crate::fixed::fx_div(
                if direction.z > 0 { self.min.z - origin.z } else { self.max.z - origin.z },
                direction.z,
            );
            let tf: i128 = crate::fixed::fx_div(
                if direction.z > 0 { self.max.z - origin.z } else { self.min.z - origin.z },
                direction.z,
            );
            if tn > t0 {
                t0 = tn;
            }
            if tf < t1 {
                t1 = tf;
            }
        }
        t1 > t0
    }
}

/// The surrounding box of two boxes contains both, and is contained in any
/// box that contains both: it is the minimal enclosing box, the componentwise
/// min/max of the corners.
pub proof fn lemma_surrounding_box_minimal(a: Aabb, b: Aabb)
    ensures
        box_contains(surrounding_s(a, b), a),
        box_contains(surrounding_s(a, b), b),
        forall|c: Aabb|
            box_contains(c, a) && box_contains(c, b) ==> box_contains(c, surrounding_s(a, b)),
{
}

} // verus!
