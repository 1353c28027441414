//! Three-component vectors over fixed-point scalars, with the ghost mirror
//! type `V3i` over the mathematical integers. Every executable operation
//! returns exactly the value of its spec counterpart.
use vstd::prelude::*;
use crate::fixed::{fdiv_s, fmul_s, fsqrt_s, iabs, is_sqrt, tdiv, fx_div, fx_mul, fx_sqrt, FX_ONE};

verus! {

#[derive(Clone, Copy, PartialEq, Eq, Structural, Debug)]
pub struct Vec3 {
    pub x: i128,
    pub y: i128,
    pub z: i128,
}

/// The mathematical-integer mirror of a vector.
pub ghost struct V3i {
    pub x: int,
    pub y: int,
    pub z: int,
}

pub open spec fn v(a: Vec3) -> V3i {
    V3i { x: a.x as int, y: a.y as int, z: a.z as int }
}

pub open spec fn sadd(a: V3i, b: V3i) -> V3i {
    V3i { x: a.x + b.x, y: a.y + b.y, z: a.z + b.z }
}

pub open spec fn ssub(a: V3i, b: V3i) -> V3i {
    V3i { x: a.x - b.x, y: a.y - b.y, z: a.z - b.z }
}

pub open spec fn sneg(a: V3i) -> V3i {
    V3i { x: -a.x, y: -a.y, z: -a.z }
}

pub open spec fn sscale(a: V3i, s: int) -> V3i {
    V3i { x: fmul_s(a.x, s), y: fmul_s(a.y, s), z: fmul_s(a.z, s) }
}

pub open spec fn scmul(a: V3i, b: V3i) -> V3i {
    V3i { x: fmul_s(a.x, b.x), y: fmul_s(a.y, b.y), z: fmul_s(a.z, b.z) }
}

/// Dot product: exact sum of products, rescaled once.
pub open spec fn sdot(a: V3i, b: V3i) -> int {
    tdiv(a.x * b.x + a.y * b.y + a.z * b.z, FX_ONE as int)
}

pub open spec fn scross(a: V3i, b: V3i) -> V3i {
    V3i {
        x: tdiv(a.y * b.z - a.z * b.y, FX_ONE as int),
        y: tdiv(a.z * b.x - a.x * b.z, FX_ONE as int),
        z: tdiv(a.x * b.y - a.y * b.x, FX_ONE as int),
    }
}

pub open spec fn slen(a: V3i) -> int {
    fsqrt_s(sdot(a, a))
}

/// Normalization; the zero vector (and any vector shorter than one scale
/// unit) maps to the zero vector rather than to an undefined quotient.
pub open spec fn sunit(a: V3i) -> V3i {
    let l = slen(a);
    if l == 0 {
        V3i { x: 0, y: 0, z: 0 }
    } else {
        V3i { x: fdiv_s(a.x, l), y: fdiv_s(a.y, l), z: fdiv_s(a.z, l) }
    }
}

pub open spec fn smin3(a: V3i, b: V3i) -> V3i {
    V3i {
        x: if a.x <= b.x { a.x } else { b.x },
        y: if a.y <= b.y { a.y } else { b.y },
        z: if a.z <= b.z { a.z } else { b.z },
    }
}

pub open spec fn smax3(a: V3i, b: V3i) -> V3i {
    V3i {
        x: if a.x >= b.x { a.x } else { b.x },
        y: if a.y >= b.y { a.y } else { b.y },
        z: if a.z >= b.z { a.z } else { b.z },
    }
}

/// All three components are bounded in magnitude by `bd`.
pub open spec fn bounded3(a: V3i, bd: int) -> bool {
    iabs(a.x) <= bd && iabs(a.y) <= bd && iabs(a.z) <= bd
}

impl Vec3 {
    pub fn new(x: i128, y: i128, z: i128) -> (r: Vec3)
        ensures
            r.x == x && r.y == y && r.z == z,
    {
        Vec3 { x, y, z }
    }

    pub fn zero() -> (r: Vec3)
        ensures
            v(r) == (V3i { x: 0, y: 0, z: 0 }),
    {
        Vec3 { x: 0, y: 0, z: 0 }
    }

    pub fn add(&self, o: &Vec3) -> (r: Vec3)
        requires
            i128::MIN <= self.x + o.x <= i128::MAX,
            i128::MIN <= self.y + o.y <= i128::MAX,
            i128::MIN <= self.z + o.z <= i128::MAX,
        ensures
            v(r) == sadd(v(*self), v(*o)),
    {
        Vec3 { x: self.x + o.x, y: self.y + o.y, z: self.z + o.z }
    }

    pub fn sub(&self, o: &Vec3) -> (r: Vec3)
        requires
            i128::MIN <= self.x - o.x <= i128::MAX,
            i128::MIN <= self.y - o.y <= i128::MAX,
            i128::MIN <= self.z - o.z <= i128::MAX,
        ensures
            v(r) == ssub(v(*self), v(*o)),
    {
        Vec3 { x: self.x - o.x, y: self.y - o.y, z: self.z - o.z }
    }

    pub fn neg(&self) -> (r: Vec3)
        requires
            -i128::MAX <= self.x,
            -i128::MAX <= self.y,
            -i128::MAX <= self.z,
        ensures
            v(r) == sneg(v(*self)),
    {
        Vec3 { x: -self.x, y: -self.y, z: -self.z }
    }

    pub fn scale(&self, s: i128) -> (r: Vec3)
        requires
            iabs(self.x as int) * iabs(s as int) <= i128::MAX,
            iabs(self.y as int) * iabs(s as int) <= i128::MAX,
            iabs(self.z as int) * iabs(s as int) <= i128::MAX,
        ensures
            v(r) == sscale(v(*self), s as int),
    {
        Vec3 { x: fx_mul(self.x, s), y: fx_mul(self.y, s), z: fx_mul(self.z, s) }
    }

    /// Componentwise product (colour attenuation).
    pub fn cmul(&self, o: &Vec3) -> (r: Vec3)
        requires
            iabs(self.x as int) * iabs(o.x as int) <= i128::MAX,
            iabs(self.y as int) * iabs(o.y as int) <= i128::MAX,
            iabs(self.z as int) * iabs(o.z as int) <= i128::MAX,
        ensures
            v(r) == scmul(v(*self), v(*o)),
    {
        Vec3 { x: fx_mul(self.x, o.x), y: fx_mul(self.y, o.y), z: fx_mul(self.z, o.z) }
    }

    pub fn dot(&self, o: &Vec3) -> (r: i128)
        requires
            iabs(self.x as int) * iabs(o.x as int) + iabs(self.y as int) * iabs(o.y as int)
                + iabs(self.z as int) * iabs(o.z as int) <= i128::MAX,
        ensures
            r as int == sdot(v(*self), v(*o)),
    {
        proof {
            crate::fixed::lemma_mul_abs(self.x as int, o.x as int);
            crate::fixed::lemma_mul_abs(self.y as int, o.y as int);
            crate::fixed::lemma_mul_abs(self.z as int, o.z as int);
            crate::fixed::lemma_tdiv_abs(
                (self.x as int) * (o.x as int) + (self.y as int) * (o.y as int) + (self.z as int)
                    * (o.z as int),
                FX_ONE as int,
            );
        }
        let s: i128 = self.x * o.x + self.y * o.y + self.z * o.z;
        s / FX_ONE
    }

    pub fn cross(&self, o: &Vec3) -> (r: Vec3)
        requires
            iabs(self.y as int) * iabs(o.z as int) + iabs(self.z as int) * iabs(o.y as int)
                <= i128::MAX,
            iabs(self.z as int) * iabs(o.x as int) + iabs(self.x as int) * iabs(o.z as int)
                <= i128::MAX,
            iabs(self.x as int) * iabs(o.y as int) + iabs(self.y as int) * iabs(o.x as int)
                <= i128::MAX,
        ensures
            v(r) == scross(v(*self), v(*o)),
    {
        proof {
            crate::fixed::lemma_mul_abs(self.x as int, o.x as int);
            crate::fixed::lemma_mul_abs(self.y as int, o.y as int);
            crate::fixed::lemma_mul_abs(self.z as int, o.z as int);
            crate::fixed::lemma_mul_abs(self.x as int, o.y as int);
            crate::fixed::lemma_mul_abs(self.y as int, o.z as int);
            crate::fixed::lemma_mul_abs(self.z as int, o.x as int);
            crate::fixed::lemma_mul_abs(self.x as int, o.z as int);
            crate::fixed::lemma_mul_abs(self.y as int, o.x as int);
            crate::fixed::lemma_mul_abs(self.z as int, o.y as int);
            crate::fixed::lemma_tdiv_abs(
                (self.y as int) * (o.z as int) - (self.z as int) * (o.y as int),
                FX_ONE as int,
            );
            crate::fixed::lemma_tdiv_abs(
                (self.z as int) * (o.x as int) - (self.x as int) * (o.z as int),
                FX_ONE as int,
            );
            crate::fixed::lemma_tdiv_abs(
                (self.x as int) * (o.y as int) - (self.y as int) * (o.x as int),
                FX_ONE as int,
            );
        }
        let cx: i128 = (self.y * o.z - self.z * o.y) / FX_ONE;
        let cy: i128 = (self.z * o.x - self.x * o.z) / FX_ONE;
        let cz: i128 = (self.x * o.y - self.y * o.x) / FX_ONE;
        Vec3 { x: cx, y: cy, z: cz }
    }

    /// Squared length, never negative.
    pub fn length_squared(&self) -> (r: i128)
        requires
            iabs(self.x as int) * iabs(self.x as int) + iabs(self.y as int) * iabs(self.y as int)
                + iabs(self.z as int) * iabs(self.z as int) <= i128::MAX,
        ensures
            r as int == sdot(v(*self), v(*self)),
            0 <= r,
    {
        proof {
            lemma_self_dot_nonneg(v(*self));
        }
        self.dot(self)
    }

    pub fn length(&self) -> (r: i128)
        requires
            iabs(self.x as int) * iabs(self.x as int) + iabs(self.y as int) * iabs(self.y as int)
                + iabs(self.z as int) * iabs(self.z as int) <= i128::MAX,
        ensures
            r as int == slen(v(*self)),
            0 <= r,
    {
        let d: i128 = self.length_squared();
        proof {
            let sum = (self.x as int) * (self.x as int) + (self.y as int) * (self.y as int) + (
            self.z as int) * (self.z as int);
            lemma_self_dot_nonneg(v(*self));
            crate::fixed::lemma_mul_abs(self.x as int, self.x as int);
            crate::fixed::lemma_mul_abs(self.y as int, self.y as int);
            crate::fixed::lemma_mul_abs(self.z as int, self.z as int);
            crate::fixed::lemma_tdiv_abs(sum, FX_ONE as int);
            vstd::arithmetic::div_mod::lemma_fundamental_div_mod(sum, FX_ONE as int);
            vstd::arithmetic::div_mod::lemma_mod_division_less_than_divisor(sum, FX_ONE as int);
            assert(d as int == sum / (FX_ONE as int));
            assert((d as int) * (FX_ONE as int) <= sum) by (nonlinear_arith)
                requires
                    sum == (FX_ONE as int) * (sum / (FX_ONE as int)) + sum % (FX_ONE as int),
                    0 <= sum % (FX_ONE as int),
                    d as int == sum / (FX_ONE as int),
            ;
        }
        fx_sqrt(d)
    }

    /// The unit vector in this direction; a degenerate (too short) vector
    /// normalizes to zero.
    pub fn unit(&self) -> (r: Vec3)
        requires
            iabs(self.x as int) * iabs(self.x as int) + iabs(self.y as int) * iabs(self.y as int)
                + iabs(self.z as int) * iabs(self.z as int) <= i128::MAX,
            iabs(self.x as int) * (FX_ONE as int) <= i128::MAX,
            iabs(self.y as int) * (FX_ONE as int) <= i128::MAX,
            iabs(self.z as int) * (FX_ONE as int) <= i128::MAX,
        ensures
            v(r) == sunit(v(*self)),
    {
        let l: i128 = self.length();
        if l == 0 {
            Vec3 { x: 0, y: 0, z: 0 }
        } else {
            Vec3 { x: fx_div(self.x, l), y: fx_div(self.y, l), z: fx_div(self.z, l) }
        }
    }

    pub fn vmin(&self, o: &Vec3) -> (r: Vec3)
        ensures
            v(r) == smin3(v(*self), v(*o)),
    {
        Vec3 {
            x: if self.x <= o.x { self.x } else { o.x },
            y: if self.y <= o.y { self.y } else { o.y },
            z: if self.z <= o.z { self.z } else { o.z },
        }
    }

    pub fn vmax(&self, o: &Vec3) -> (r: Vec3)
        ensures
            v(r) == smax3(v(*self), v(*o)),
    {
        Vec3 {
            x: if self.x >= o.x { self.x } else { o.x },
            y: if self.y >= o.y { self.y } else { o.y },
            z: if self.z >= o.z { self.z } else { o.z },
        }
    }

    /// Component selected by axis index (0, 1, 2).
    pub fn comp(&self, axis: usize) -> (r: i128)
        ensures
            r == scomp(v(*self), axis as int),
    {
        if axis == 0 {
            self.x
        } else if axis == 1 {
            self.y
        } else {
            self.z
        }
    }
}

pub open spec fn scomp(a: V3i, axis: int) -> int {
    if axis == 0 {
        a.x
    } else if axis == 1 {
        a.y
    } else {
        a.z
    }
}

/// With both operands bounded, a dot product neither overflows an `i128`
/// nor exceeds three times the product of the bounds.
pub proof fn lemma_dot_safe(a: V3i, b: V3i, bd_a: int, bd_b: int)
    requires
        bounded3(a, bd_a),
        bounded3(b, bd_b),
        0 <= bd_a,
        0 <= bd_b,
        3 * bd_a * bd_b <= i128::MAX,
    ensures
        iabs(a.x) * iabs(b.x) + iabs(a.y) * iabs(b.y) + iabs(a.z) * iabs(b.z) <= i128::MAX,
        iabs(a.x * b.x + a.y * b.y + a.z * b.z) <= 3 * bd_a * bd_b,
        iabs(sdot(a, b)) <= 3 * bd_a * bd_b,
        iabs(sdot(a, b)) <= (3 * bd_a * bd_b) / (FX_ONE as int),
{
    crate::fixed::lemma_mul_abs(a.x, b.x);
    crate::fixed::lemma_mul_abs(a.y, b.y);
    crate::fixed::lemma_mul_abs(a.z, b.z);
    assert(iabs(a.x) * iabs(b.x) <= bd_a * bd_b && iabs(a.y) * iabs(b.y) <= bd_a * bd_b && iabs(
        a.z,
    ) * iabs(b.z) <= bd_a * bd_b) by (nonlinear_arith)
        requires
            0 <= iabs(a.x) <= bd_a && 0 <= iabs(a.y) <= bd_a && 0 <= iabs(a.z) <= bd_a,
            0 <= iabs(b.x) <= bd_b && 0 <= iabs(b.y) <= bd_b && 0 <= iabs(b.z) <= bd_b,
    ;
    assert(iabs(a.x) * iabs(b.x) + iabs(a.y) * iabs(b.y) + iabs(a.z) * iabs(b.z) <= 3 * bd_a
        * bd_b) by (nonlinear_arith)
        requires
            iabs(a.x) * iabs(b.x) <= bd_a * bd_b,
            iabs(a.y) * iabs(b.y) <= bd_a * bd_b,
            iabs(a.z) * iabs(b.z) <= bd_a * bd_b,
    ;
    crate::fixed::lemma_tdiv_bound(
        a.x * b.x + a.y * b.y + a.z * b.z,
        FX_ONE as int,
        3 * bd_a * bd_b,
    );
}

/// With both operands bounded, a cross product neither overflows an `i128`
/// nor exceeds twice the product of the bounds, componentwise.
pub proof fn lemma_cross_safe(a: V3i, b: V3i, bd_a: int, bd_b: int)
    requires
        bounded3(a, bd_a),
        bounded3(b, bd_b),
        0 <= bd_a,
        0 <= bd_b,
        2 * bd_a * bd_b <= i128::MAX,
    ensures
        iabs(a.y) * iabs(b.z) + iabs(a.z) * iabs(b.y) <= i128::MAX,
        iabs(a.z) * iabs(b.x) + iabs(a.x) * iabs(b.z) <= i128::MAX,
        iabs(a.x) * iabs(b.y) + iabs(a.y) * iabs(b.x) <= i128::MAX,
        bounded3(scross(a, b), 2 * bd_a * bd_b),
        bounded3(scross(a, b), (2 * bd_a * bd_b) / (FX_ONE as int)),
{
    crate::fixed::lemma_mul_abs(a.y, b.z);
    crate::fixed::lemma_mul_abs(a.z, b.y);
    crate::fixed::lemma_mul_abs(a.z, b.x);
    crate::fixed::lemma_mul_abs(a.x, b.z);
    crate::fixed::lemma_mul_abs(a.x, b.y);
    crate::fixed::lemma_mul_abs(a.y, b.x);
    assert(iabs(a.x) * iabs(b.x) <= bd_a * bd_b && iabs(a.x) * iabs(b.y) <= bd_a * bd_b && iabs(
        a.x,
    ) * iabs(b.z) <= bd_a * bd_b && iabs(a.y) * iabs(b.x) <= bd_a * bd_b && iabs(a.y) * iabs(b.y)
        <= bd_a * bd_b && iabs(a.y) * iabs(b.z) <= bd_a * bd_b && iabs(a.z) * iabs(b.x) <= bd_a
        * bd_b && iabs(a.z) * iabs(b.y) <= bd_a * bd_b && iabs(a.z) * iabs(b.z) <= bd_a * bd_b)
        by (nonlinear_arith)
        requires
            0 <= iabs(a.x) <= bd_a && 0 <= iabs(a.y) <= bd_a && 0 <= iabs(a.z) <= bd_a,
            0 <= iabs(b.x) <= bd_b && 0 <= iabs(b.y) <= bd_b && 0 <= iabs(b.z) <= bd_b,
    ;
    assert(iabs(a.y) * iabs(b.z) + iabs(a.z) * iabs(b.y) <= 2 * bd_a * bd_b && iabs(a.z) * iabs(
        b.x,
    ) + iabs(a.x) * iabs(b.z) <= 2 * bd_a * bd_b && iabs(a.x) * iabs(b.y) + iabs(a.y) * iabs(b.x)
        <= 2 * bd_a * bd_b) by (nonlinear_arith)
        requires
            iabs(a.x) * iabs(b.y) <= bd_a * bd_b,
            iabs(a.x) * iabs(b.z) <= bd_a * bd_b,
            iabs(a.y) * iabs(b.x) <= bd_a * bd_b,
            iabs(a.y) * iabs(b.z) <= bd_a * bd_b,
            iabs(a.z) * iabs(b.x) <= bd_a * bd_b,
            iabs(a.z) * iabs(b.y) <= bd_a * bd_b,
    ;
    crate::fixed::lemma_tdiv_bound(a.y * b.z - a.z * b.y, FX_ONE as int, 2 * bd_a * bd_b);
    crate::fixed::lemma_tdiv_bound(a.z * b.x - a.x * b.z, FX_ONE as int, 2 * bd_a * bd_b);
    crate::fixed::lemma_tdiv_bound(a.x * b.y - a.y * b.x, FX_ONE as int, 2 * bd_a * bd_b);
}

/// Scaling a bounded vector by a bounded scalar neither overflows nor
/// exceeds the rescaled product of the bounds.
pub proof fn lemma_scale_safe(a: V3i, s: int, bd_a: int, bd_s: int)
    requires
        bounded3(a, bd_a),
        iabs(s) <= bd_s,
        0 <= bd_a,
        0 <= bd_s,
        bd_a * bd_s <= i128::MAX,
    ensures
        iabs(a.x) * iabs(s) <= i128::MAX,
        iabs(a.y) * iabs(s) <= i128::MAX,
        iabs(a.z) * iabs(s) <= i128::MAX,
        bounded3(sscale(a, s), (bd_a * bd_s) / (FX_ONE as int)),
{
    assert(iabs(a.x) * iabs(s) <= bd_a * bd_s && iabs(a.y) * iabs(s) <= bd_a * bd_s && iabs(a.z)
        * iabs(s) <= bd_a * bd_s) by (nonlinear_arith)
        requires
            0 <= iabs(a.x) <= bd_a && 0 <= iabs(a.y) <= bd_a && 0 <= iabs(a.z) <= bd_a,
            0 <= iabs(s) <= bd_s,
    ;
    crate::fixed::lemma_fmul_bound(a.x, s, bd_a, bd_s);
    crate::fixed::lemma_fmul_bound(a.y, s, bd_a, bd_s);
    crate::fixed::lemma_fmul_bound(a.z, s, bd_a, bd_s);
}

/// Normalizing any vector whose components fit well inside an `i128` yields
/// a vector no longer than a few hundred scale units over one: the result of
/// `sunit` is bounded by `0x2000000` (512 in real terms), and the inner
/// operations cannot overflow.
pub proof fn lemma_unit_bounded(a: V3i)
    requires
        bounded3(a, 0x4000_0000_0000_0000),
    ensures
        iabs(a.x) * iabs(a.x) + iabs(a.y) * iabs(a.y) + iabs(a.z) * iabs(a.z) <= i128::MAX,
        iabs(a.x) * (FX_ONE as int) <= i128::MAX,
        iabs(a.y) * (FX_ONE as int) <= i128::MAX,
        iabs(a.z) * (FX_ONE as int) <= i128::MAX,
        bounded3(sunit(a), 0x2000000),
{
    let bd: int = 0x4000_0000_0000_0000;
    lemma_dot_safe(a, a, bd, bd);
    lemma_self_dot_nonneg(a);
    let sum = a.x * a.x + a.y * a.y + a.z * a.z;
    let d = sdot(a, a);
    crate::fixed::lemma_tdiv_abs(sum, FX_ONE as int);
    vstd::arithmetic::div_mod::lemma_fundamental_div_mod(sum, FX_ONE as int);
    vstd::arithmetic::div_mod::lemma_mod_division_less_than_divisor(sum, FX_ONE as int);
    assert(d == sum / (FX_ONE as int));
    assert(d * (FX_ONE as int) > sum - (FX_ONE as int)) by (nonlinear_arith)
        requires
            sum == (FX_ONE as int) * (sum / (FX_ONE as int)) + sum % (FX_ONE as int),
            sum % (FX_ONE as int) < (FX_ONE as int),
            d == sum / (FX_ONE as int),
    ;
    assert(0 <= a.x * a.x && 0 <= a.y * a.y && 0 <= a.z * a.z) by (nonlinear_arith);
    let l = slen(a);
    crate::fixed::lemma_sqrt_exists(d * (FX_ONE as int));
    assert(crate::fixed::is_sqrt(d * (FX_ONE as int), l));
    if l == 0 {
    } else {
        assert(l >= 1);
        lemma_unit_comp(a.x, sum, d, l);
        lemma_unit_comp(a.y, sum, d, l);
        lemma_unit_comp(a.z, sum, d, l);
    }
}

/// One component of the normalization bound: if x*x is part of a sum whose
/// rescaled square root is l >= 1, then |x| is within a few hundred units of
/// l, so x * FX_ONE / l is bounded.
proof fn lemma_unit_comp(x: int, sum: int, d: int, l: int)
    requires
        x * x <= sum,
        d * (FX_ONE as int) > sum - (FX_ONE as int),
        crate::fixed::is_sqrt(d * (FX_ONE as int), l),
        1 <= l,
    ensures
        iabs(crate::fixed::fdiv_s(x, l)) <= 0x2000000,
{
    crate::fixed::lemma_mul_abs(x, x);
    assert(0 <= x * x) by (nonlinear_arith);
    assert(iabs(x) <= l + 257) by (nonlinear_arith)
        requires
            x * x <= sum,
            d * (FX_ONE as int) > sum - (FX_ONE as int),
            d * (FX_ONE as int) < (l + 1) * (l + 1),
            0 <= l,
            0 <= iabs(x),
            iabs(x) * iabs(x) == x * x,
    ;
    crate::fixed::lemma_mul_abs(x, FX_ONE as int);
    crate::fixed::lemma_tdiv_abs(x * (FX_ONE as int), l);
    vstd::arithmetic::div_mod::lemma_div_is_ordered(
        iabs(x * (FX_ONE as int)),
        (l + 257) * (FX_ONE as int),
        l,
    );
    assert((l + 257) * (FX_ONE as int) <= l * 16908288) by (nonlinear_arith)
        requires
            1 <= l,
    ;
    vstd::arithmetic::div_mod::lemma_multiply_divide_le(
        (l + 257) * (FX_ONE as int),
        l,
        16908288,
    );
}

pub proof fn lemma_self_dot_nonneg(a: V3i)
    ensures
        0 <= sdot(a, a),
        0 <= a.x * a.x + a.y * a.y + a.z * a.z,
{
    assert(0 <= a.x * a.x + a.y * a.y + a.z * a.z) by (nonlinear_arith);
    vstd::arithmetic::div_mod::lemma_div_pos_is_pos(
        a.x * a.x + a.y * a.y + a.z * a.z,
        FX_ONE as int,
    );
}

} // verus!
