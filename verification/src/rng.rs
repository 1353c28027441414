//! A deterministic 48-bit linear congruential generator. Every draw is a
//! pure function of the seed, so a render with a fixed seed is reproducible
//! bit for bit; independent workers seed one generator each from their work
//! unit.
use vstd::prelude::*;
use crate::fixed::FX_ONE;
use crate::vec3::{sdot, v, V3i, Vec3};

verus! {

/// The multiplier and increment of the classic 48-bit LCG.
pub const LCG_MUL: u64 = 25214903917;

pub const LCG_ADD: u64 = 11;

pub const LCG_MOD: u64 = 0x1_0000_0000_0000;

pub struct Rng48 {
    pub state: u64,
}

pub open spec fn rng_wf(g: Rng48) -> bool {
    g.state < LCG_MOD
}

pub open spec fn next_state(s: int) -> int {
    (s * (LCG_MUL as int) + (LCG_ADD as int)) % (LCG_MOD as int)
}

/// The value drawn from a state: its top 16 bits, a fixed-point number in
/// [0, 1).
pub open spec fn state_out(s: int) -> int {
    s / 0x1_0000_0000
}

/// The vector and final state produced by rejection sampling a point in the
/// unit sphere, with a bounded number of attempts; exhausting them yields
/// the zero vector (the sphere's centre).
pub open spec fn rius_s(s: int, fuel: nat) -> (V3i, int)
    decreases fuel,
{
    if fuel == 0 {
        (V3i { x: 0, y: 0, z: 0 }, s)
    } else {
        let s1 = next_state(s);
        let s2 = next_state(s1);
        let s3 = next_state(s2);
        let p = V3i {
            x: 2 * state_out(s1) - FX_ONE as int,
            y: 2 * state_out(s2) - FX_ONE as int,
            z: 2 * state_out(s3) - FX_ONE as int,
        };
        if sdot(p, p) < FX_ONE as int {
            (p, s3)
        } else {
            rius_s(s3, (fuel - 1) as nat)
        }
    }
}

/// As `rius_s`, in the plane z = 0.
pub open spec fn riud_s(s: int, fuel: nat) -> (V3i, int)
    decreases fuel,
{
    if fuel == 0 {
        (V3i { x: 0, y: 0, z: 0 }, s)
    } else {
        let s1 = next_state(s);
        let s2 = next_state(s1);
        let p = V3i {
            x: 2 * state_out(s1) - FX_ONE as int,
            y: 2 * state_out(s2) - FX_ONE as int,
            z: 0,
        };
        if sdot(p, p) < FX_ONE as int {
            (p, s2)
        } else {
            riud_s(s2, (fuel - 1) as nat)
        }
    }
}

pub const RIUS_FUEL: u32 = 64;

impl Rng48 {
    pub fn new(seed: u64) -> (g: Rng48)
        ensures
            rng_wf(g),
            g.state == seed % LCG_MOD,
    {
        Rng48 { state: seed % LCG_MOD }
    }

    /// One step of the generator; the draw is the new state's top bits, a
    /// fixed-point value in [0, 1).
    pub fn next_fx(&mut self) -> (r: i128)
        requires
            rng_wf(*old(self)),
        ensures
            rng_wf(*final(self)),
            final(self).state as int == next_state(old(self).state as int),
            r as int == state_out(final(self).state as int),
            0 <= r < FX_ONE,
    {
        let t: u128 = (self.state as u128) * (LCG_MUL as u128) + (LCG_ADD as u128);
        let ns: u64 = (t % (LCG_MOD as u128)) as u64;
        proof {
            assert((self.state as u128) * (LCG_MUL as u128) == (self.state as int) * (
            LCG_MUL as int)) by (nonlinear_arith)
                requires
                    self.state < LCG_MOD,
            ;
            vstd::arithmetic::div_mod::lemma_mod_division_less_than_divisor(
                t as int,
                LCG_MOD as int,
            );
        }
        self.state = ns;
        proof {
            vstd::arithmetic::div_mod::lemma_div_pos_is_pos(ns as int, 0x1_0000_0000);
            vstd::arithmetic::div_mod::lemma_multiply_divide_lt(ns as int, 0x1_0000_0000, FX_ONE as int);
        }
        (ns / 0x1_0000_0000) as i128
    }

    /// A point drawn from the unit disk (z = 0) by bounded rejection
    /// sampling.
    pub fn in_unit_disk(&mut self) -> (p: Vec3)
        requires
            rng_wf(*old(self)),
        ensures
            rng_wf(*final(self)),
            (v(p), final(self).state as int) == riud_s(old(self).state as int, RIUS_FUEL as nat),
            crate::vec3::bounded3(v(p), FX_ONE as int),
            p.z == 0,
    {
        self.in_unit_disk_fuel(RIUS_FUEL)
    }

    fn in_unit_disk_fuel(&mut self, fuel: u32) -> (p: Vec3)
        requires
            rng_wf(*old(self)),
        ensures
            rng_wf(*final(self)),
            (v(p), final(self).state as int) == riud_s(old(self).state as int, fuel as nat),
            crate::vec3::bounded3(v(p), FX_ONE as int),
            p.z == 0,
        decreases fuel,
    {
        if fuel == 0 {
            return Vec3 { x: 0, y: 0, z: 0 };
        }
        let x = 2 * self.next_fx() - FX_ONE;
        let y = 2 * self.next_fx() - FX_ONE;
        let p = Vec3 { x, y, z: 0 };
        proof {
            crate::fixed::lemma_sq_small(v(p).x);
            crate::fixed::lemma_sq_small(v(p).y);
            crate::fixed::lemma_sq_small(v(p).z);
        }
        let d = p.dot(&p);
        if d < FX_ONE {
            return p;
        }
        self.in_unit_disk_fuel(fuel - 1)
    }

    /// A point drawn from the unit sphere by bounded rejection sampling.
    pub fn in_unit_sphere(&mut self) -> (p: Vec3)
        requires
            rng_wf(*old(self)),
        ensures
            rng_wf(*final(self)),
            (v(p), final(self).state as int) == rius_s(old(self).state as int, RIUS_FUEL as nat),
            crate::vec3::bounded3(v(p), FX_ONE as int),
    {
        self.in_unit_sphere_fuel(RIUS_FUEL)
    }

    /// One attempt per unit of fuel: a sample from the cube, kept if it
    /// falls inside the sphere; exhausted fuel yields the centre.
    fn in_unit_sphere_fuel(&mut self, fuel: u32) -> (p: Vec3)
        requires
            rng_wf(*old(self)),
        ensures
            rng_wf(*final(self)),
            (v(p), final(self).state as int) == rius_s(old(self).state as int, fuel as nat),
            crate::vec3::bounded3(v(p), FX_ONE as int),
        decreases fuel,
    {
        if fuel == 0 {
            return Vec3 { x: 0, y: 0, z: 0 };
        }
        let x = 2 * self.next_fx() - FX_ONE;
        let y = 2 * self.next_fx() - FX_ONE;
        let z = 2 * self.next_fx() - FX_ONE;
        let p = Vec3 { x, y, z };
        proof {
            crate::fixed::lemma_sq_small(v(p).x);
            crate::fixed::lemma_sq_small(v(p).y);
            crate::fixed::lemma_sq_small(v(p).z);
        }
        let d = p.dot(&p);
        if d < FX_ONE {
            return p;
        }
        self.in_unit_sphere_fuel(fuel - 1)
    }
}

} // verus!
