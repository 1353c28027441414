//! Fixed-point scalar arithmetic: every scalar in the tracer is an `i128`
//! holding a real number scaled by `FX_ONE`. Products and quotients round
//! toward zero; square roots round down. Each operation's contract states
//! the exact value it returns, over the mathematical integers.
use vstd::prelude::*;
use vstd::arithmetic::div_mod::{
    lemma_div_is_ordered, lemma_div_nonincreasing, lemma_div_pos_is_pos,
};

verus! {

/// The fixed-point scale: raw value `FX_ONE` stands for the real number 1.
pub const FX_ONE: i128 = 65536;

pub open spec fn iabs(a: int) -> int {
    if a < 0 {
        -a
    } else {
        a
    }
}

/// Division rounding toward zero (the rounding Rust's `/` performs),
/// defined for positive divisors.
pub open spec fn tdiv(a: int, b: int) -> int {
    if a >= 0 {
        a / b
    } else {
        -((-a) / b)
    }
}

/// Fixed-point product: the exact integer product, rescaled.
pub open spec fn fmul_s(a: int, b: int) -> int {
    tdiv(a * b, FX_ONE as int)
}

/// Fixed-point quotient: the dividend is raised by the scale first, and the
/// quotient rounds toward zero whatever the signs.
pub open spec fn fdiv_s(a: int, b: int) -> int {
    if b > 0 {
        tdiv(a * FX_ONE, b)
    } else {
        tdiv(-(a * FX_ONE), -b)
    }
}

pub open spec fn is_sqrt(x: int, r: int) -> bool {
    0 <= r && r * r <= x && x < (r + 1) * (r + 1)
}

/// The integer square root (rounded down) of a non-negative integer.
pub open spec fn isqrt_s(x: int) -> int {
    choose|r: int| is_sqrt(x, r)
}

/// Fixed-point square root: the square root of `x`'s real value, scaled and
/// rounded down, is the integer square root of `x * FX_ONE`.
pub open spec fn fsqrt_s(x: int) -> int {
    isqrt_s(x * FX_ONE)
}

pub proof fn lemma_mul_abs(a: int, b: int)
    ensures
        iabs(a * b) == iabs(a) * iabs(b),
{
    assert(iabs(a * b) == iabs(a) * iabs(b)) by (nonlinear_arith);
}

pub proof fn lemma_tdiv_abs(a: int, b: int)
    requires
        b > 0,
    ensures
        iabs(tdiv(a, b)) == iabs(a) / b,
        iabs(tdiv(a, b)) <= iabs(a),
{
    if a >= 0 {
        lemma_div_pos_is_pos(a, b);
        lemma_div_nonincreasing(a, b);
    } else {
        lemma_div_pos_is_pos(-a, b);
        lemma_div_nonincreasing(-a, b);
    }
}

/// The magnitude of a fixed-point product is bounded by the (rescaled)
/// product of the operand bounds.
pub proof fn lemma_fmul_bound(a: int, b: int, bd_a: int, bd_b: int)
    requires
        iabs(a) <= bd_a,
        iabs(b) <= bd_b,
    ensures
        iabs(fmul_s(a, b)) <= (bd_a * bd_b) / (FX_ONE as int),
        iabs(fmul_s(a, b)) <= bd_a * bd_b,
        iabs(a * b) <= bd_a * bd_b,
        iabs(a) * iabs(b) <= bd_a * bd_b,
{
    lemma_mul_abs(a, b);
    assert(iabs(a) * iabs(b) <= bd_a * bd_b) by (nonlinear_arith)
        requires
            iabs(a) <= bd_a,
            iabs(b) <= bd_b,
            iabs(a) >= 0,
            iabs(b) >= 0,
    ;
    lemma_tdiv_abs(a * b, FX_ONE as int);
    lemma_div_is_ordered(iabs(a * b), bd_a * bd_b, FX_ONE as int);
    lemma_div_nonincreasing(bd_a * bd_b, FX_ONE as int);
}

pub proof fn lemma_tdiv_bound(a: int, b: int, bd: int)
    requires
        b > 0,
        iabs(a) <= bd,
    ensures
        iabs(tdiv(a, b)) <= bd / b,
        iabs(tdiv(a, b)) <= bd,
{
    lemma_tdiv_abs(a, b);
    lemma_div_is_ordered(iabs(a), bd, b);
    lemma_div_nonincreasing(bd, b);
}

/// Truncating division by a positive divisor is monotone in the dividend.
pub proof fn lemma_tdiv_mono(n1: int, n2: int, d: int)
    requires
        d > 0,
        n1 <= n2,
    ensures
        tdiv(n1, d) <= tdiv(n2, d),
{
    if n1 >= 0 {
        lemma_div_is_ordered(n1, n2, d);
    } else if n2 >= 0 {
        lemma_div_pos_is_pos(-n1, d);
        lemma_div_pos_is_pos(n2, d);
    } else {
        lemma_div_is_ordered(-n2, -n1, d);
    }
}

/// Every non-negative integer has an integer square root, so the chosen
/// value `isqrt_s` satisfies the defining property.
pub proof fn lemma_sqrt_exists(x: int)
    requires
        0 <= x,
    ensures
        is_sqrt(x, isqrt_s(x)),
        0 <= isqrt_s(x),
    decreases x,
{
    if x == 0 {
        assert(is_sqrt(0, 0));
    } else {
        lemma_sqrt_exists(x - 1);
        let r = isqrt_s(x - 1);
        if x < (r + 1) * (r + 1) {
            assert(is_sqrt(x, r));
        } else {
            assert(x == (r + 1) * (r + 1));
            assert(is_sqrt(x, r + 1)) by (nonlinear_arith)
                requires
                    x == (r + 1) * (r + 1),
                    0 <= r,
            ;
        }
    }
}

/// A non-negative integer has exactly one integer square root.
pub proof fn lemma_isqrt_unique(x: int, r: int)
    requires
        is_sqrt(x, r),
    ensures
        isqrt_s(x) == r,
{
    let c = isqrt_s(x);
    assert(is_sqrt(x, c));
    assert(c == r) by (nonlinear_arith)
        requires
            is_sqrt(x, c),
            is_sqrt(x, r),
    ;
}

/// A fixed-point quotient of a part by the whole lies in [0, 1].
pub proof fn lemma_fdiv_unit(num: int, den: int)
    requires
        0 < den,
        0 <= num <= den,
    ensures
        0 <= fdiv_s(num, den) <= FX_ONE as int,
{
    lemma_div_pos_is_pos(num * FX_ONE, den);
    vstd::arithmetic::div_mod::lemma_multiply_divide_le(
        num * (FX_ONE as int),
        den,
        FX_ONE as int,
    );
}

/// A fixed-point fraction of a non-negative value lies between zero and the
/// value.
pub proof fn lemma_fmul_frac(r: int, d: int)
    requires
        0 <= r < FX_ONE,
        0 <= d,
    ensures
        0 <= fmul_s(r, d) <= d,
        iabs(r) * iabs(d) == r * d,
        r * d <= FX_ONE * d,
{
    assert(0 <= r * d && r * d <= (FX_ONE as int) * d) by (nonlinear_arith)
        requires
            0 <= r < FX_ONE,
            0 <= d,
    ;
    lemma_mul_abs(r, d);
    lemma_div_pos_is_pos(r * d, FX_ONE as int);
    vstd::arithmetic::div_mod::lemma_multiply_divide_le(r * d, FX_ONE as int, d);
}

/// Attenuating a bounded value by a factor of magnitude at most one keeps
/// the bound.
pub proof fn lemma_fmul_frac_sym(a: int, x: int, bd: int)
    requires
        iabs(a) <= FX_ONE,
        iabs(x) <= bd,
    ensures
        iabs(fmul_s(a, x)) <= bd,
        iabs(fmul_s(x, a)) <= bd,
        iabs(a) * iabs(x) <= FX_ONE * bd,
        iabs(x) * iabs(a) <= FX_ONE * bd,
{
    assert(iabs(x) * iabs(a) == iabs(a) * iabs(x)) by (nonlinear_arith);
    assert(x * a == a * x) by (nonlinear_arith);
    lemma_mul_abs(x, a);
    lemma_tdiv_abs(x * a, FX_ONE as int);
    assert(iabs(a) * iabs(x) <= (FX_ONE as int) * bd) by (nonlinear_arith)
        requires
            0 <= iabs(a) <= FX_ONE,
            0 <= iabs(x) <= bd,
    ;
    lemma_mul_abs(a, x);
    lemma_tdiv_abs(a * x, FX_ONE as int);
    lemma_div_is_ordered(iabs(a * x), (FX_ONE as int) * bd, FX_ONE as int);
    vstd::arithmetic::div_mod::lemma_div_multiples_vanish(bd, FX_ONE as int);
}

/// The square of a small value stays small.
pub proof fn lemma_sq_small(x: int)
    requires
        iabs(x) <= 0x10000,
    ensures
        0 <= iabs(x) * iabs(x) <= 0x1_0000_0000,
{
    assert(iabs(x) * iabs(x) <= 0x1_0000_0000) by (nonlinear_arith)
        requires
            0 <= iabs(x) <= 0x10000,
    ;
    assert(0 <= iabs(x) * iabs(x)) by (nonlinear_arith);
}

/// Fixed-point multiplication.
pub fn fx_mul(a: i128, b: i128) -> (r: i128)
    requires
        iabs(a as int) * iabs(b as int) <= i128::MAX as int,
    ensures
        r as int == fmul_s(a as int, b as int),
{
    proof {
        lemma_mul_abs(a as int, b as int);
        lemma_tdiv_abs((a as int) * (b as int), FX_ONE as int);
    }
    let p: i128 = a * b;
    p / FX_ONE
}

/// Fixed-point division; the divisor may have either sign but must be
/// non-zero (a degenerate denominator is the caller's "no hit" case).
pub fn fx_div(a: i128, b: i128) -> (r: i128)
    requires
        b != 0,
        -i128::MAX <= b,
        iabs(a as int) * (FX_ONE as int) <= i128::MAX as int,
    ensures
        r as int == fdiv_s(a as int, b as int),
{
    proof {
        lemma_mul_abs(a as int, FX_ONE as int);
        assert(iabs(a as int) * (FX_ONE as int) == iabs((a as int) * (FX_ONE as int)));
    }
    let n: i128 = a * FX_ONE;
    if b > 0 {
        proof {
            lemma_tdiv_abs(n as int, b as int);
        }
        n / b
    } else {
        proof {
            lemma_tdiv_abs(-(n as int), -(b as int));
        }
        (-n) / (-b)
    }
}

/// Integer square root by binary search.
pub fn i_sqrt(x: u128) -> (r: u128)
    ensures
        is_sqrt(x as int, r as int),
{
    let mut lo: u128 = 0;
    let mut hi: u128 = 0x1_0000_0000_0000_0000;
    proof {
        assert((0x1_0000_0000_0000_0000int) * (0x1_0000_0000_0000_0000int) > u128::MAX as int)
            by (nonlinear_arith);
    }
    while lo + 1 < hi
        invariant
            0 <= lo < hi <= 0x1_0000_0000_0000_0000,
            (lo as int) * (lo as int) <= x as int,
            (x as int) < (hi as int) * (hi as int),
        decreases hi - lo,
    {
        let mid: u128 = lo + (hi - lo) / 2;
        proof {
            assert((mid as int) * (mid as int) <= u128::MAX as int) by (nonlinear_arith)
                requires
                    0 <= mid as int <= 0xffff_ffff_ffff_ffffint,
            ;
        }
        if mid * mid <= x {
            lo = mid;
        } else {
            hi = mid;
        }
    }
    lo
}

/// Fixed-point square root of a non-negative scalar.
pub fn fx_sqrt(x: i128) -> (r: i128)
    requires
        0 <= x,
        (x as int) * (FX_ONE as int) <= i128::MAX as int,
    ensures
        r as int == fsqrt_s(x as int),
        is_sqrt((x as int) * (FX_ONE as int), r as int),
        0 <= r,
{
    let n: i128 = x * FX_ONE;
    let s: u128 = i_sqrt(n as u128);
    proof {
        assert((s as int) < 0x1_0000_0000_0000_0000int) by (nonlinear_arith)
            requires
                is_sqrt(n as int, s as int),
                n as int <= i128::MAX as int,
        ;
        lemma_isqrt_unique(n as int, s as int);
    }
    s as i128
}

} // verus!
