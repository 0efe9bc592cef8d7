pub mod angle;
pub mod character;
pub mod codec;
pub mod comm;
pub mod flash;
pub mod grab;
pub mod menu;
pub mod node;
pub mod replay;
pub mod rng;
pub mod session;
pub mod target;
pub mod transform;

use vstd::prelude::*;

verus! {

/// Truncating (round-toward-zero) division, the rounding that the
/// executable `/` operator performs on signed integers.
pub open spec fn div_trunc(a: int, b: int) -> int {
    if a >= 0 {
        a / b
    } else {
        -((-a) / b)
    }
}

/// Clamping of an integer to a closed interval.
pub open spec fn clamp_i(v: int, lo: int, hi: int) -> int {
    if v < lo {
        lo
    } else if v > hi {
        hi
    } else {
        v
    }
}

/// Absolute value of an integer.
pub open spec fn abs_i(v: int) -> int {
    if v < 0 {
        -v
    } else {
        v
    }
}

/// Divide by a positive divisor, rounding toward zero.
pub fn div_by(a: i64, b: i64) -> (r: i64)
    requires
        b > 0,
    ensures
        r == div_trunc(a as int, b as int),
{
    a / b
}

/// Multiply, then divide by a positive divisor, rounding toward zero.
pub fn mul_div(a: i64, b: i64, d: i64) -> (r: i64)
    requires
        d > 0,
        -0x7fff_ffff_ffff_ffff <= a * b <= 0x7fff_ffff_ffff_ffff,
    ensures
        r == div_trunc(a * b, d as int),
{
    let p = a * b;
    p / d
}

/// Clamps a value to a closed interval.
pub fn clamp(v: i64, lo: i64, hi: i64) -> (r: i64)
    requires
        lo <= hi,
    ensures
        r == clamp_i(v as int, lo as int, hi as int),
{
    if v < lo {
        lo
    } else if v > hi {
        hi
    } else {
        v
    }
}

/// A multiple of a positive divisor divides back exactly.
pub proof fn lemma_div_trunc_cancel(x: int, d: int)
    requires
        d > 0,
    ensures
        div_trunc(x * d, d) == x,
{
    if x >= 0 {
        assert(x * d >= 0) by (nonlinear_arith)
            requires
                x >= 0,
                d > 0,
        ;
        assert(x * d / d == x) by (nonlinear_arith)
            requires
                d > 0,
        ;
    } else {
        assert(x * d < 0) by (nonlinear_arith)
            requires
                x < 0,
                d > 0,
        ;
        assert(-(x * d) == (-x) * d) by (nonlinear_arith);
        assert((-x) * d / d == -x) by (nonlinear_arith)
            requires
                d > 0,
        ;
    }
}

/// Truncating division by a positive divisor keeps a scaled bound.
pub proof fn lemma_div_trunc_bound(v: int, d: int, b: int)
    requires
        d > 0,
        b >= 0,
        -(b * d) <= v <= b * d,
    ensures
        -b <= div_trunc(v, d) <= b,
{
    if v >= 0 {
        assert(0 <= v / d <= b) by (nonlinear_arith)
            requires
                d > 0,
                b >= 0,
                0 <= v <= b * d,
        ;
    } else {
        assert(0 <= (-v) / d <= b) by (nonlinear_arith)
            requires
                d > 0,
                b >= 0,
                0 <= -v <= b * d,
        ;
    }
}

/// Absolute value; the minimum integer is ruled out by the precondition.
pub fn abs64(v: i64) -> (r: i64)
    requires
        v > i64::MIN,
    ensures
        r == abs_i(v as int),
{
    if v < 0 {
        -v
    } else {
        v
    }
}

} // verus!

