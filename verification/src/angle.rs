use vstd::prelude::*;

verus! {

// Angles are integers in millidegrees, kept normalized to [0, FULL_TURN).
// Trigonometric values are fixed-point integers scaled by TRIG_ONE, so the
// sine or cosine of an angle is an integer in [-TRIG_ONE, TRIG_ONE].

pub const FULL_TURN: i64 = 360_000;

pub const HALF_TURN: i64 = 180_000;

pub const QUARTER_TURN: i64 = 90_000;

pub const TRIG_ONE: i64 = 1_000_000;

/// A normalized angle lies in [0, FULL_TURN).
pub open spec fn angle_wf(a: int) -> bool {
    0 <= a < 360_000
}

/// Sum of two normalized angles, wrapped back into [0, FULL_TURN).
pub open spec fn add_angles(a: int, b: int) -> int {
    if a + b < 360_000 {
        a + b
    } else {
        a + b - 360_000
    }
}

/// Difference of two normalized angles, wrapped back into [0, FULL_TURN).
pub open spec fn sub_angles(a: int, b: int) -> int {
    if a - b >= 0 {
        a - b
    } else {
        a - b + 360_000
    }
}

/// The normalized angle that undoes a rotation by `a`.
pub open spec fn neg_angle(a: int) -> int {
    sub_angles(0, a)
}

/// Rational approximation of the sine over the first half turn,
/// scaled by TRIG_ONE.  It is exact at 0, 30, 90, 150 and 180 degrees.
pub open spec fn sin_half(m: int) -> int {
    let t = m * (180_000 - m);
    (4 * t * 1_000_000) / (40_500_000_000 - t)
}

/// Sine of a normalized angle, scaled by TRIG_ONE.
pub open spec fn sin_of(a: int) -> int {
    if a < 180_000 {
        sin_half(a)
    } else {
        -sin_half(a - 180_000)
    }
}

/// Cosine of a normalized angle, scaled by TRIG_ONE.
pub open spec fn cos_of(a: int) -> int {
    sin_of(add_angles(a, 90_000))
}

proof fn lemma_sin_half_bounds(m: int)
    requires
        0 <= m <= 180_000,
    ensures
        0 <= sin_half(m) <= 1_000_000,
        m == 0 || m == 180_000 ==> sin_half(m) == 0,
        m == 90_000 ==> sin_half(m) == 1_000_000,
{
    let t = m * (180_000 - m);
    assert(0 <= t <= 8_100_000_000) by (nonlinear_arith)
        requires
            0 <= m <= 180_000,
            t == m * (180_000 - m),
    ;
    let num = 4 * t * 1_000_000;
    let den = 40_500_000_000 - t;
    assert(0 <= num / den <= 1_000_000) by (nonlinear_arith)
        requires
            0 <= num,
            num <= 1_000_000 * den,
            den > 0,
    ;
    if m == 0 || m == 180_000 {
        assert(sin_half(m) == 0) by (nonlinear_arith)
            requires
                m == 0 || m == 180_000,
        ;
    }
    if m == 90_000 {
        assert(sin_half(m) == 1_000_000) by (nonlinear_arith)
            requires
                m == 90_000,
        ;
    }
}

/// The sine and cosine of any normalized angle stay within one trig unit.
pub proof fn lemma_trig_bounds(a: int)
    requires
        angle_wf(a),
    ensures
        -1_000_000 <= sin_of(a) <= 1_000_000,
        -1_000_000 <= cos_of(a) <= 1_000_000,
{
    if a < 180_000 {
        lemma_sin_half_bounds(a);
    } else {
        lemma_sin_half_bounds(a - 180_000);
    }
    let c = add_angles(a, 90_000);
    if c < 180_000 {
        lemma_sin_half_bounds(c);
    } else {
        lemma_sin_half_bounds(c - 180_000);
    }
}

/// At multiples of a quarter turn the sine and cosine are exact.
pub proof fn lemma_trig_quarter(a: int)
    requires
        angle_wf(a),
        a % 90_000 == 0,
    ensures
        a == 0 ==> sin_of(a) == 0 && cos_of(a) == 1_000_000,
        a == 90_000 ==> sin_of(a) == 1_000_000 && cos_of(a) == 0,
        a == 180_000 ==> sin_of(a) == 0 && cos_of(a) == -1_000_000,
        a == 270_000 ==> sin_of(a) == -1_000_000 && cos_of(a) == 0,
{
    assert(a == 0 || a == 90_000 || a == 180_000 || a == 270_000);
    lemma_sin_half_bounds(0);
    lemma_sin_half_bounds(90_000);
    lemma_sin_half_bounds(180_000);
}

/// Adds two normalized angles, wrapping within one turn.
pub fn angle_add(a: i64, b: i64) -> (r: i64)
    requires
        angle_wf(a as int),
        angle_wf(b as int),
    ensures
        r == add_angles(a as int, b as int),
        angle_wf(r as int),
{
    let s = a + b;
    if s >= FULL_TURN {
        s - FULL_TURN
    } else {
        s
    }
}

/// Subtracts two normalized angles, wrapping within one turn.
pub fn angle_sub(a: i64, b: i64) -> (r: i64)
    requires
        angle_wf(a as int),
        angle_wf(b as int),
    ensures
        r == sub_angles(a as int, b as int),
        angle_wf(r as int),
{
    let s = a - b;
    if s < 0 {
        s + FULL_TURN
    } else {
        s
    }
}

/// The normalized angle that undoes a rotation by `a`.
pub fn angle_neg(a: i64) -> (r: i64)
    requires
        angle_wf(a as int),
    ensures
        r == neg_angle(a as int),
        angle_wf(r as int),
{
    if a == 0 {
        0
    } else {
        FULL_TURN - a
    }
}

/// Wraps an arbitrary angle into [0, FULL_TURN).
pub fn normalize_angle(a: i64) -> (r: i64)
    requires
        a > i64::MIN,
    ensures
        angle_wf(r as int),
        r as int == a as int % 360_000,
{
    let m = a % FULL_TURN;
    if m < 0 {
        m + FULL_TURN
    } else {
        m
    }
}

fn sin_half_fp(m: i64) -> (r: i64)
    requires
        0 <= m <= 180_000,
    ensures
        r == sin_half(m as int),
        0 <= r <= 1_000_000,
{
    proof {
        lemma_sin_half_bounds(m as int);
        assert(0 <= (m as int) * (180_000 - m as int) <= 8_100_000_000) by (nonlinear_arith)
            requires
                0 <= m <= 180_000,
        ;
    }
    let t = m * (180_000 - m);
    let num = 4 * t * 1_000_000;
    let den = 40_500_000_000 - t;
    num / den
}

/// Fixed-point sine of a normalized angle.
pub fn sin_fp(a: i64) -> (r: i64)
    requires
        angle_wf(a as int),
    ensures
        r == sin_of(a as int),
        -1_000_000 <= r <= 1_000_000,
{
    if a < HALF_TURN {
        sin_half_fp(a)
    } else {
        -sin_half_fp(a - HALF_TURN)
    }
}

/// Fixed-point cosine of a normalized angle.
pub fn cos_fp(a: i64) -> (r: i64)
    requires
        angle_wf(a as int),
    ensures
        r == cos_of(a as int),
        -1_000_000 <= r <= 1_000_000,
{
    sin_fp(angle_add(a, QUARTER_TURN))
}

} // verus!
