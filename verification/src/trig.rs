//! Fixed-point angles and trigonometry.
//!
//! Angles are measured in microradians (`FP` counts per radian). The sine
//! uses a rational approximation over a half turn, saturated at one world
//! unit; the bearing angle uses an octant reduction with a polynomial
//! arctangent. Both are exact integer functions of their arguments, so every
//! caller is deterministic.

use vstd::prelude::*;
use crate::fixed::{
    FP, COORD_LIMIT, Vec2Fx, tdiv, tdiv_spec, lemma_tdiv_bounds, abs_spec,
};

verus! {

/// Half a turn, in microradians.
pub const PI_FX: i64 = 3_141_593;

/// A full turn, in microradians.
pub const TAU_FX: i64 = 6_283_186;

/// A quarter turn, in microradians.
pub const HALF_PI_FX: i64 = 1_570_796;

/// An eighth of a turn: the value of the arctangent at 1.
pub const QUARTER_PI_FX: i64 = 785_398;

/// Linear coefficient of the arctangent correction term.
pub const ATAN_B: i64 = 273_000;

/// Sine over `[0, PI_FX]`, scaled by `FP` and saturated at `FP`, as a
/// mathematical function: a rational approximation of `sin` on a half turn.
pub open spec fn sin_unit_spec(x: int) -> int {
    let p = x * (PI_FX - x);
    let den = tdiv_spec(5 * PI_FX * PI_FX - 4 * p, 8);
    let q = tdiv_spec(2 * p * FP, den);
    if q > FP {
        FP as int
    } else {
        q
    }
}

/// The half-turn sine stays within `[0, FP]`.
pub proof fn lemma_sin_unit_range(x: int)
    requires
        0 <= x <= PI_FX,
    ensures
        0 <= sin_unit_spec(x) <= FP,
{
    let p = x * (PI_FX - x);
    assert(0 <= p && 4 * p <= PI_FX * PI_FX) by (nonlinear_arith)
        requires
            0 <= x <= PI_FX,
            p == x * (PI_FX - x),
    ;
    lemma_tdiv_bounds(5 * PI_FX * PI_FX - 4 * p, 8);
    let den = tdiv_spec(5 * PI_FX * PI_FX - 4 * p, 8);
    assert(den >= 1);
    lemma_tdiv_bounds(2 * p * FP, den);
    assert(2 * p * FP >= 0) by (nonlinear_arith)
        requires
            p >= 0,
            FP == 1_000_000,
    ;
}

/// Sine of an angle in `[-PI_FX, PI_FX]`, scaled by `FP`.
pub open spec fn isin_spec(x: int) -> int {
    if x >= 0 {
        sin_unit_spec(x)
    } else {
        -sin_unit_spec(-x)
    }
}

/// Cosine of an angle in `[-PI_FX, PI_FX]`, scaled by `FP`, through the
/// quarter-turn phase shift of the sine.
pub open spec fn icos_spec(x: int) -> int {
    let t = abs_spec(x);
    if t <= HALF_PI_FX {
        sin_unit_spec(HALF_PI_FX - t)
    } else {
        -sin_unit_spec(t - HALF_PI_FX)
    }
}

/// Computes the saturated half-turn sine.
fn sin_unit(x: i64) -> (r: i64)
    requires
        0 <= x <= PI_FX,
    ensures
        r == sin_unit_spec(x as int),
        0 <= r <= FP,
{
    proof {
        lemma_sin_unit_range(x as int);
    }
    proof {
        assert(0 <= x * (PI_FX - x) && 4 * (x * (PI_FX - x)) <= PI_FX * PI_FX && 2 * (x * (PI_FX
            - x)) * FP <= 9_000_000_000_000_000_000) by (nonlinear_arith)
            requires
                0 <= x <= PI_FX,
                PI_FX == 3_141_593,
                FP == 1_000_000,
        ;
    }
    let p: i64 = x * (PI_FX - x);
    let den: i64 = tdiv(5 * PI_FX * PI_FX - 4 * p, 8);
    proof {
        lemma_tdiv_bounds(5 * PI_FX * PI_FX - 4 * p, 8);
    }
    let q: i64 = tdiv(2 * p * FP, den);
    if q > FP {
        FP
    } else {
        q
    }
}

/// Sine of an angle in `[-PI_FX, PI_FX]`.
pub fn isin(x: i64) -> (r: i64)
    requires
        -PI_FX <= x <= PI_FX,
    ensures
        r == isin_spec(x as int),
        -FP <= r <= FP,
{
    proof {
        if x >= 0 {
            lemma_sin_unit_range(x as int);
        } else {
            lemma_sin_unit_range(-x as int);
        }
    }
    if x >= 0 {
        sin_unit(x)
    } else {
        -sin_unit(-x)
    }
}

/// Cosine of an angle in `[-PI_FX, PI_FX]`.
pub fn icos(x: i64) -> (r: i64)
    requires
        -PI_FX <= x <= PI_FX,
    ensures
        r == icos_spec(x as int),
        -FP <= r <= FP,
{
    let t: i64 = if x >= 0 {
        x
    } else {
        -x
    };
    if t <= HALF_PI_FX {
        sin_unit(HALF_PI_FX - t)
    } else {
        -sin_unit(t - HALF_PI_FX)
    }
}

/// Arctangent of `z / FP` for `z` in `[0, FP]`, scaled by `FP` and saturated
/// at an eighth of a turn, as a mathematical function.
pub open spec fn atan_unit_spec(z: int) -> int {
    let q = tdiv_spec(z * (QUARTER_PI_FX * FP + ATAN_B * (FP - z)), FP * FP);
    if q > QUARTER_PI_FX {
        QUARTER_PI_FX as int
    } else {
        q
    }
}

/// The saturated arctangent stays within an eighth of a turn.
pub proof fn lemma_atan_unit_range(z: int)
    requires
        0 <= z <= FP,
    ensures
        0 <= atan_unit_spec(z) <= QUARTER_PI_FX,
{
    let t = QUARTER_PI_FX * FP + ATAN_B * (FP - z);
    assert(z * t >= 0) by (nonlinear_arith)
        requires
            0 <= z <= FP,
            t == QUARTER_PI_FX * FP + ATAN_B * (FP - z),
            QUARTER_PI_FX == 785_398,
            ATAN_B == 273_000,
            FP == 1_000_000,
    ;
    lemma_tdiv_bounds(z * t, FP * FP);
}

/// Computes the saturated arctangent on the first octant.
fn atan_unit(z: i64) -> (r: i64)
    requires
        0 <= z <= FP,
    ensures
        r == atan_unit_spec(z as int),
        0 <= r <= QUARTER_PI_FX,
{
    proof {
        lemma_atan_unit_range(z as int);
    }
    let t: i64 = QUARTER_PI_FX * FP + ATAN_B * (FP - z);
    proof {
        assert(0 <= z * t <= 2_000_000_000_000_000_000) by (nonlinear_arith)
            requires
                0 <= z <= FP,
                t == QUARTER_PI_FX * FP + ATAN_B * (FP - z),
                QUARTER_PI_FX == 785_398,
                ATAN_B == 273_000,
                FP == 1_000_000,
        ;
    }
    let q: i64 = tdiv(z * t, FP * FP);
    if q > QUARTER_PI_FX {
        QUARTER_PI_FX
    } else {
        q
    }
}

/// First-quadrant bearing of the magnitudes `(ax, ay)`, not both zero.
pub open spec fn quadrant_angle_spec(ax: int, ay: int) -> int {
    if ax >= ay {
        atan_unit_spec(tdiv_spec(ay * FP, ax))
    } else {
        HALF_PI_FX - atan_unit_spec(tdiv_spec(ax * FP, ay))
    }
}

/// Bearing angle of the vector `v` in `[0, TAU_FX)`, as a mathematical
/// function; the zero vector is assigned bearing 0.
pub open spec fn iatan2_spec(v: Vec2Fx) -> int {
    if v.x == 0 && v.y == 0 {
        0
    } else {
        let q = quadrant_angle_spec(abs_spec(v.x as int), abs_spec(v.y as int));
        if v.x >= 0 && v.y >= 0 {
            q
        } else if v.x < 0 && v.y >= 0 {
            PI_FX - q
        } else if v.x < 0 && v.y < 0 {
            PI_FX + q
        } else if q == 0 {
            0
        } else {
            TAU_FX - q
        }
    }
}

/// The first-quadrant bearing lies within a quarter turn.
proof fn lemma_quadrant_angle_range(ax: int, ay: int)
    requires
        0 <= ax,
        0 <= ay,
        ax + ay > 0,
    ensures
        0 <= quadrant_angle_spec(ax, ay) <= HALF_PI_FX,
{
    if ax >= ay {
        let z = tdiv_spec(ay * FP, ax);
        lemma_tdiv_bounds(ay * FP, ax);
        assert(ay * FP >= 0 && z * ax <= ay * FP <= ax * FP) by (nonlinear_arith)
            requires
                0 <= ay <= ax,
                FP == 1_000_000,
                z * ax <= abs_spec(ay * FP),
                z == tdiv_spec(ay * FP, ax),
        ;
        assert(z <= FP) by (nonlinear_arith)
            requires
                z * ax <= ax * FP,
                ax >= 1,
                z >= 0,
        ;
        lemma_atan_unit_range(z);
    } else {
        let z = tdiv_spec(ax * FP, ay);
        lemma_tdiv_bounds(ax * FP, ay);
        assert(ax * FP >= 0 && z * ay <= ax * FP <= ay * FP) by (nonlinear_arith)
            requires
                0 <= ax <= ay,
                FP == 1_000_000,
                z * ay <= abs_spec(ax * FP),
                z == tdiv_spec(ax * FP, ay),
        ;
        assert(z <= FP) by (nonlinear_arith)
            requires
                z * ay <= ay * FP,
                ay >= 1,
                z >= 0,
        ;
        lemma_atan_unit_range(z);
    }
}

/// The bearing of any vector lies in `[0, TAU_FX)`.
pub proof fn lemma_iatan2_range(v: Vec2Fx)
    ensures
        0 <= iatan2_spec(v) < TAU_FX,
{
    if v.x == 0 && v.y == 0 {
    } else {
        lemma_quadrant_angle_range(abs_spec(v.x as int), abs_spec(v.y as int));
    }
}

/// Bearing angle of `v` in `[0, TAU_FX)`, measured counterclockwise from the
/// positive x-axis; the zero vector is assigned bearing 0.
pub fn iatan2(v: Vec2Fx) -> (r: i64)
    requires
        in_range_trig(v),
    ensures
        r == iatan2_spec(v),
        0 <= r < TAU_FX,
{
    proof {
        lemma_iatan2_range(v);
    }
    if v.x == 0 && v.y == 0 {
        return 0;
    }
    let ax: i64 = if v.x >= 0 {
        v.x
    } else {
        -v.x
    };
    let ay: i64 = if v.y >= 0 {
        v.y
    } else {
        -v.y
    };
    proof {
        lemma_quadrant_angle_range(ax as int, ay as int);
    }
    let q: i64 = if ax >= ay {
        proof {
            assert(0 <= ay * FP <= ax * FP) by (nonlinear_arith)
                requires
                    0 <= ay <= ax,
                    FP == 1_000_000,
            ;
            lemma_tdiv_bounds(ay * FP, ax as int);
            let z = tdiv_spec(ay * FP, ax as int);
            assert(z * ax <= ax * FP ==> z <= FP) by (nonlinear_arith)
                requires
                    ax >= 1,
                    z >= 0,
            ;
            assert(ay * FP <= 9_000_000_000_000_000_000) by (nonlinear_arith)
                requires
                    0 <= ay <= COORD_LIMIT,
                    FP == 1_000_000,
                    COORD_LIMIT == 2_000_000_000,
            ;
        }
        atan_unit(tdiv(ay * FP, ax))
    } else {
        proof {
            assert(0 <= ax * FP <= ay * FP) by (nonlinear_arith)
                requires
                    0 <= ax < ay,
                    FP == 1_000_000,
            ;
            lemma_tdiv_bounds(ax * FP, ay as int);
            let z = tdiv_spec(ax * FP, ay as int);
            assert(z * ay <= ay * FP ==> z <= FP) by (nonlinear_arith)
                requires
                    ay >= 1,
                    z >= 0,
            ;
            assert(ax * FP <= 9_000_000_000_000_000_000) by (nonlinear_arith)
                requires
                    0 <= ax <= COORD_LIMIT,
                    FP == 1_000_000,
                    COORD_LIMIT == 2_000_000_000,
            ;
        }
        HALF_PI_FX - atan_unit(tdiv(ax * FP, ay))
    };
    if v.x >= 0 && v.y >= 0 {
        q
    } else if v.x < 0 && v.y >= 0 {
        PI_FX - q
    } else if v.x < 0 && v.y < 0 {
        PI_FX + q
    } else if q == 0 {
        0
    } else {
        TAU_FX - q
    }
}

/// Coordinates small enough for the bearing computation.
pub open spec fn in_range_trig(v: Vec2Fx) -> bool {
    crate::fixed::in_range(v, COORD_LIMIT as int)
}

} // verus!
