use ant_colony::fixed::{clamp_abs, isqrt, len_sq, normalize, tdiv, weight, Vec2Fx, FP};
use ant_colony::trig::{iatan2, icos, isin, HALF_PI_FX, PI_FX, TAU_FX};

#[test]
fn tdiv_truncates_toward_zero() {
    assert_eq!(tdiv(7, 2), 3);
    assert_eq!(tdiv(-7, 2), -3);
    assert_eq!(tdiv(0, 5), 0);
    assert_eq!(tdiv(-1, 1_000_000), 0);
}

#[test]
fn isqrt_exact_values() {
    assert_eq!(isqrt(0), 0);
    assert_eq!(isqrt(1), 1);
    assert_eq!(isqrt(10), 3);
    assert_eq!(isqrt(1_000_000_000_000), 1_000_000);
    assert_eq!(isqrt(4_000_000_000_000), 2_000_000);
    assert_eq!(isqrt(999_999_999_999), 999_999);
}

#[test]
fn clamp_abs_clamps_both_sides() {
    assert_eq!(clamp_abs(5, 10), 5);
    assert_eq!(clamp_abs(15, 10), 10);
    assert_eq!(clamp_abs(-15, 10), -10);
}

#[test]
fn normalize_three_four_five() {
    let v = Vec2Fx {
        x: 3 * FP,
        y: 4 * FP,
    };
    let u = normalize(v);
    assert_eq!(u, Vec2Fx { x: 600_000, y: 800_000 });
    assert_eq!(len_sq(u), FP * FP);
}

#[test]
fn normalize_is_unit_near_threshold() {
    // a vector barely above the degeneracy threshold still normalizes to
    // magnitude one within the fixed tolerance
    let v = Vec2Fx { x: 1_000, y: 1_000 };
    let u = normalize(v);
    let l = len_sq(u);
    assert!((FP * FP - l).abs() <= 4_000_000_000);
}

#[test]
fn weight_scales_by_fraction() {
    let v = Vec2Fx { x: FP, y: -500_000 };
    let w = weight(v, 300_000);
    assert_eq!(w, Vec2Fx { x: 300_000, y: -150_000 });
    // a negative (repulsive) weight flips the direction
    let w2 = weight(v, -FP);
    assert_eq!(w2, Vec2Fx { x: -FP, y: 500_000 });
}

#[test]
fn sine_and_cosine_exact_points() {
    assert_eq!(isin(0), 0);
    assert_eq!(isin(PI_FX), 0);
    assert_eq!(isin(HALF_PI_FX), FP);
    assert_eq!(isin(-HALF_PI_FX), -FP);
    // sin(pi/6) = 1/2 exactly under the rational approximation
    assert_eq!(isin(523_599), 500_000);
    assert_eq!(icos(0), FP);
    assert_eq!(icos(PI_FX), -FP);
    assert_eq!(icos(-PI_FX), -FP);
}

#[test]
fn bearing_of_the_axes() {
    assert_eq!(iatan2(Vec2Fx { x: FP, y: 0 }), 0);
    assert_eq!(iatan2(Vec2Fx { x: 0, y: FP }), HALF_PI_FX);
    assert_eq!(iatan2(Vec2Fx { x: -FP, y: 0 }), PI_FX);
    assert_eq!(iatan2(Vec2Fx { x: 0, y: -FP }), TAU_FX - HALF_PI_FX);
    assert_eq!(iatan2(Vec2Fx { x: FP, y: FP }), 785_398);
    // the zero vector is assigned bearing 0, not an error
    assert_eq!(iatan2(Vec2Fx { x: 0, y: 0 }), 0);
}

#[test]
fn bearing_stays_in_one_turn() {
    let samples: Vec<Vec2Fx> = vec![
        Vec2Fx { x: 17 * FP, y: -3 * FP },
        Vec2Fx { x: -9 * FP, y: -2 * FP },
        Vec2Fx { x: -1, y: 1 },
        Vec2Fx { x: 123, y: -456 },
    ];
    for v in samples {
        let a = iatan2(v);
        assert!(0 <= a && a < TAU_FX);
    }
}
