//! The per-tick behavior engine: the wrap-safe vision-cone check, the
//! pheromone-following rule, and the desired-direction blender that mixes
//! momentum, random drift, pheromone attraction and goal hints into one
//! unit heading.

use vstd::prelude::*;
use crate::fixed::{
    FP, MIN_NORM, COORD_LIMIT, POS_LIMIT, Vec2Fx, in_range, is_unit, len_sq, len_sq_spec,
    normalize, normalize_spec, weight, weight_spec, tdiv, tdiv_spec, lemma_tdiv_abs_le,
    lemma_tdiv_bounds, abs_spec,
};
use crate::trig::{PI_FX, TAU_FX, iatan2, iatan2_spec, isin, isin_spec, icos, icos_spec};
use crate::ant::{Ant, AntState};
use crate::grid::MapPos;
use crate::pheromone::{Pheromone, PheromoneKind, mark_wf};
use crate::rng::{AntRng, chacha8_word, rand_unit_spec, advanced_pos_spec};

verus! {

/// Damping of the random drift: the length draw is offset by
/// `0.3 / 2 = 0.15` world units.
pub const RANDOM_WALK_OFFSET: i64 = 150_000;

/// Distance under which a wandering ant senses food directly (50 world
/// units).
pub const FOOD_HINT_THRESHOLD: i64 = 50_000_000;

/// Fixed weight of the food and home hint pulls (0.3 world units).
pub const HINT_WEIGHT: i64 = 300_000;

/// An angle lies within a lower/upper bound pair, where the bounds may
/// exceed a single turn: the angle may match directly or shifted by one
/// full turn either way. This answers "which side of the circle" near the
/// 0 / 2-pi seam, where centering the cone on the facing direction makes
/// the bounds stick out of `[0, TAU_FX]`. Fixed-point angles are always
/// finite, so no not-a-number case exists; degenerate (zero-length)
/// direction vectors are rejected before any bearing is computed.
pub open spec fn angle_within_bounds_spec(theta: int, lower: int, upper: int) -> bool {
    ||| lower <= theta <= upper
    ||| lower + TAU_FX <= theta <= upper + TAU_FX
    ||| lower - TAU_FX <= theta <= upper - TAU_FX
}

/// Whether `theta` falls inside the (possibly seam-crossing) bound pair.
pub fn angle_within_bounds(theta: i64, bound_lower: i64, bound_upper: i64) -> (r: bool)
    requires
        -100 * TAU_FX <= theta <= 100 * TAU_FX,
        -100 * TAU_FX <= bound_lower <= 100 * TAU_FX,
        -100 * TAU_FX <= bound_upper <= 100 * TAU_FX,
    ensures
        r == angle_within_bounds_spec(theta as int, bound_lower as int, bound_upper as int),
{
    (theta >= bound_lower && theta <= bound_upper) || (theta >= bound_lower + TAU_FX && theta
        <= bound_upper + TAU_FX) || (theta >= bound_lower - TAU_FX && theta <= bound_upper
        - TAU_FX)
}

/// Which scents an ant follows: never its own kind — food trails while
/// wandering, home trails while hauling food.
pub open spec fn ant_should_follow_spec(ant_state: AntState, pher_kind: PheromoneKind) -> bool {
    match (ant_state, pher_kind) {
        (AntState::Wandering, PheromoneKind::HomeThisWay) => false,
        (AntState::Wandering, PheromoneKind::FoodThisWay) => true,
        (AntState::HasFood, PheromoneKind::HomeThisWay) => true,
        (AntState::HasFood, PheromoneKind::FoodThisWay) => false,
    }
}

/// Whether an ant in `ant_state` follows marks of `pher_kind`.
pub fn ant_should_follow(ant_state: AntState, pher_kind: PheromoneKind) -> (r: bool)
    ensures
        r == ant_should_follow_spec(ant_state, pher_kind),
{
    match (ant_state, pher_kind) {
        (AntState::Wandering, PheromoneKind::HomeThisWay) => false,
        (AntState::Wandering, PheromoneKind::FoodThisWay) => true,
        (AntState::HasFood, PheromoneKind::HomeThisWay) => true,
        (AntState::HasFood, PheromoneKind::FoodThisWay) => false,
    }
}

/// The facing bearing of an ant, in `[0, TAU_FX)`; a zero facing (not yet
/// initialized) has bearing 0.
pub open spec fn ant_dir_spec(a: Ant) -> int {
    iatan2_spec(a.facing)
}

/// Lower edge of the vision cone.
pub open spec fn vision_lower_spec(a: Ant) -> int {
    ant_dir_spec(a) - tdiv_spec(a.vision_arc as int, 2)
}

/// Upper edge of the vision cone.
pub open spec fn vision_upper_spec(a: Ant) -> int {
    ant_dir_spec(a) + tdiv_spec(a.vision_arc as int, 2)
}

/// The small random vector of one tick: a length draw (offset so it tends
/// slightly outward) rotated by an angle draw over the full circle.
pub open spec fn random_offset_spec(draw_angle: int, draw_len: int) -> Vec2Fx {
    let angle = tdiv_spec(draw_angle * PI_FX, FP as int);
    let len = draw_len + RANDOM_WALK_OFFSET;
    Vec2Fx {
        x: tdiv_spec(len * icos_spec(angle), FP as int) as i64,
        y: tdiv_spec(len * isin_spec(angle), FP as int) as i64,
    }
}

/// The momentum accumulator after one tick's drift: half the random offset
/// is added in, so wandering accumulates smoothly instead of resetting.
pub open spec fn drifted_desire_spec(desire: Vec2Fx, ro: Vec2Fx) -> Vec2Fx {
    Vec2Fx {
        x: (desire.x + tdiv_spec(ro.x as int, 2)) as i64,
        y: (desire.y + tdiv_spec(ro.y as int, 2)) as i64,
    }
}

/// The ant after the drift step: momentum nudged by the random offset and
/// the two draws consumed from its stream.
pub open spec fn drifted_ant_spec(a: Ant) -> Ant {
    let w1 = chacha8_word(a.rng.seed, a.rng.word_pos);
    let p1 = advanced_pos_spec(a.rng.word_pos);
    let w2 = chacha8_word(a.rng.seed, p1);
    let ro = random_offset_spec(rand_unit_spec(w1), rand_unit_spec(w2));
    Ant {
        secret_desire: drifted_desire_spec(a.secret_desire, ro),
        rng: AntRng { seed: a.rng.seed, word_pos: advanced_pos_spec(p1) },
        ..a
    }
}

/// What one mark adds to the accumulated direction: nothing unless the ant
/// follows its kind, it lies within vision range, beyond the degeneracy
/// radius, and its bearing falls inside the vision cone; otherwise the
/// bearing unit vector weighted by the mark's intensity.
pub open spec fn mark_step_spec(cum: Vec2Fx, m: Pheromone, a: Ant) -> Vec2Fx {
    let to = m.position.sub_spec(a.position);
    let d2 = len_sq_spec(to);
    if ant_should_follow_spec(a.state, m.kind) && d2 <= a.vision_range * a.vision_range && d2
        >= MIN_NORM * MIN_NORM && angle_within_bounds_spec(
        iatan2_spec(to),
        vision_lower_spec(a),
        vision_upper_spec(a),
    ) {
        cum.cadd_vec_spec(weight_spec(normalize_spec(to), m.intensity as int))
    } else {
        cum
    }
}

/// The accumulated pheromone attraction over a list of marks.
pub open spec fn accum_marks_spec(cum: Vec2Fx, marks: Seq<Pheromone>, a: Ant) -> Vec2Fx
    decreases marks.len(),
{
    if marks.len() == 0 {
        cum
    } else {
        mark_step_spec(accum_marks_spec(cum, marks.drop_last(), a), marks.last(), a)
    }
}

/// What one food source adds while wandering: a fixed-weight pull toward it
/// when it lies within the hint threshold (and beyond the degeneracy
/// radius).
pub open spec fn food_step_spec(cum: Vec2Fx, f: Vec2Fx, pos: Vec2Fx) -> Vec2Fx {
    let to = f.sub_spec(pos);
    let d2 = len_sq_spec(to);
    if d2 < FOOD_HINT_THRESHOLD * FOOD_HINT_THRESHOLD && d2 >= MIN_NORM * MIN_NORM {
        cum.cadd_vec_spec(weight_spec(normalize_spec(to), HINT_WEIGHT as int))
    } else {
        cum
    }
}

/// The accumulated food hints over all food sources.
pub open spec fn accum_foods_spec(cum: Vec2Fx, foods: Seq<Vec2Fx>, pos: Vec2Fx) -> Vec2Fx
    decreases foods.len(),
{
    if foods.len() == 0 {
        cum
    } else {
        food_step_spec(accum_foods_spec(cum, foods.drop_last(), pos), foods.last(), pos)
    }
}

/// The home hint while hauling food: a fixed-weight pull toward the home
/// point, guarded against a degenerate direction.
pub open spec fn home_hint_spec(cum: Vec2Fx, home: Vec2Fx, pos: Vec2Fx) -> Vec2Fx {
    let to = home.sub_spec(pos);
    if len_sq_spec(to) >= MIN_NORM * MIN_NORM {
        cum.cadd_vec_spec(weight_spec(normalize_spec(to), HINT_WEIGHT as int))
    } else {
        cum
    }
}

/// The heading an ant chooses, as a mathematical function of the ant, the
/// visible marks, the food sources and the home point: momentum plus drift,
/// plus pheromone attraction (normalized when non-degenerate), plus goal
/// hints, falling back to the current facing and then to the x-axis when
/// everything is negligible, finally normalized to a unit vector.
pub open spec fn desired_direction_spec(
    a: Ant,
    marks: Seq<Pheromone>,
    foods: Seq<Vec2Fx>,
    home: Vec2Fx,
) -> Vec2Fx {
    let cum1 = accum_marks_spec(drifted_ant_spec(a).secret_desire, marks, a);
    let cum2 = if len_sq_spec(cum1) >= MIN_NORM * MIN_NORM {
        normalize_spec(cum1)
    } else {
        cum1
    };
    let cum3 = match a.state {
        AntState::Wandering => accum_foods_spec(cum2, foods, a.position),
        AntState::HasFood => home_hint_spec(cum2, home, a.position),
    };
    let cum4 = if len_sq_spec(cum3) < MIN_NORM * MIN_NORM {
        a.facing
    } else {
        cum3
    };
    let cum5 = if len_sq_spec(cum4) < MIN_NORM * MIN_NORM {
        Vec2Fx { x: FP, y: 0 }
    } else {
        cum4
    };
    normalize_spec(cum5)
}

/// Computes the heading the ant wants this tick, updating the ant's
/// momentum accumulator and consuming two draws from its stream. The result
/// is always a well-defined unit vector, whatever the surroundings
/// (the chosen-direction law: magnitude one up to the fixed tolerance, with
/// no undefined case, even with no marks, no momentum and no facing).
pub fn ant_desired_direction(
    ant: &mut Ant,
    marks: &Vec<Pheromone>,
    foods: &Vec<Vec2Fx>,
    home: Vec2Fx,
) -> (dir: Vec2Fx)
    requires
        old(ant).wf(),
        forall|i: int| 0 <= i < marks@.len() ==> mark_wf(#[trigger] marks@[i]),
        forall|i: int| 0 <= i < foods@.len() ==> in_range(#[trigger] foods@[i], POS_LIMIT as int),
        in_range(home, POS_LIMIT as int),
    ensures
        dir == desired_direction_spec(*old(ant), marks@, foods@, home),
        is_unit(dir),
        in_range(dir, FP as int),
        *final(ant) == drifted_ant_spec(*old(ant)),
{
    let draw_angle: i64 = ant.rng.rand_uniform();
    let draw_len: i64 = ant.rng.rand_uniform();
    proof {
        assert(-PI_FX * FP <= draw_angle * PI_FX <= PI_FX * FP) by (nonlinear_arith)
            requires
                -FP <= draw_angle <= FP,
                PI_FX == 3_141_593,
                FP == 1_000_000,
        ;
        lemma_tdiv_abs_le(draw_angle * PI_FX, FP as int);
        lemma_tdiv_bounds(draw_angle * PI_FX, FP as int);
        let q = tdiv_spec(draw_angle * PI_FX, FP as int);
        assert(-PI_FX <= q <= PI_FX) by (nonlinear_arith)
            requires
                abs_spec(q) * FP <= abs_spec(draw_angle * PI_FX),
                abs_spec(draw_angle * PI_FX) <= PI_FX * FP,
                abs_spec(q) >= 0,
                PI_FX == 3_141_593,
                FP == 1_000_000,
        ;
    }
    let angle: i64 = tdiv(draw_angle * PI_FX, FP);
    let len_off: i64 = draw_len + RANDOM_WALK_OFFSET;
    let co: i64 = icos(angle);
    let si: i64 = isin(angle);
    proof {
        assert(-2 * FP * FP <= len_off * co <= 2 * FP * FP && -2 * FP * FP <= len_off * si <= 2
            * FP * FP && abs_spec(len_off * co) <= 2 * FP * FP && abs_spec(len_off * si) <= 2 * FP
            * FP) by (nonlinear_arith)
            requires
                -2 * FP <= len_off <= 2 * FP,
                -FP <= co <= FP,
                -FP <= si <= FP,
                FP == 1_000_000,
        ;
        lemma_tdiv_bounds(len_off * co, FP as int);
        lemma_tdiv_bounds(len_off * si, FP as int);
        let qx = abs_spec(tdiv_spec(len_off * co, FP as int));
        let qy = abs_spec(tdiv_spec(len_off * si, FP as int));
        assert(qx <= 2 * FP && qy <= 2 * FP) by (nonlinear_arith)
            requires
                qx * FP <= abs_spec(len_off * co),
                qy * FP <= abs_spec(len_off * si),
                abs_spec(len_off * co) <= 2 * FP * FP,
                abs_spec(len_off * si) <= 2 * FP * FP,
                qx >= 0,
                qy >= 0,
                FP == 1_000_000,
        ;
    }
    let ro = Vec2Fx { x: tdiv(len_off * co, FP), y: tdiv(len_off * si, FP) };
    proof {
        lemma_tdiv_bounds(ro.x as int, 2);
        lemma_tdiv_bounds(ro.y as int, 2);
        lemma_tdiv_abs_le(ro.x as int, 2);
        lemma_tdiv_abs_le(ro.y as int, 2);
    }
    ant.secret_desire = Vec2Fx {
        x: ant.secret_desire.x + tdiv(ro.x, 2),
        y: ant.secret_desire.y + tdiv(ro.y, 2),
    };
    proof {
        assert(*ant == drifted_ant_spec(*old(ant)));
        assert(in_range(ant.secret_desire, 4 * FP as int));
    }
    let ghost a0 = *old(ant);
    proof {
        assert(in_range(drifted_ant_spec(a0).secret_desire, 4 * FP as int));
    }
    // attractive force from pheromones within the vision cone
    let mut cum: Vec2Fx = ant.secret_desire;
    let ant_dir: i64 = iatan2(ant.facing);
    let half_arc: i64 = tdiv(ant.vision_arc, 2);
    proof {
        lemma_tdiv_bounds(a0.vision_arc as int, 2);
        lemma_tdiv_abs_le(a0.vision_arc as int, 2);
    }
    let lower: i64 = ant_dir - half_arc;
    let upper: i64 = ant_dir + half_arc;
    let mut k: usize = 0;
    while k < marks.len()
        invariant
            a0.wf(),
            a0 == *old(ant),
            *ant == drifted_ant_spec(a0),
            forall|i: int| 0 <= i < marks@.len() ==> mark_wf(#[trigger] marks@[i]),
            k <= marks@.len(),
            lower == vision_lower_spec(a0),
            upper == vision_upper_spec(a0),
            -2 * TAU_FX <= lower <= 2 * TAU_FX,
            -2 * TAU_FX <= upper <= 2 * TAU_FX,
            cum == accum_marks_spec(drifted_ant_spec(a0).secret_desire, marks@.take(k as int), a0),
            in_range(cum, COORD_LIMIT as int),
        decreases marks@.len() - k,
    {
        let m: Pheromone = marks[k];
        proof {
            assert(marks@.take(k + 1).drop_last() =~= marks@.take(k as int));
            assert(marks@.take(k + 1).last() == m);
            assert(mark_wf(marks@[k as int]));
        }
        let follow: bool = ant_should_follow(ant.state, m.kind);
        if follow {
            let to: Vec2Fx = m.position.sub(ant.position);
            let d2: i64 = len_sq(to);
            proof {
                assert(a0.vision_range * a0.vision_range <= 10_000_000_000_000_000) by (nonlinear_arith)
                    requires
                        0 <= a0.vision_range <= 100_000_000,
                ;
            }
            if d2 <= ant.vision_range * ant.vision_range && d2 >= MIN_NORM * MIN_NORM {
                let bearing: i64 = iatan2(to);
                if angle_within_bounds(bearing, lower, upper) {
                    let unit: Vec2Fx = normalize(to);
                    cum = cum.cadd_vec(weight(unit, m.intensity));
                }
            }
        }
        k = k + 1;
    }
    proof {
        assert(marks@.take(marks@.len() as int) =~= marks@);
    }
    // normalize the accumulated pull (guarded against a degenerate vector)
    let d2: i64 = len_sq(cum);
    if d2 >= MIN_NORM * MIN_NORM {
        cum = normalize(cum);
    }
    let ghost cum2 = cum;
    // attractive force from food or home
    match ant.state {
        AntState::Wandering => {
            let mut k: usize = 0;
            while k < foods.len()
                invariant
                    a0.wf(),
                    a0 == *old(ant),
                    *ant == drifted_ant_spec(a0),
                    forall|i: int|
                        0 <= i < foods@.len() ==> in_range(#[trigger] foods@[i], POS_LIMIT as int),
                    k <= foods@.len(),
                    cum == accum_foods_spec(cum2, foods@.take(k as int), a0.position),
                    in_range(cum, COORD_LIMIT as int),
                decreases foods@.len() - k,
            {
                let f: Vec2Fx = foods[k];
                proof {
                    assert(foods@.take(k + 1).drop_last() =~= foods@.take(k as int));
                    assert(foods@.take(k + 1).last() == f);
                    assert(in_range(foods@[k as int], POS_LIMIT as int));
                }
                let to: Vec2Fx = f.sub(ant.position);
                let d2: i64 = len_sq(to);
                if d2 < FOOD_HINT_THRESHOLD * FOOD_HINT_THRESHOLD && d2 >= MIN_NORM * MIN_NORM {
                    let unit: Vec2Fx = normalize(to);
                    cum = cum.cadd_vec(weight(unit, HINT_WEIGHT));
                }
                k = k + 1;
            }
            proof {
                assert(foods@.take(foods@.len() as int) =~= foods@);
            }
        },
        AntState::HasFood => {
            let to: Vec2Fx = home.sub(ant.position);
            let d2: i64 = len_sq(to);
            if d2 >= MIN_NORM * MIN_NORM {
                let unit: Vec2Fx = normalize(to);
                cum = cum.cadd_vec(weight(unit, HINT_WEIGHT));
            }
        },
    }
    // fall back to the current facing, then to the x-axis, when negligible
    let d3: i64 = len_sq(cum);
    if d3 < MIN_NORM * MIN_NORM {
        cum = ant.facing;
    }
    let d4: i64 = len_sq(cum);
    if d4 < MIN_NORM * MIN_NORM {
        cum = Vec2Fx { x: FP, y: 0 };
    }
    normalize(cum)
}

/// Distance within which food and home are detected (20 world units).
pub const DETECTION_RADIUS: i64 = 20_000_000;

/// Some food source lies within `radius` (inclusive) of `pos`.
pub open spec fn any_food_within_spec(foods: Seq<Vec2Fx>, pos: Vec2Fx, radius: int) -> bool {
    exists|i: int|
        0 <= i < foods.len() && crate::pheromone::dist_sq_spec(pos, foods[i]) <= radius * radius
}

/// Whether some food source lies within `radius` of `pos`.
pub fn any_food_within(foods: &Vec<Vec2Fx>, pos: Vec2Fx, radius: i64) -> (r: bool)
    requires
        in_range(pos, POS_LIMIT as int),
        forall|i: int| 0 <= i < foods@.len() ==> in_range(#[trigger] foods@[i], POS_LIMIT as int),
        0 <= radius <= 100_000_000,
    ensures
        r == any_food_within_spec(foods@, pos, radius as int),
{
    let mut k: usize = 0;
    while k < foods.len()
        invariant
            in_range(pos, POS_LIMIT as int),
            forall|i: int| 0 <= i < foods@.len() ==> in_range(#[trigger] foods@[i], POS_LIMIT as int),
            0 <= radius <= 100_000_000,
            k <= foods@.len(),
            forall|i: int|
                0 <= i < k ==> crate::pheromone::dist_sq_spec(pos, foods@[i]) > radius * radius,
        decreases foods@.len() - k,
    {
        let d2: i64 = len_sq(pos.sub(foods[k]));
        proof {
            assert(radius * radius <= 10_000_000_000_000_000) by (nonlinear_arith)
                requires
                    0 <= radius <= 100_000_000,
            ;
        }
        if d2 <= radius * radius {
            return true;
        }
        k = k + 1;
    }
    false
}

/// An about-face: the momentum accumulator and the facing are both
/// negated, so the ant retraces instead of continuing outward.
pub open spec fn about_face_spec(a: Ant, st: AntState) -> Ant {
    Ant { state: st, secret_desire: a.secret_desire.neg_spec(), facing: a.facing.neg_spec(), ..a }
}

/// The ant after this tick's state-transition check: a wandering ant
/// within the detection radius of any food source turns around hauling
/// food; a hauling ant strictly within the detection radius of home turns
/// around wandering; otherwise nothing changes.
pub open spec fn transitioned_spec(a: Ant, foods: Seq<Vec2Fx>, home: Vec2Fx) -> Ant {
    match a.state {
        AntState::Wandering => {
            if any_food_within_spec(foods, a.position, DETECTION_RADIUS as int) {
                about_face_spec(a, AntState::HasFood)
            } else {
                a
            }
        },
        AntState::HasFood => {
            if crate::pheromone::dist_sq_spec(a.position, home) < DETECTION_RADIUS
                * DETECTION_RADIUS {
                about_face_spec(a, AntState::Wandering)
            } else {
                a
            }
        },
    }
}

/// Runs this tick's state-transition check: a wandering ant within the
/// detection radius of any food source starts hauling food; a hauling ant
/// strictly within the detection radius of home goes back to wandering.
/// Either transition is an about-face: the momentum accumulator and the
/// facing are negated, so the ant immediately begins retracing.
pub fn ant_transition(ant: &mut Ant, foods: &Vec<Vec2Fx>, home: Vec2Fx)
    requires
        old(ant).wf(),
        forall|i: int| 0 <= i < foods@.len() ==> in_range(#[trigger] foods@[i], POS_LIMIT as int),
        in_range(home, POS_LIMIT as int),
    ensures
        *final(ant) == transitioned_spec(*old(ant), foods@, home),
        final(ant).wf(),
{
    match ant.state {
        AntState::Wandering => {
            if any_food_within(foods, ant.position, DETECTION_RADIUS) {
                ant.state = AntState::HasFood;
                ant.secret_desire = ant.secret_desire.neg();
                ant.facing = ant.facing.neg();
            }
        },
        AntState::HasFood => {
            let d2: i64 = len_sq(ant.position.sub(home));
            if d2 < DETECTION_RADIUS * DETECTION_RADIUS {
                ant.state = AntState::Wandering;
                ant.secret_desire = ant.secret_desire.neg();
                ant.facing = ant.facing.neg();
            }
        },
    }
}

/// The heading actually walked: the chosen direction blended with the
/// current facing (momentum weight one) and re-normalized, keeping the
/// chosen direction when the blend degenerates.
pub open spec fn blended_heading_spec(chosen: Vec2Fx, facing: Vec2Fx) -> Vec2Fx {
    let blended = Vec2Fx { x: (chosen.x + facing.x) as i64, y: (chosen.y + facing.y) as i64 };
    if len_sq_spec(blended) >= MIN_NORM * MIN_NORM {
        normalize_spec(blended)
    } else {
        chosen
    }
}

/// The tentative displacement of one tick: the heading scaled by speed and
/// the elapsed time.
pub open spec fn step_offset_spec(dir: Vec2Fx, speed: int, dt: int) -> Vec2Fx {
    Vec2Fx {
        x: tdiv_spec(tdiv_spec(dir.x * speed, FP as int) * dt, FP as int) as i64,
        y: tdiv_spec(tdiv_spec(dir.y * speed, FP as int) * dt, FP as int) as i64,
    }
}

/// One axis of the boundary/walkability check: the axis bounces when the
/// tentative coordinate leaves the map or when the destination tile is not
/// walkable and differs from the current tile on this axis.
pub open spec fn axis_bounce_spec(
    potential_c: int,
    world_c: int,
    pot_tile_c: int,
    cur_tile_c: int,
    walkable: bool,
) -> bool {
    potential_c > world_c || potential_c < 0 || (!walkable && pot_tile_c != cur_tile_c)
}

/// The ant after movement resolution, as a mathematical function of the
/// ant (whose accumulator already holds the chosen heading), the map, the
/// chosen heading and the time step: facing turns toward the tentative
/// (pre-bounce) target, each axis that would leave the map or enter
/// non-walkable terrain has its displacement and accumulator component
/// sign-flipped, and the position advances by the resolved displacement.
/// Without a z-level 0 no bounce check applies.
pub open spec fn move_resolve_spec(
    a: Ant,
    map: crate::grid::WorldMap,
    chosen: Vec2Fx,
    dt: int,
) -> Ant {
    let dir = blended_heading_spec(chosen, a.facing);
    let off = step_offset_spec(dir, a.speed as int, dt);
    let potential = Vec2Fx {
        x: (a.position.x + off.x) as i64,
        y: (a.position.y + off.y) as i64,
    };
    let ptx = crate::grid::tile_coord_spec(potential.x as int);
    let pty = crate::grid::tile_coord_spec(potential.y as int);
    let ctx = crate::grid::tile_coord_spec(a.position.x as int);
    let cty = crate::grid::tile_coord_spec(a.position.y as int);
    let has0 = map.has_level(0);
    let walk = has0 && map.level_at(0).walkable_spec(
        MapPos { x: ptx as u32, y: pty as u32 },
    );
    let fx = has0 && axis_bounce_spec(potential.x as int, 800 * FP as int, ptx, ctx, walk);
    let fy = has0 && axis_bounce_spec(potential.y as int, 800 * FP as int, pty, cty, walk);
    let off2x: int = if fx {
        -off.x
    } else {
        off.x as int
    };
    let off2y: int = if fy {
        -off.y
    } else {
        off.y as int
    };
    let desire2 = Vec2Fx {
        x: (if fx {
            -chosen.x
        } else {
            chosen.x as int
        }) as i64,
        y: (if fy {
            -chosen.y
        } else {
            chosen.y as int
        }) as i64,
    };
    let facing2 = if tdiv_spec(a.speed * dt, FP as int) >= MIN_NORM {
        dir
    } else {
        a.facing
    };
    Ant {
        secret_desire: desire2,
        facing: facing2,
        position: Vec2Fx {
            x: crate::fixed::clamp_spec(a.position.x + off2x, POS_LIMIT as int) as i64,
            y: crate::fixed::clamp_spec(a.position.y + off2y, POS_LIMIT as int) as i64,
        },
        ..a
    }
}

/// The whole per-ant movement step, as a mathematical function: the state
/// transition, the stale-reference cleanup of the queried neighborhood
/// buckets, the heading choice and the movement resolution.
pub open spec fn step_ant_spec(
    a: Ant,
    map: crate::grid::WorldMap,
    slots: Seq<crate::pheromone::MarkSlot>,
    bviews: Seq<Seq<crate::pheromone::MarkId>>,
    foods: Seq<Vec2Fx>,
    home: Vec2Fx,
    dt: int,
) -> Ant {
    let a1 = transitioned_spec(a, foods, home);
    let marks = crate::pheromone::collect_spec(
        slots,
        crate::grid::neighborhood_spec(a1.position),
        bviews,
    );
    let chosen = desired_direction_spec(a1, marks, foods, home);
    let a2 = drifted_ant_spec(a1);
    let a3 = Ant { secret_desire: chosen, ..a2 };
    move_resolve_spec(a3, map, chosen, dt)
}

/// The neighborhood buckets after the movement step's lazy cleanup.
pub open spec fn step_bview_spec(
    a: Ant,
    slots: Seq<crate::pheromone::MarkSlot>,
    bviews: Seq<Seq<crate::pheromone::MarkId>>,
    foods: Seq<Vec2Fx>,
    home: Vec2Fx,
) -> Seq<Seq<crate::pheromone::MarkId>> {
    let a1 = transitioned_spec(a, foods, home);
    crate::pheromone::cleaned_buckets_spec(
        slots,
        crate::grid::neighborhood_spec(a1.position),
        bviews,
    )
}

/// Moves one ant through one tick: the state transition, the heading
/// choice over the local pheromone neighborhood (healing stale bucket
/// references on the way), the momentum blend and the boundary bounce.
#[verifier::rlimit(100)]
pub fn update_ant_movement(
    ant: &mut Ant,
    map: &crate::grid::WorldMap,
    field: &mut crate::pheromone::PheromoneField,
    foods: &Vec<Vec2Fx>,
    home: Vec2Fx,
    dt: i64,
)
    requires
        old(ant).wf(),
        map.wf(),
        old(field).wf(),
        forall|i: int| 0 <= i < foods@.len() ==> in_range(#[trigger] foods@[i], POS_LIMIT as int),
        in_range(home, POS_LIMIT as int),
        0 <= dt <= crate::pheromone::MAX_TICK_DT,
    ensures
        final(ant).wf(),
        final(field).wf(),
        *final(ant) == step_ant_spec(
            *old(ant),
            *map,
            old(field).slots@,
            old(field).bview(),
            foods@,
            home,
            dt as int,
        ),
        final(field).slots@ == old(field).slots@,
        final(field).bview() == step_bview_spec(
            *old(ant),
            old(field).slots@,
            old(field).bview(),
            foods@,
            home,
        ),
{
    let ghost a0 = *old(ant);
    // state transitions precede the heading computation within this tick
    ant_transition(ant, foods, home);
    let ghost a1 = *ant;
    let neighborhood: Vec<MapPos> = crate::grid::get_local_neighborhood(ant.position);
    let marks: Vec<Pheromone> = field.collect_local_marks(&neighborhood);
    proof {
        assert(forall|i: int|
            0 <= i < marks@.len() ==> mark_wf(#[trigger] marks@[i])) by {
            lemma_collect_marks_wf(old(field).slots@, neighborhood@, old(field).bview(), *old(field));
        }
    }
    let chosen: Vec2Fx = ant_desired_direction(ant, &marks, foods, home);
    ant.secret_desire = chosen;
    resolve_movement(ant, map, chosen, dt);
}

/// Resolves one tick of movement for an ant whose accumulator already
/// holds the chosen heading: blends the heading with the current facing,
/// turns the ant toward the tentative target, bounces any axis that would
/// leave the map or enter non-walkable terrain (sign-flipping that axis of
/// the displacement and of the accumulator), and translates.
#[verifier::rlimit(60)]
pub fn resolve_movement(ant: &mut Ant, map: &crate::grid::WorldMap, chosen: Vec2Fx, dt: i64)
    requires
        old(ant).wf(),
        map.wf(),
        in_range(chosen, FP as int),
        0 <= dt <= crate::pheromone::MAX_TICK_DT,
    ensures
        final(ant).wf(),
        *final(ant) == move_resolve_spec(*old(ant), *map, chosen, dt as int),
{
    let ghost a3 = *old(ant);
    // blend with momentum, then resolve against bounds and walkability
    let blended = Vec2Fx { x: chosen.x + ant.facing.x, y: chosen.y + ant.facing.y };
    let dir: Vec2Fx = if len_sq(blended) >= MIN_NORM * MIN_NORM {
        normalize(blended)
    } else {
        chosen
    };
    proof {
        assert(dir == blended_heading_spec(chosen, a3.facing));
        assert(in_range(dir, FP as int));
        assert(-FP * 1_000_000_000 <= dir.x * a3.speed <= FP * 1_000_000_000 && -FP
            * 1_000_000_000 <= dir.y * a3.speed <= FP * 1_000_000_000) by (nonlinear_arith)
            requires
                -FP <= dir.x <= FP,
                -FP <= dir.y <= FP,
                0 <= a3.speed <= 1_000_000_000,
                FP == 1_000_000,
        ;
        lemma_tdiv_bounds(dir.x * a3.speed, FP as int);
        lemma_tdiv_bounds(dir.y * a3.speed, FP as int);
        let ox1 = tdiv_spec(dir.x * a3.speed, FP as int);
        let oy1 = tdiv_spec(dir.y * a3.speed, FP as int);
        assert(abs_spec(ox1) <= 1_000_000_000 && abs_spec(oy1) <= 1_000_000_000) by (nonlinear_arith)
            requires
                abs_spec(ox1) * FP <= abs_spec(dir.x * a3.speed),
                abs_spec(oy1) * FP <= abs_spec(dir.y * a3.speed),
                abs_spec(dir.x * a3.speed) <= FP * 1_000_000_000,
                abs_spec(dir.y * a3.speed) <= FP * 1_000_000_000,
                abs_spec(ox1) >= 0,
                abs_spec(oy1) >= 0,
                FP == 1_000_000,
        ;
        assert(-1_000_000_000 * 3_600_000_000 <= ox1 * dt <= 1_000_000_000 * 3_600_000_000
            && -1_000_000_000 * 3_600_000_000 <= oy1 * dt <= 1_000_000_000
            * 3_600_000_000 && abs_spec(ox1 * dt) <= 3_600_000_000_000_000_000 && abs_spec(
            oy1 * dt,
        ) <= 3_600_000_000_000_000_000) by (nonlinear_arith)
            requires
                -1_000_000_000 <= ox1 <= 1_000_000_000,
                -1_000_000_000 <= oy1 <= 1_000_000_000,
                0 <= dt <= 3_600_000_000,
        ;
        lemma_tdiv_bounds(ox1 * dt, FP as int);
        lemma_tdiv_bounds(oy1 * dt, FP as int);
        let ox = tdiv_spec(ox1 * dt, FP as int);
        let oy = tdiv_spec(oy1 * dt, FP as int);
        assert(abs_spec(ox) <= 3_600_000_000_000 && abs_spec(oy)
            <= 3_600_000_000_000) by (nonlinear_arith)
            requires
                abs_spec(ox) * FP <= abs_spec(ox1 * dt),
                abs_spec(oy) * FP <= abs_spec(oy1 * dt),
                abs_spec(ox1 * dt) <= 3_600_000_000_000_000_000,
                abs_spec(oy1 * dt) <= 3_600_000_000_000_000_000,
                abs_spec(ox) >= 0,
                abs_spec(oy) >= 0,
                FP == 1_000_000,
        ;
    }
    let ox: i64 = tdiv(tdiv(dir.x * ant.speed, FP) * dt, FP);
    let oy: i64 = tdiv(tdiv(dir.y * ant.speed, FP) * dt, FP);
    let potential = Vec2Fx { x: ant.position.x + ox, y: ant.position.y + oy };
    let pt: MapPos = crate::grid::world_pos_to_two_d_index(potential);
    let ct: MapPos = crate::grid::world_pos_to_two_d_index(ant.position);
    let world_edge: i64 = 800 * FP;
    let mut ox2: i64 = ox;
    let mut oy2: i64 = oy;
    let mut desire2: Vec2Fx = chosen;
    match map.find_level(0) {
        Some(_) => {
            let walk: bool = map.is_tile_walkable_at(0, pt);
            if potential.x > world_edge || potential.x < 0 || (!walk && pt.x != ct.x) {
                ox2 = -ox;
                desire2 = Vec2Fx { x: -desire2.x, y: desire2.y };
            }
            if potential.y > world_edge || potential.y < 0 || (!walk && pt.y != ct.y) {
                oy2 = -oy;
                desire2 = Vec2Fx { x: desire2.x, y: -desire2.y };
            }
        },
        None => {},
    }
    ant.secret_desire = desire2;
    // face the tentative (pre-bounce) target before translating
    proof {
        assert(ant.speed == a3.speed && 0 <= ant.speed <= 1_000_000_000);
        assert(0 <= ant.speed * dt <= 3_600_000_000_000_000_000) by (nonlinear_arith)
            requires
                0 <= ant.speed <= 1_000_000_000,
                0 <= dt <= 3_600_000_000,
        ;
    }
    let step_len: i64 = tdiv(ant.speed * dt, FP);
    if step_len >= MIN_NORM {
        ant.facing = dir;
    }
    ant.position = Vec2Fx {
        x: crate::fixed::clamp_abs(ant.position.x + ox2, POS_LIMIT),
        y: crate::fixed::clamp_abs(ant.position.y + oy2, POS_LIMIT),
    };
    proof {
        assert(*ant == move_resolve_spec(a3, *map, chosen, dt as int));
    }
}

/// The ant after the deposit-scheduling step: the countdown drops by
/// `dt * speed` (faster ants deposit more densely in space), and on expiry
/// it resets to the deposit interval.
pub open spec fn deposit_tick_ant_spec(a: Ant, dt: int) -> Ant {
    if a.time_until_poop > 0 {
        Ant {
            time_until_poop: (a.time_until_poop - tdiv_spec(dt * a.speed, FP as int)) as i64,
            ..a
        }
    } else {
        Ant { time_until_poop: crate::ant::ANT_POOP_INTERVAL, ..a }
    }
}

/// The arena slots after the deposit-scheduling step: unchanged while the
/// countdown runs, one deposit of the state's scent kind on expiry.
pub open spec fn deposit_tick_slots_spec(
    a: Ant,
    slots: Seq<crate::pheromone::MarkSlot>,
    bviews: Seq<Seq<crate::pheromone::MarkId>>,
) -> Seq<crate::pheromone::MarkSlot> {
    if a.time_until_poop > 0 {
        slots
    } else {
        crate::pheromone::spawn_slots_spec(slots, bviews, a.position, a.state.pher_to_drop_spec())
    }
}

/// The tile buckets after the deposit-scheduling step.
pub open spec fn deposit_tick_bview_spec(
    a: Ant,
    slots: Seq<crate::pheromone::MarkSlot>,
    bviews: Seq<Seq<crate::pheromone::MarkId>>,
) -> Seq<Seq<crate::pheromone::MarkId>> {
    if a.time_until_poop > 0 {
        bviews
    } else {
        crate::pheromone::spawn_bview_spec(slots, bviews, a.position, a.state.pher_to_drop_spec())
    }
}

/// Runs one ant's deposit schedule for this tick: the countdown drops by
/// `dt * speed` while positive; once it has run out the ant deposits a mark
/// of the scent its state produces (reinforcing a close same-kind mark
/// instead of duplicating it) and the countdown resets.
pub fn spawn_pheromones(ant: &mut Ant, field: &mut crate::pheromone::PheromoneField, dt: i64)
    requires
        old(ant).wf(),
        old(field).wf(),
        0 <= dt <= crate::pheromone::MAX_TICK_DT,
    ensures
        final(ant).wf(),
        final(field).wf(),
        *final(ant) == deposit_tick_ant_spec(*old(ant), dt as int),
        final(field).slots@ == deposit_tick_slots_spec(
            *old(ant),
            old(field).slots@,
            old(field).bview(),
        ),
        final(field).bview() == deposit_tick_bview_spec(
            *old(ant),
            old(field).slots@,
            old(field).bview(),
        ),
{
    if ant.time_until_poop > 0 {
        proof {
            assert(0 <= dt * ant.speed <= 3_600_000_000_000_000_000) by (nonlinear_arith)
                requires
                    0 <= ant.speed <= 1_000_000_000,
                    0 <= dt <= 3_600_000_000,
            ;
            lemma_tdiv_bounds(dt * ant.speed, FP as int);
            let d = tdiv_spec(dt * ant.speed, FP as int);
            assert(abs_spec(d) <= 3_600_000_000_000) by (nonlinear_arith)
                requires
                    abs_spec(d) * FP <= abs_spec(dt * ant.speed),
                    abs_spec(dt * ant.speed) <= 3_600_000_000_000_000_000,
                    abs_spec(d) >= 0,
                    FP == 1_000_000,
            ;
        }
        ant.time_until_poop = ant.time_until_poop - tdiv(dt * ant.speed, FP);
    } else {
        let kind = ant.state.pher_to_drop();
        let _ = field.spawn_pheromone(ant.position, kind);
        ant.time_until_poop = crate::ant::ANT_POOP_INTERVAL;
    }
}

/// Whether a mark passes the radius/arc/kind filter of a local query: the
/// wanted kind, within the radius, beyond the degeneracy radius, and with
/// a bearing from the origin inside the (wrap-safe) arc bounds.
pub open spec fn arc_filter_spec(
    m: Pheromone,
    origin: Vec2Fx,
    radius: int,
    lower: int,
    upper: int,
    kind: PheromoneKind,
) -> bool {
    let to = m.position.sub_spec(origin);
    let d2 = len_sq_spec(to);
    &&& m.kind == kind
    &&& d2 <= radius * radius
    &&& d2 >= MIN_NORM * MIN_NORM
    &&& angle_within_bounds_spec(iatan2_spec(to), lower, upper)
}

/// The marks passing the filter, in order.
pub open spec fn arc_filtered_spec(
    marks: Seq<Pheromone>,
    origin: Vec2Fx,
    radius: int,
    lower: int,
    upper: int,
    kind: PheromoneKind,
) -> Seq<Pheromone>
    decreases marks.len(),
{
    if marks.len() == 0 {
        Seq::empty()
    } else {
        arc_filtered_spec(marks.drop_last(), origin, radius, lower, upper, kind) + (
        if arc_filter_spec(marks.last(), origin, radius, lower, upper, kind) {
            seq![marks.last()]
        } else {
            Seq::empty()
        })
    }
}

/// Queries the field for the marks of one kind within a radius and a
/// vision arc of an origin: the marks referenced by the origin's 3 x 3
/// tile neighborhood whose distance is within `radius` and whose bearing
/// from the origin falls inside the arc `[direction - half_arc,
/// direction + half_arc]`, wrap-safe across the angle seam. Stale bucket
/// references in the queried tiles are dropped on the way (so the query
/// tolerates racing a prune), and marks closer than the degeneracy radius
/// are omitted, their bearing being undefined.
pub fn query_in_radius_and_arc(
    field: &mut crate::pheromone::PheromoneField,
    origin: Vec2Fx,
    radius: i64,
    direction: i64,
    half_arc: i64,
    kind_filter: PheromoneKind,
) -> (r: Vec<Pheromone>)
    requires
        old(field).wf(),
        in_range(origin, POS_LIMIT as int),
        0 <= radius <= crate::ant::VISION_LIMIT,
        0 <= direction < TAU_FX,
        0 <= half_arc <= TAU_FX,
    ensures
        final(field).wf(),
        final(field).slots@ == old(field).slots@,
        final(field).bview() == crate::pheromone::cleaned_buckets_spec(
            old(field).slots@,
            crate::grid::neighborhood_spec(origin),
            old(field).bview(),
        ),
        r@ == arc_filtered_spec(
            crate::pheromone::collect_spec(
                old(field).slots@,
                crate::grid::neighborhood_spec(origin),
                old(field).bview(),
            ),
            origin,
            radius as int,
            direction - half_arc,
            direction + half_arc,
            kind_filter,
        ),
{
    let tiles = crate::grid::get_local_neighborhood(origin);
    let marks = field.collect_local_marks(&tiles);
    proof {
        lemma_collect_marks_wf(
            old(field).slots@,
            tiles@,
            old(field).bview(),
            *old(field),
        );
    }
    let lower: i64 = direction - half_arc;
    let upper: i64 = direction + half_arc;
    let mut out: Vec<Pheromone> = Vec::new();
    let mut k: usize = 0;
    while k < marks.len()
        invariant
            forall|i: int| 0 <= i < marks@.len() ==> mark_wf(#[trigger] marks@[i]),
            k <= marks@.len(),
            in_range(origin, POS_LIMIT as int),
            0 <= radius <= crate::ant::VISION_LIMIT,
            -TAU_FX <= lower <= 2 * TAU_FX,
            -TAU_FX <= upper <= 2 * TAU_FX,
            out@ == arc_filtered_spec(
                marks@.take(k as int),
                origin,
                radius as int,
                lower as int,
                upper as int,
                kind_filter,
            ),
        decreases marks@.len() - k,
    {
        let m: Pheromone = marks[k];
        proof {
            assert(marks@.take(k + 1).drop_last() =~= marks@.take(k as int));
            assert(marks@.take(k + 1).last() == m);
            assert(mark_wf(marks@[k as int]));
            assert(radius * radius <= 10_000_000_000_000_000) by (nonlinear_arith)
                requires
                    0 <= radius <= 100_000_000,
            ;
        }
        if m.kind == kind_filter {
            let to: Vec2Fx = m.position.sub(origin);
            let d2: i64 = len_sq(to);
            if d2 <= radius * radius && d2 >= MIN_NORM * MIN_NORM {
                let bearing: i64 = iatan2(to);
                if angle_within_bounds(bearing, lower, upper) {
                    out.push(m);
                }
            }
        }
        k = k + 1;
    }
    proof {
        assert(marks@.take(marks@.len() as int) =~= marks@);
    }
    out
}

/// Every mark handed out by a local query is well-formed.
proof fn lemma_collect_marks_wf(
    slots: Seq<crate::pheromone::MarkSlot>,
    tiles: Seq<MapPos>,
    bviews: Seq<Seq<crate::pheromone::MarkId>>,
    f: crate::pheromone::PheromoneField,
)
    requires
        f.wf(),
        f.slots@ == slots,
    ensures
        forall|i: int|
            0 <= i < crate::pheromone::collect_spec(slots, tiles, bviews).len() ==> mark_wf(
                #[trigger] crate::pheromone::collect_spec(slots, tiles, bviews)[i],
            ),
    decreases tiles.len(),
{
    if tiles.len() == 0 {
    } else {
        lemma_collect_marks_wf(slots, tiles.drop_last(), bviews, f);
        lemma_resolved_marks_wf(slots, bviews[crate::grid::flat_index_spec(tiles.last())], f);
        let whole = crate::pheromone::collect_spec(slots, tiles, bviews);
        let pre = crate::pheromone::collect_spec(slots, tiles.drop_last(), bviews);
        let tail = crate::pheromone::resolved_marks_spec(
            slots,
            bviews[crate::grid::flat_index_spec(tiles.last())],
        );
        assert forall|i: int| 0 <= i < whole.len() implies mark_wf(#[trigger] whole[i]) by {
            if i < pre.len() {
                assert(whole[i] == pre[i]);
            } else {
                assert(whole[i] == tail[i - pre.len()]);
            }
        }
    }
}

/// Every mark resolved through a bucket list is well-formed.
proof fn lemma_resolved_marks_wf(
    slots: Seq<crate::pheromone::MarkSlot>,
    ids: Seq<crate::pheromone::MarkId>,
    f: crate::pheromone::PheromoneField,
)
    requires
        f.wf(),
        f.slots@ == slots,
    ensures
        forall|i: int|
            0 <= i < crate::pheromone::resolved_marks_spec(slots, ids).len() ==> mark_wf(
                #[trigger] crate::pheromone::resolved_marks_spec(slots, ids)[i],
            ),
    decreases ids.len(),
{
    if ids.len() == 0 {
    } else {
        lemma_resolved_marks_wf(slots, ids.drop_last(), f);
        let whole = crate::pheromone::resolved_marks_spec(slots, ids);
        let pre = crate::pheromone::resolved_marks_spec(slots, ids.drop_last());
        if crate::pheromone::resolves(slots, ids.last()) {
            let sl = ids.last().slot as int;
            assert(f.slots@[sl].mark is Some);
            assert(mark_wf(f.slots@[sl].mark->Some_0));
        }
        assert forall|i: int| 0 <= i < whole.len() implies mark_wf(#[trigger] whole[i]) by {
            if i < pre.len() {
                assert(whole[i] == pre[i]);
            }
        }
    }
}

} // verus!
