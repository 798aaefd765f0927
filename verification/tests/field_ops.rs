use ant_colony::behavior::query_in_radius_and_arc;
use ant_colony::fixed::{Vec2Fx, FP};
use ant_colony::grid::get_local_neighborhood;
use ant_colony::pheromone::{Pheromone, PheromoneField, PheromoneKind};
use ant_colony::trig::HALF_PI_FX;

fn live_count(field: &PheromoneField) -> usize {
    field.slots.iter().filter(|s| s.mark.is_some()).count()
}

#[test]
fn deposit_creates_a_unit_mark() {
    let mut field = PheromoneField::new();
    field.spawn_pheromone(Vec2Fx { x: 100 * FP, y: 100 * FP }, PheromoneKind::FoodThisWay);
    assert_eq!(live_count(&field), 1);
    let m = field.slots[0].mark.unwrap();
    assert_eq!(m.kind, PheromoneKind::FoodThisWay);
    assert_eq!(m.intensity, FP);
    assert_eq!(m.death_timer, FP);
    assert_eq!(m.position, Vec2Fx { x: 100 * FP, y: 100 * FP });
    // the mark's tile bucket references it
    assert_eq!(m.bucket, 6 * 50 + 6);
    assert_eq!(field.buckets[m.bucket].ids.len(), 1);
}

#[test]
fn reinforcement_does_not_add_marks_and_pulls_weakly_on_strong_marks() {
    let mut field = PheromoneField::new();
    field.spawn_pheromone(Vec2Fx { x: 100 * FP, y: 100 * FP }, PheromoneKind::FoodThisWay);
    // an established mark: intensity 9
    let m = field.slots[0].mark.unwrap();
    field.slots[0].mark = Some(Pheromone {
        intensity: 9 * FP,
        ..m
    });
    field.spawn_pheromone(Vec2Fx { x: 101 * FP, y: 100 * FP }, PheromoneKind::FoodThisWay);
    assert_eq!(live_count(&field), 1);
    let m = field.slots[0].mark.unwrap();
    // intensity rises by the fixed step, lifetime resets
    assert_eq!(m.intensity, 10 * FP);
    assert_eq!(m.death_timer, FP);
    // the mark moved 1/10 of the way toward the deposit point
    assert_eq!(m.position, Vec2Fx { x: 100 * FP + FP / 10, y: 100 * FP });
}

#[test]
fn reinforcement_pulls_strongly_on_weak_marks() {
    let mut field = PheromoneField::new();
    field.spawn_pheromone(Vec2Fx { x: 100 * FP, y: 100 * FP }, PheromoneKind::FoodThisWay);
    // intensity 1 straight after creation: the fraction is 1/2
    field.spawn_pheromone(Vec2Fx { x: 101 * FP, y: 100 * FP }, PheromoneKind::FoodThisWay);
    assert_eq!(live_count(&field), 1);
    let m = field.slots[0].mark.unwrap();
    assert_eq!(m.intensity, 2 * FP);
    assert_eq!(m.position, Vec2Fx { x: 100 * FP + FP / 2, y: 100 * FP });
}

#[test]
fn a_different_kind_is_never_reinforced() {
    let mut field = PheromoneField::new();
    field.spawn_pheromone(Vec2Fx { x: 100 * FP, y: 100 * FP }, PheromoneKind::FoodThisWay);
    field.spawn_pheromone(Vec2Fx { x: 101 * FP, y: 100 * FP }, PheromoneKind::HomeThisWay);
    assert_eq!(live_count(&field), 2);
}

#[test]
fn a_distant_mark_is_never_reinforced() {
    let mut field = PheromoneField::new();
    field.spawn_pheromone(Vec2Fx { x: 100 * FP, y: 100 * FP }, PheromoneKind::FoodThisWay);
    // 6 world units away: outside the 5-unit proximity radius, same tile
    field.spawn_pheromone(Vec2Fx { x: 106 * FP, y: 100 * FP }, PheromoneKind::FoodThisWay);
    assert_eq!(live_count(&field), 2);
}

#[test]
fn reinforcement_picks_the_nearest_candidate() {
    let mut field = PheromoneField::new();
    field.spawn_pheromone(Vec2Fx { x: 97 * FP, y: 100 * FP }, PheromoneKind::FoodThisWay);
    field.spawn_pheromone(Vec2Fx { x: 103 * FP, y: 100 * FP }, PheromoneKind::FoodThisWay);
    assert_eq!(live_count(&field), 2);
    // closer to the second mark: only it is reinforced
    field.spawn_pheromone(Vec2Fx { x: 102 * FP, y: 100 * FP }, PheromoneKind::FoodThisWay);
    assert_eq!(live_count(&field), 2);
    assert_eq!(field.slots[0].mark.unwrap().intensity, FP);
    assert_eq!(field.slots[1].mark.unwrap().intensity, 2 * FP);
}

#[test]
fn decay_is_monotone_and_prunes_on_timer_crossing_zero() {
    let mut field = PheromoneField::new();
    field.spawn_pheromone(Vec2Fx { x: 100 * FP, y: 100 * FP }, PheromoneKind::HomeThisWay);
    // five seconds: intensity and lifetime both drop by 0.5
    field.decay_pheromones(5 * FP);
    let m = field.slots[0].mark.unwrap();
    assert_eq!(m.intensity, FP / 2);
    assert_eq!(m.death_timer, FP / 2);
    // five more seconds: the timer reaches exactly zero - still alive
    field.decay_pheromones(5 * FP);
    let m = field.slots[0].mark.unwrap();
    assert_eq!(m.intensity, 0);
    assert_eq!(m.death_timer, 0);
    // any further decay pushes the timer below zero: pruned exactly now
    field.decay_pheromones(FP / 100);
    assert_eq!(live_count(&field), 0);
    assert!(field.slots[0].mark.is_none());
}

#[test]
fn stale_bucket_references_heal_lazily() {
    let mut field = PheromoneField::new();
    let pos = Vec2Fx { x: 100 * FP, y: 100 * FP };
    field.spawn_pheromone(pos, PheromoneKind::HomeThisWay);
    let b: usize = 6 * 50 + 6;
    assert_eq!(field.buckets[b].ids.len(), 1);
    // prune the mark; the bucket still holds the stale reference
    field.decay_pheromones(11 * FP);
    assert_eq!(live_count(&field), 0);
    assert_eq!(field.buckets[b].ids.len(), 1);
    // the next local query drops it silently and returns nothing
    let tiles = get_local_neighborhood(pos);
    let marks = field.collect_local_marks(&tiles);
    assert_eq!(marks.len(), 0);
    assert_eq!(field.buckets[b].ids.len(), 0);
}

#[test]
fn local_query_returns_nearby_live_marks() {
    let mut field = PheromoneField::new();
    let pos = Vec2Fx { x: 100 * FP, y: 100 * FP };
    field.spawn_pheromone(pos, PheromoneKind::HomeThisWay);
    field.spawn_pheromone(Vec2Fx { x: 110 * FP, y: 100 * FP }, PheromoneKind::FoodThisWay);
    // a mark far outside the neighborhood is not returned
    field.spawn_pheromone(Vec2Fx { x: 700 * FP, y: 700 * FP }, PheromoneKind::FoodThisWay);
    let tiles = get_local_neighborhood(pos);
    let marks = field.collect_local_marks(&tiles);
    assert_eq!(marks.len(), 2);
    assert_eq!(marks[0].position, pos);
    assert_eq!(marks[1].position, Vec2Fx { x: 110 * FP, y: 100 * FP });
}

#[test]
fn freed_slots_are_reused_with_a_new_generation() {
    let mut field = PheromoneField::new();
    field.spawn_pheromone(Vec2Fx { x: 100 * FP, y: 100 * FP }, PheromoneKind::HomeThisWay);
    let first_gen = field.slots[0].gen;
    field.decay_pheromones(11 * FP);
    assert!(field.slots[0].mark.is_none());
    field.spawn_pheromone(Vec2Fx { x: 300 * FP, y: 300 * FP }, PheromoneKind::FoodThisWay);
    assert_eq!(field.slots.len(), 1);
    assert!(field.slots[0].gen > first_gen);
}

#[test]
fn deposit_hands_back_the_touched_mark() {
    let mut field = PheromoneField::new();
    let id = field
        .spawn_pheromone(Vec2Fx { x: 100 * FP, y: 100 * FP }, PheromoneKind::FoodThisWay)
        .unwrap();
    assert_eq!(id.slot, 0);
    // reinforcing returns the same handle, not a new one
    let id2 = field
        .spawn_pheromone(Vec2Fx { x: 101 * FP, y: 100 * FP }, PheromoneKind::FoodThisWay)
        .unwrap();
    assert_eq!(id2, id);
    // an off-map deposit does nothing and hands back no handle
    let id3 = field.spawn_pheromone(Vec2Fx { x: 900 * FP, y: 100 * FP }, PheromoneKind::FoodThisWay);
    assert_eq!(id3, None);
    assert_eq!(live_count(&field), 1);
}

#[test]
fn radius_and_arc_query_sees_only_the_cone() {
    let origin = Vec2Fx { x: 100 * FP, y: 100 * FP };
    let mut field = PheromoneField::new();
    // ahead, right kind
    field.spawn_pheromone(Vec2Fx { x: 110 * FP, y: 100 * FP }, PheromoneKind::HomeThisWay);
    // behind: outside the arc
    field.spawn_pheromone(Vec2Fx { x: 90 * FP, y: 100 * FP }, PheromoneKind::HomeThisWay);
    // ahead but the wrong kind
    field.spawn_pheromone(Vec2Fx { x: 112 * FP, y: 100 * FP }, PheromoneKind::FoodThisWay);
    // ahead but beyond the radius
    field.spawn_pheromone(Vec2Fx { x: 125 * FP, y: 100 * FP }, PheromoneKind::HomeThisWay);
    let found = query_in_radius_and_arc(
        &mut field,
        origin,
        20 * FP,
        0,
        HALF_PI_FX,
        PheromoneKind::HomeThisWay,
    );
    assert_eq!(found.len(), 1);
    assert_eq!(found[0].position, Vec2Fx { x: 110 * FP, y: 100 * FP });
}

#[test]
fn reinforcement_reaches_across_a_tile_border() {
    let mut field = PheromoneField::new();
    // a mark just left of the 16-unit tile border, bucketed in tile (0, 0)
    field.spawn_pheromone(
        Vec2Fx { x: 15_900_000, y: 8 * FP },
        PheromoneKind::HomeThisWay,
    );
    // a deposit 0.2 units away on the far side of the border, tile (1, 0):
    // the existing mark is reinforced, not duplicated
    field.spawn_pheromone(
        Vec2Fx { x: 16_100_000, y: 8 * FP },
        PheromoneKind::HomeThisWay,
    );
    assert_eq!(live_count(&field), 1);
    let m = field.slots[0].mark.unwrap();
    assert_eq!(m.intensity, 2 * FP);
    // nudged halfway toward the deposit point
    assert_eq!(m.position, Vec2Fx { x: 16 * FP, y: 8 * FP });
}

#[test]
fn the_nearest_candidate_wins_across_tile_borders() {
    let mut field = PheromoneField::new();
    // one mark in tile (0, 0), one in tile (1, 0), same kind, 5.5 units
    // apart so they stay distinct
    field.spawn_pheromone(Vec2Fx { x: 15 * FP, y: 8 * FP }, PheromoneKind::FoodThisWay);
    field.spawn_pheromone(Vec2Fx { x: 20_500_000, y: 8 * FP }, PheromoneKind::FoodThisWay);
    assert_eq!(live_count(&field), 2);
    // the depositor stands in tile (1, 0); both marks are in range, but
    // the one across the border is closer (1.1 units against 4.4) and is
    // the one reinforced
    field.spawn_pheromone(Vec2Fx { x: 16_100_000, y: 8 * FP }, PheromoneKind::FoodThisWay);
    assert_eq!(live_count(&field), 2);
    assert_eq!(field.slots[0].mark.unwrap().intensity, 2 * FP);
    assert_eq!(field.slots[1].mark.unwrap().intensity, FP);
}
