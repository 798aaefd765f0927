use ant_colony::ant::{Ant, AntState, ANT_POOP_INTERVAL, ANT_SPEED, ANT_VISION_ARC, ANT_VISION_RANGE};
use ant_colony::behavior::{
    angle_within_bounds, ant_desired_direction, ant_should_follow, ant_transition,
    resolve_movement, spawn_pheromones, update_ant_movement, DETECTION_RADIUS,
};
use ant_colony::fixed::{Vec2Fx, FP, UNIT_SLACK};
use ant_colony::grid::{world_map_center, BuildingType, MapPos, WorldMap};
use ant_colony::pheromone::{PheromoneField, PheromoneKind};
use ant_colony::trig::PI_FX;

fn unit_err(v: Vec2Fx) -> i64 {
    (v.x * v.x + v.y * v.y - FP * FP).abs()
}

#[test]
fn vision_cone_bounds_facing_zero_arc_pi() {
    // facing 0 with a half-turn arc: bounds are [-pi/2, pi/2]
    let lower = -(PI_FX / 2);
    let upper = PI_FX / 2;
    assert!(angle_within_bounds(0, lower, upper));
    assert!(!angle_within_bounds(PI_FX, lower, upper));
    // a bearing wrapped a full turn below the seam still matches, exactly
    // like its unwrapped equivalent
    let tau = 2 * PI_FX;
    assert!(angle_within_bounds(-(PI_FX / 2) + tau, lower, upper));
    assert!(angle_within_bounds(PI_FX / 4 + tau, lower, upper));
    assert!(angle_within_bounds(PI_FX / 4 - tau, lower, upper));
    assert!(!angle_within_bounds(3 * PI_FX, lower, upper));
}

#[test]
fn ants_never_follow_their_own_scent() {
    assert!(!ant_should_follow(AntState::Wandering, PheromoneKind::HomeThisWay));
    assert!(ant_should_follow(AntState::Wandering, PheromoneKind::FoodThisWay));
    assert!(ant_should_follow(AntState::HasFood, PheromoneKind::HomeThisWay));
    assert!(!ant_should_follow(AntState::HasFood, PheromoneKind::FoodThisWay));
}

#[test]
fn scent_dropped_matches_state() {
    assert_eq!(AntState::Wandering.pher_to_drop(), PheromoneKind::HomeThisWay);
    assert_eq!(AntState::HasFood.pher_to_drop(), PheromoneKind::FoodThisWay);
}

#[test]
fn spawned_ant_has_default_parameters() {
    let a = Ant::spawn(Vec2Fx { x: 400 * FP, y: 400 * FP }, 7);
    assert_eq!(a.state, AntState::Wandering);
    assert_eq!(a.speed, ANT_SPEED);
    assert_eq!(a.speed, 50 * FP);
    assert_eq!(a.vision_range, ANT_VISION_RANGE);
    assert_eq!(a.vision_arc, ANT_VISION_ARC);
    assert_eq!(a.time_until_poop, ANT_POOP_INTERVAL);
    assert_eq!(a.secret_desire, Vec2Fx { x: 0, y: 0 });
    assert_eq!(a.facing, Vec2Fx { x: 0, y: 0 });
}

#[test]
fn chosen_direction_is_always_a_unit_vector() {
    // the degenerate scenario: no pheromones, no momentum, no facing
    let home = world_map_center();
    let mut a = Ant::spawn(home, 1);
    let dir = ant_desired_direction(&mut a, &vec![], &vec![], home);
    assert!(unit_err(dir) <= UNIT_SLACK);
    // hauling food while standing exactly on the home point
    let mut b = Ant::spawn(home, 2);
    b.state = AntState::HasFood;
    let dir = ant_desired_direction(&mut b, &vec![], &vec![], home);
    assert!(unit_err(dir) <= UNIT_SLACK);
    // and across a spread of seeds and positions
    for seed in 0..20u64 {
        let mut c = Ant::spawn(Vec2Fx { x: (seed as i64) * 37 * FP, y: 200 * FP }, seed);
        let foods = vec![Vec2Fx { x: 210 * FP, y: 200 * FP }];
        let dir = ant_desired_direction(&mut c, &vec![], &foods, home);
        assert!(unit_err(dir) <= UNIT_SLACK);
    }
}

#[test]
fn desired_direction_follows_a_strong_trail() {
    // a hauling ant facing a home-trail mark dead ahead chooses it
    let home = world_map_center();
    let mut a = Ant::spawn(Vec2Fx { x: 100 * FP, y: 100 * FP }, 3);
    a.state = AntState::HasFood;
    a.facing = Vec2Fx { x: 0, y: FP };
    let marks = vec![ant_colony::pheromone::Pheromone {
        kind: PheromoneKind::HomeThisWay,
        intensity: 1000 * FP,
        death_timer: FP,
        position: Vec2Fx { x: 100 * FP, y: 110 * FP },
        bucket: 0,
    }];
    let dir = ant_desired_direction(&mut a, &marks, &vec![], home);
    assert!(unit_err(dir) <= UNIT_SLACK);
    // the overwhelming pull of the mark dominates drift and the home hint
    assert!(dir.y > 900_000);
}

#[test]
fn finding_food_flips_state_and_negates_desire() {
    let home = world_map_center();
    let mut a = Ant::spawn(Vec2Fx { x: 100 * FP, y: 100 * FP }, 5);
    a.secret_desire = Vec2Fx { x: 3, y: 4 };
    a.facing = Vec2Fx { x: FP, y: 0 };
    // food 10 world units away: within the 20-unit detection radius
    let foods = vec![Vec2Fx { x: 110 * FP, y: 100 * FP }];
    ant_transition(&mut a, &foods, home);
    assert_eq!(a.state, AntState::HasFood);
    assert_eq!(a.secret_desire, Vec2Fx { x: -3, y: -4 });
    assert_eq!(a.facing, Vec2Fx { x: -FP, y: 0 });
}

#[test]
fn distant_food_triggers_no_transition() {
    let home = world_map_center();
    let mut a = Ant::spawn(Vec2Fx { x: 100 * FP, y: 100 * FP }, 5);
    a.secret_desire = Vec2Fx { x: 3, y: 4 };
    let foods = vec![Vec2Fx { x: 130 * FP, y: 100 * FP }];
    ant_transition(&mut a, &foods, home);
    assert_eq!(a.state, AntState::Wandering);
    assert_eq!(a.secret_desire, Vec2Fx { x: 3, y: 4 });
}

#[test]
fn reaching_home_flips_back_to_wandering() {
    let home = world_map_center();
    let mut a = Ant::spawn(Vec2Fx { x: 405 * FP, y: 400 * FP }, 5);
    a.state = AntState::HasFood;
    a.secret_desire = Vec2Fx { x: -7, y: 2 };
    ant_transition(&mut a, &vec![], home);
    assert_eq!(a.state, AntState::Wandering);
    assert_eq!(a.secret_desire, Vec2Fx { x: 7, y: -2 });
}

#[test]
fn exceeding_the_map_width_bounces_only_the_x_axis() {
    let map = WorldMap::new();
    let mut a = Ant::spawn(Vec2Fx { x: 796 * FP, y: 100 * FP }, 9);
    a.facing = Vec2Fx { x: 0, y: 0 };
    // heading (0.6, 0.8) for 0.2 seconds at speed 50: displacement (6, 8)
    let chosen = Vec2Fx { x: 600_000, y: 800_000 };
    resolve_movement(&mut a, &map, chosen, FP / 5);
    // x would reach 802 > 800: the x displacement and the x component of
    // the accumulator flip sign; y proceeds unaffected
    assert_eq!(a.position, Vec2Fx { x: 790 * FP, y: 108 * FP });
    assert_eq!(a.secret_desire, Vec2Fx { x: -600_000, y: 800_000 });
    // facing still looks toward the tentative (pre-bounce) target
    assert_eq!(a.facing, Vec2Fx { x: 600_000, y: 800_000 });
}

#[test]
fn leaving_walkable_terrain_bounces() {
    let mut map = WorldMap::new();
    // a tunnel block of tiles (6,6)..(8,8): world 96..144 on each axis
    map.levels[0].set_area(
        MapPos { x: 6, y: 6 },
        MapPos { x: 8, y: 8 },
        BuildingType::Tunnel,
    );
    let mut a = Ant::spawn(Vec2Fx { x: 140 * FP, y: 100 * FP }, 9);
    // heading +x for 0.2 seconds: tentative x = 146, tile column 9 (vacant)
    let chosen = Vec2Fx { x: FP, y: 0 };
    resolve_movement(&mut a, &map, chosen, FP / 5);
    assert_eq!(a.position, Vec2Fx { x: 130 * FP, y: 100 * FP });
    assert_eq!(a.secret_desire, Vec2Fx { x: -FP, y: 0 });
}

#[test]
fn deposit_countdown_scales_with_speed_and_resets() {
    let mut field = PheromoneField::new();
    let mut a = Ant::spawn(Vec2Fx { x: 100 * FP, y: 100 * FP }, 4);
    // one second at speed 50 burns 50 count-seconds of the countdown
    spawn_pheromones(&mut a, &mut field, FP / 10);
    assert_eq!(a.time_until_poop, 0);
    assert_eq!(field.slots.len(), 0);
    // the countdown has run out: the next call deposits and resets
    spawn_pheromones(&mut a, &mut field, FP / 10);
    assert_eq!(a.time_until_poop, ANT_POOP_INTERVAL);
    assert_eq!(field.slots.len(), 1);
    let m = field.slots[0].mark.unwrap();
    assert_eq!(m.kind, PheromoneKind::HomeThisWay);
}

#[test]
fn movement_keeps_the_ant_sound_and_stores_a_unit_desire() {
    let map = WorldMap::new();
    let mut field = PheromoneField::new();
    let home = world_map_center();
    let foods = vec![Vec2Fx { x: 500 * FP, y: 400 * FP }];
    let mut a = Ant::spawn(home, 11);
    for _ in 0..10 {
        update_ant_movement(&mut a, &map, &mut field, &foods, home, 16_000);
        assert!(unit_err(a.secret_desire) <= UNIT_SLACK);
        assert!(a.position.x.abs() <= 1_000_000_000);
        assert!(a.position.y.abs() <= 1_000_000_000);
    }
}
