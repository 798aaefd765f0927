use ant_colony::ant::AntState;
use ant_colony::fixed::{Vec2Fx, FP};
use ant_colony::grid::MapPos;
use ant_colony::rng::AntRng;
use ant_colony::world::World;

#[test]
fn population_starts_at_the_center_with_forked_streams() {
    let w = World::new(12345, 20, 4);
    assert_eq!(w.ants.len(), 20);
    assert_eq!(w.foods.len(), 4);
    for a in &w.ants {
        assert_eq!(a.position, Vec2Fx { x: 400 * FP, y: 400 * FP });
        assert_eq!(a.state, AntState::Wandering);
    }
    // every ant owns an independent stream seed
    let mut seeds: Vec<u64> = w.ants.iter().map(|a| a.rng.seed).collect();
    seeds.sort();
    seeds.dedup();
    assert_eq!(seeds.len(), 20);
    // food scatters around the center within (-500, 500) x (-300, 300)
    for f in &w.foods {
        assert!((f.x - 400 * FP).abs() < 500 * FP);
        assert!((f.y - 400 * FP).abs() < 300 * FP);
    }
}

#[test]
fn the_world_starts_with_a_central_tunnel_block() {
    let w = World::new(1, 0, 0);
    assert_eq!(w.map.levels.len(), 1);
    assert!(w.map.levels[0].is_tile_walkable(MapPos { x: 25, y: 25 }));
    assert!(w.map.levels[0].is_tile_walkable(MapPos { x: 20, y: 20 }));
    assert!(!w.map.levels[0].is_tile_walkable(MapPos { x: 30, y: 30 }));
    assert!(!w.map.levels[0].is_tile_walkable(MapPos { x: 0, y: 0 }));
    assert_eq!(w.field.slots.len(), 0);
}

#[test]
fn identical_runs_are_bit_identical() {
    let mut w1 = World::new(98765, 8, 3);
    let mut w2 = World::new(98765, 8, 3);
    let dts: [i64; 6] = [16_000, 16_000, 33_000, 16_000, 100_000, 16_000];
    for dt in dts {
        w1.tick(dt);
        w2.tick(dt);
    }
    assert_eq!(w1.ants, w2.ants);
    assert_eq!(w1.foods, w2.foods);
    assert_eq!(w1.field.slots, w2.field.slots);
    assert_eq!(w1.field.buckets, w2.field.buckets);
    assert_eq!(w1.map, w2.map);
}

#[test]
fn different_seeds_diverge() {
    let mut w1 = World::new(1, 4, 2);
    let mut w2 = World::new(2, 4, 2);
    for _ in 0..5 {
        w1.tick(50_000);
        w2.tick(50_000);
    }
    assert_ne!(w1.ants, w2.ants);
}

#[test]
fn a_long_run_stays_sound_and_deposits_marks() {
    let mut w = World::new(42, 6, 2);
    for _ in 0..60 {
        w.tick(100_000);
    }
    // a tenth of a second per tick for six seconds: the five-second
    // deposit countdown (burned at speed 50) has long expired for each ant
    assert!(w.field.slots.iter().any(|s| s.mark.is_some()));
    for a in &w.ants {
        assert!(a.position.x.abs() <= 1_000_000_000);
        assert!(a.position.y.abs() <= 1_000_000_000);
    }
}

#[test]
fn same_seed_streams_agree_and_stay_in_range() {
    let mut r1 = AntRng::from_seed(77);
    let mut r2 = AntRng::from_seed(77);
    for _ in 0..50 {
        let a = r1.rand_uniform();
        let b = r2.rand_uniform();
        assert_eq!(a, b);
        assert!(-FP <= a && a <= FP);
    }
}

#[test]
fn the_stream_moves_on_with_every_draw() {
    let mut r = AntRng::from_seed(7);
    let a = r.next_raw();
    let b = r.next_raw();
    // successive draws read different stream offsets
    assert_ne!(a, b);
    assert_eq!(r.word_pos, 4);
    // reseeding replays the stream from the start
    let mut r2 = AntRng::from_seed(7);
    assert_eq!(r2.next_raw(), a);
    assert_eq!(r2.next_raw(), b);
}
