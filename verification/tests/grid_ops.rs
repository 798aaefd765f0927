use ant_colony::fixed::{Vec2Fx, FP};
use ant_colony::grid::{
    build_at_cursor, change_selected_z_level, get_local_neighborhood, one_d_index_to_two_d_index,
    two_d_index_to_one_d_index, world_map_center, world_map_size, world_pos_to_two_d_index,
    BuildingType, MapPos, SelectedBuilding, SelectedZLevel, TileState, WorldMap, ZLevel,
};

#[test]
fn index_conversions_round_trip() {
    assert_eq!(
        two_d_index_to_one_d_index(MapPos { x: 3, y: 2 }),
        Some(103)
    );
    assert_eq!(two_d_index_to_one_d_index(MapPos { x: 50, y: 0 }), None);
    assert_eq!(two_d_index_to_one_d_index(MapPos { x: 0, y: 50 }), None);
    let p = one_d_index_to_two_d_index(103);
    assert_eq!(p, MapPos { x: 3, y: 2 });
    for i in [0usize, 49, 50, 2499] {
        let p = one_d_index_to_two_d_index(i);
        assert_eq!(two_d_index_to_one_d_index(p), Some(i));
    }
}

#[test]
fn world_to_tile_floors_and_saturates() {
    let p = world_pos_to_two_d_index(Vec2Fx { x: 33 * FP, y: 47 * FP });
    assert_eq!(p, MapPos { x: 2, y: 2 });
    let q = world_pos_to_two_d_index(Vec2Fx { x: -5 * FP, y: 10 * FP });
    assert_eq!(q, MapPos { x: 0, y: 0 });
    let r = world_pos_to_two_d_index(Vec2Fx { x: 799 * FP, y: 800 * FP });
    assert_eq!(r, MapPos { x: 49, y: 50 });
}

#[test]
fn map_size_and_center() {
    assert_eq!(world_map_size(), Vec2Fx { x: 800 * FP, y: 800 * FP });
    assert_eq!(world_map_center(), Vec2Fx { x: 400 * FP, y: 400 * FP });
}

#[test]
fn neighborhood_is_clipped_at_the_corner() {
    let n = get_local_neighborhood(Vec2Fx { x: 1 * FP, y: 1 * FP });
    let expect = vec![
        MapPos { x: 0, y: 0 },
        MapPos { x: 1, y: 0 },
        MapPos { x: 0, y: 1 },
        MapPos { x: 1, y: 1 },
    ];
    assert_eq!(n, expect);
}

#[test]
fn neighborhood_is_three_by_three_inside() {
    let n = get_local_neighborhood(Vec2Fx { x: 100 * FP, y: 100 * FP });
    // the containing tile is (6, 6)
    assert_eq!(n.len(), 9);
    assert_eq!(n[0], MapPos { x: 5, y: 5 });
    assert_eq!(n[4], MapPos { x: 6, y: 6 });
    assert_eq!(n[8], MapPos { x: 7, y: 7 });
}

#[test]
fn set_area_and_walkability() {
    let mut level = ZLevel::with_level(0);
    level.set_area(
        MapPos { x: 1, y: 1 },
        MapPos { x: 3, y: 3 },
        BuildingType::Tunnel,
    );
    assert!(level.is_tile_walkable(MapPos { x: 1, y: 1 }));
    assert!(level.is_tile_walkable(MapPos { x: 2, y: 2 }));
    assert!(!level.is_tile_walkable(MapPos { x: 0, y: 0 }));
    assert!(!level.is_tile_walkable(MapPos { x: 3, y: 3 }));
    // out-of-map coordinates are a "no tile" result, never walkable
    assert!(!level.is_tile_walkable(MapPos { x: 77, y: 1 }));
}

#[test]
fn default_tile_is_vacant() {
    let t: TileState = Default::default();
    assert_eq!(t.building, BuildingType::Vacant);
}

#[test]
fn z_levels_are_created_lazily() {
    let mut map = WorldMap::new();
    assert_eq!(map.levels.len(), 1);
    assert_eq!(map.find_level(0), Some(0));
    assert_eq!(map.find_level(3), None);
    let i = map.get_or_create_level(3);
    assert_eq!(map.levels.len(), 2);
    assert_eq!(map.levels[i].z_level, 3);
    // a second access finds the same level instead of creating another
    let j = map.get_or_create_level(3);
    assert_eq!(j, i);
    assert_eq!(map.levels.len(), 2);
}

#[test]
fn switching_z_levels_creates_and_repaints() {
    let mut map = WorldMap::new();
    let mut sel = SelectedZLevel(0);
    let repaint = change_selected_z_level(&mut map, &mut sel, 1);
    assert_eq!(sel.0, 1);
    assert_eq!(map.levels.len(), 2);
    assert_eq!(repaint.len(), 2500);
    assert!(repaint.iter().all(|b| *b == BuildingType::Vacant));
    let repaint_back = change_selected_z_level(&mut map, &mut sel, -1);
    assert_eq!(sel.0, 0);
    assert_eq!(map.levels.len(), 2);
    assert_eq!(repaint_back.len(), 2500);
}

#[test]
fn building_through_the_cursor() {
    let mut map = WorldMap::new();
    let sel_z = SelectedZLevel(0);
    let sel_b = SelectedBuilding {
        selected_type: BuildingType::QueenChamber,
    };
    build_at_cursor(&mut map, &sel_z, &sel_b, Vec2Fx { x: 33 * FP, y: 47 * FP });
    let t = map.tile_at(0, MapPos { x: 2, y: 2 });
    assert_eq!(t.map(|t| t.building), Some(BuildingType::QueenChamber));
    // a click outside the map changes nothing
    build_at_cursor(&mut map, &sel_z, &sel_b, Vec2Fx { x: 900 * FP, y: 47 * FP });
    assert_eq!(map.tile_at(0, MapPos { x: 56, y: 2 }), None);
    // a click on a level that does not exist changes nothing
    let sel_z9 = SelectedZLevel(9);
    build_at_cursor(&mut map, &sel_z9, &sel_b, Vec2Fx { x: 33 * FP, y: 47 * FP });
    assert_eq!(map.levels.len(), 1);
}
