//! The world map: a fixed 50 x 50 tile grid per z-level, with buildable
//! terrain, walkability, world-position to tile-index conversion and local
//! neighborhood queries. Z-levels are independent flat tile arrays created
//! lazily on first access to a new level index.

use vstd::prelude::*;
use crate::fixed::{FP, POS_LIMIT, Vec2Fx, in_range, tdiv, tdiv_spec, lemma_tdiv_bounds};

verus! {

/// Tiles per map side.
pub const MAP_SIZE_X: u32 = 50;

/// Tiles per map side.
pub const MAP_SIZE_Y: u32 = 50;

/// Tiles per z-level.
pub const MAP_DATA_SIZE: usize = 2500;

/// Side of one square tile, in fixed-point counts (16 world units).
pub const TILE_SIZE_FX: i64 = 16_000_000;

/// What is built on a tile. Only a tunnel is traversable.
#[derive(Clone, Copy, Debug, PartialEq, Eq, Structural)]
pub enum BuildingType {
    Vacant,
    Tunnel,
    QueenChamber,
    FoodStorage,
}

/// State of one tile of a z-level.
#[derive(Clone, Copy, Debug, PartialEq, Eq, Structural)]
pub struct TileState {
    pub building: BuildingType,
}

impl Default for TileState {
    /// A fresh tile has nothing built on it.
    fn default() -> (r: TileState)
        ensures
            r.building == BuildingType::Vacant,
    {
        TileState { building: BuildingType::Vacant }
    }
}

/// A tile coordinate: column `x`, row `y`.
#[derive(Clone, Copy, Debug, PartialEq, Eq, Structural)]
pub struct MapPos {
    pub x: u32,
    pub y: u32,
}

/// Row-major flat index of an in-map tile coordinate.
pub open spec fn flat_index_spec(p: MapPos) -> int {
    p.y * MAP_SIZE_X + p.x
}

/// The coordinate addresses a tile of the map.
pub open spec fn in_map(p: MapPos) -> bool {
    p.x < MAP_SIZE_X && p.y < MAP_SIZE_Y
}

/// Flat index of a tile coordinate, or `None` outside the map.
pub fn two_d_index_to_one_d_index(p: MapPos) -> (r: Option<usize>)
    ensures
        in_map(p) ==> r == Some(flat_index_spec(p) as usize),
        !in_map(p) ==> r is None,
        r is Some ==> 0 <= flat_index_spec(p) < MAP_DATA_SIZE,
{
    if p.x < MAP_SIZE_X && p.y < MAP_SIZE_Y {
        Some((p.y * MAP_SIZE_X + p.x) as usize)
    } else {
        None
    }
}

/// Tile coordinate of a flat index.
pub fn one_d_index_to_two_d_index(i: usize) -> (r: MapPos)
    requires
        i < MAP_DATA_SIZE,
    ensures
        r.x == i as int % MAP_SIZE_X as int,
        r.y == i as int / MAP_SIZE_X as int,
        in_map(r),
        flat_index_spec(r) == i,
{
    let r = MapPos { x: (i as u32) % MAP_SIZE_X, y: (i as u32) / MAP_SIZE_X };
    proof {
        vstd::arithmetic::div_mod::lemma_fundamental_div_mod(i as int, MAP_SIZE_X as int);
    }
    r
}

/// Saturating conversion of one world coordinate to a tile column or row:
/// negative positions land on 0, as a mathematical function.
pub open spec fn tile_coord_spec(c: int) -> int {
    if c <= 0 {
        0
    } else {
        tdiv_spec(c, TILE_SIZE_FX as int)
    }
}

/// Tile coordinate containing a world position; negative coordinates
/// saturate to the first column or row, mirroring an unsigned conversion.
pub fn world_pos_to_two_d_index(pos: Vec2Fx) -> (r: MapPos)
    requires
        in_range(pos, 10_000_000_000_000),
    ensures
        r.x == tile_coord_spec(pos.x as int),
        r.y == tile_coord_spec(pos.y as int),
{
    proof {
        lemma_tdiv_bounds(pos.x as int, TILE_SIZE_FX as int);
        lemma_tdiv_bounds(pos.y as int, TILE_SIZE_FX as int);
    }
    let tx: i64 = if pos.x <= 0 {
        0
    } else {
        tdiv(pos.x, TILE_SIZE_FX)
    };
    let ty: i64 = if pos.y <= 0 {
        0
    } else {
        tdiv(pos.y, TILE_SIZE_FX)
    };
    proof {
        assert(tx * TILE_SIZE_FX <= 10_000_000_000_000 ==> tx <= 1_000_000) by (nonlinear_arith)
            requires
                TILE_SIZE_FX == 16_000_000,
        ;
        assert(ty * TILE_SIZE_FX <= 10_000_000_000_000 ==> ty <= 1_000_000) by (nonlinear_arith)
            requires
                TILE_SIZE_FX == 16_000_000,
        ;
    }
    MapPos { x: tx as u32, y: ty as u32 }
}

/// One z-level of the map: a flat row-major array of tiles.
#[derive(Clone, Debug, PartialEq, Eq)]
pub struct ZLevel {
    pub z_level: i32,
    pub tiles: Vec<TileState>,
}

impl ZLevel {
    /// The level holds exactly one tile per map cell.
    pub open spec fn wf(self) -> bool {
        self.tiles@.len() == MAP_DATA_SIZE
    }

    /// The tile at `p` exists and carries a tunnel.
    pub open spec fn walkable_spec(self, p: MapPos) -> bool {
        in_map(p) && self.tiles@[flat_index_spec(p)].building == BuildingType::Tunnel
    }

    /// A blank level: every tile vacant.
    pub fn with_level(level: i32) -> (r: ZLevel)
        ensures
            r.wf(),
            r.z_level == level,
            forall|i: int|
                0 <= i < MAP_DATA_SIZE ==> r.tiles@[i].building == BuildingType::Vacant,
    {
        let mut tiles: Vec<TileState> = Vec::new();
        let mut k: usize = 0;
        while k < MAP_DATA_SIZE
            invariant
                k == tiles@.len(),
                k <= MAP_DATA_SIZE,
                forall|i: int| 0 <= i < k ==> tiles@[i].building == BuildingType::Vacant,
            decreases MAP_DATA_SIZE - k,
        {
            tiles.push(TileState { building: BuildingType::Vacant });
            k = k + 1;
        }
        ZLevel { z_level: level, tiles }
    }

    /// `p` falls inside the half-open rectangle `[min, max)`.
    pub open spec fn in_area(p: MapPos, min: MapPos, max: MapPos) -> bool {
        min.x <= p.x < max.x && min.y <= p.y < max.y
    }

    /// Builds `building_type` on every in-map tile of the half-open
    /// rectangle `[min, max)`; tiles outside it are untouched.
    pub fn set_area(&mut self, min: MapPos, max: MapPos, building_type: BuildingType)
        requires
            old(self).wf(),
        ensures
            final(self).wf(),
            final(self).z_level == old(self).z_level,
            forall|i: int|
                0 <= i < MAP_DATA_SIZE ==> final(self).tiles@[i] == (if Self::in_area(
                    one_d_two_d_spec(i),
                    min,
                    max,
                ) {
                    TileState { building: building_type }
                } else {
                    old(self).tiles@[i]
                }),
    {
        let mut x: u32 = min.x;
        while x < max.x
            invariant
                self.wf(),
                self.z_level == old(self).z_level,
                min.x <= x,
                x <= max.x || x == min.x,
                forall|i: int|
                    0 <= i < MAP_DATA_SIZE ==> self.tiles@[i] == (if Self::in_area(
                        one_d_two_d_spec(i),
                        min,
                        MapPos { x, y: max.y },
                    ) {
                        TileState { building: building_type }
                    } else {
                        old(self).tiles@[i]
                    }),
            decreases max.x - x,
        {
            let mut y: u32 = min.y;
            while y < max.y
                invariant
                    self.wf(),
                    self.z_level == old(self).z_level,
                    min.x <= x < max.x,
                    min.y <= y,
                    y <= max.y || y == min.y,
                    forall|i: int|
                        0 <= i < MAP_DATA_SIZE ==> self.tiles@[i] == (if Self::in_area(
                            one_d_two_d_spec(i),
                            min,
                            MapPos { x, y: max.y },
                        ) || Self::in_area(
                            one_d_two_d_spec(i),
                            MapPos { x, y: min.y },
                            MapPos { x: (x + 1) as u32, y },
                        ) {
                            TileState { building: building_type }
                        } else {
                            old(self).tiles@[i]
                        }),
                decreases max.y - y,
            {
                if let Some(i) = two_d_index_to_one_d_index(MapPos { x, y }) {
                    proof {
                        vstd::arithmetic::div_mod::lemma_fundamental_div_mod(
                            flat_index_spec(MapPos { x, y }),
                            MAP_SIZE_X as int,
                        );
                        assert(one_d_two_d_spec(flat_index_spec(MapPos { x, y })) == (MapPos {
                            x,
                            y,
                        }));
                    }
                    self.tiles.set(i, TileState { building: building_type });
                }
                y = y + 1;
            }
            x = x + 1;
        }
    }

    /// Whether the tile at `p` can be walked through: it exists and carries
    /// a tunnel; out-of-map coordinates are never walkable.
    pub fn is_tile_walkable(&self, pos: MapPos) -> (r: bool)
        requires
            self.wf(),
        ensures
            r == self.walkable_spec(pos),
    {
        match two_d_index_to_one_d_index(pos) {
            Some(i) => self.tiles[i].building == BuildingType::Tunnel,
            None => false,
        }
    }
}

/// Tile coordinate of a flat index, as a mathematical function.
pub open spec fn one_d_two_d_spec(i: int) -> MapPos {
    MapPos { x: (i % MAP_SIZE_X as int) as u32, y: (i / MAP_SIZE_X as int) as u32 }
}

/// One clipped cell of the 3 x 3 neighborhood: a singleton when the offset
/// tile exists, else empty.
pub open spec fn nb_cell(cx: int, cy: int, dx: int, dy: int) -> Seq<MapPos> {
    if 0 <= cx + dx < MAP_SIZE_X && 0 <= cy + dy < MAP_SIZE_Y {
        seq![MapPos { x: (cx + dx) as u32, y: (cy + dy) as u32 }]
    } else {
        seq![]
    }
}

/// The 3 x 3 block of tile coordinates around the tile containing
/// `world_pos`, clipped to the map, row by row from the lower-left.
pub open spec fn neighborhood_spec(world_pos: Vec2Fx) -> Seq<MapPos> {
    let cx = tile_coord_spec(world_pos.x as int);
    let cy = tile_coord_spec(world_pos.y as int);
    nb_cell(cx, cy, -1, -1) + nb_cell(cx, cy, 0, -1) + nb_cell(cx, cy, 1, -1) + nb_cell(
        cx,
        cy,
        -1,
        0,
    ) + nb_cell(cx, cy, 0, 0) + nb_cell(cx, cy, 1, 0) + nb_cell(cx, cy, -1, 1) + nb_cell(
        cx,
        cy,
        0,
        1,
    ) + nb_cell(cx, cy, 1, 1)
}

/// Pushes the tile at offset `(dx, dy)` from `(cx, cy)` when it lies on the
/// map.
fn push_nb_cell(out: &mut Vec<MapPos>, cx: u32, cy: u32, dx: i64, dy: i64)
    requires
        cx <= 1000,
        cy <= 1000,
        -1 <= dx <= 1,
        -1 <= dy <= 1,
    ensures
        final(out)@ == old(out)@ + nb_cell(cx as int, cy as int, dx as int, dy as int),
        (forall|i: int| 0 <= i < old(out)@.len() ==> in_map(#[trigger] old(out)@[i])) ==> (forall|
            i: int,
        | 0 <= i < final(out)@.len() ==> in_map(#[trigger] final(out)@[i])),
{
    let nx: i64 = cx as i64 + dx;
    let ny: i64 = cy as i64 + dy;
    if 0 <= nx && nx < MAP_SIZE_X as i64 && 0 <= ny && ny < MAP_SIZE_Y as i64 {
        out.push(MapPos { x: nx as u32, y: ny as u32 });
    }
    proof {
        assert(out@ =~= old(out)@ + nb_cell(cx as int, cy as int, dx as int, dy as int));
    }
}

/// The up-to-9 tile coordinates of the 3 x 3 block around the tile
/// containing `world_pos`, clipped to the map bounds: any offset landing
/// outside the map on either axis is excluded, not wrapped.
pub fn get_local_neighborhood(world_pos: Vec2Fx) -> (r: Vec<MapPos>)
    requires
        in_range(world_pos, POS_LIMIT as int),
    ensures
        r@ == neighborhood_spec(world_pos),
        r@.len() <= 9,
        forall|i: int| 0 <= i < r@.len() ==> in_map(#[trigger] r@[i]),
{
    let c = world_pos_to_two_d_index(world_pos);
    proof {
        lemma_tdiv_bounds(world_pos.x as int, TILE_SIZE_FX as int);
        lemma_tdiv_bounds(world_pos.y as int, TILE_SIZE_FX as int);
        assert(c.x <= 1000 && c.y <= 1000) by (nonlinear_arith)
            requires
                c.x == tile_coord_spec(world_pos.x as int),
                c.y == tile_coord_spec(world_pos.y as int),
                world_pos.x <= POS_LIMIT,
                world_pos.y <= POS_LIMIT,
                c.x >= 0 && c.y >= 0,
                (world_pos.x > 0 ==> c.x * TILE_SIZE_FX <= world_pos.x),
                (world_pos.y > 0 ==> c.y * TILE_SIZE_FX <= world_pos.y),
                TILE_SIZE_FX == 16_000_000,
                POS_LIMIT == 1_000_000_000,
        ;
    }
    let mut out: Vec<MapPos> = Vec::new();
    push_nb_cell(&mut out, c.x, c.y, -1, -1);
    push_nb_cell(&mut out, c.x, c.y, 0, -1);
    push_nb_cell(&mut out, c.x, c.y, 1, -1);
    push_nb_cell(&mut out, c.x, c.y, -1, 0);
    push_nb_cell(&mut out, c.x, c.y, 0, 0);
    push_nb_cell(&mut out, c.x, c.y, 1, 0);
    push_nb_cell(&mut out, c.x, c.y, -1, 1);
    push_nb_cell(&mut out, c.x, c.y, 0, 1);
    push_nb_cell(&mut out, c.x, c.y, 1, 1);
    proof {
        assert(out@ =~= neighborhood_spec(world_pos));
    }
    out
}

/// The buildable world: one flat tile array per z-level, levels created
/// lazily on first access to a new index.
#[derive(Clone, Debug, PartialEq, Eq)]
pub struct WorldMap {
    pub levels: Vec<ZLevel>,
}

impl WorldMap {
    /// Every level is complete, and no two levels share an index.
    pub open spec fn wf(self) -> bool {
        &&& forall|i: int| 0 <= i < self.levels@.len() ==> self.levels@[i].wf()
        &&& forall|i: int, j: int|
            0 <= i < j < self.levels@.len() ==> self.levels@[i].z_level != self.levels@[j].z_level
    }

    /// Some level carries the index `z`.
    pub open spec fn has_level(self, z: int) -> bool {
        exists|i: int| 0 <= i < self.levels@.len() && self.levels@[i].z_level == z
    }

    /// The position of the level with index `z` among the levels.
    pub open spec fn level_slot(self, z: int) -> int {
        choose|i: int| 0 <= i < self.levels@.len() && self.levels@[i].z_level == z
    }

    /// The level with index `z`.
    pub open spec fn level_at(self, z: int) -> ZLevel {
        self.levels@[self.level_slot(z)]
    }

    /// A map with a single blank z-level 0.
    pub fn new() -> (r: WorldMap)
        ensures
            r.wf(),
            r.levels@.len() == 1,
            r.levels@[0].z_level == 0,
            forall|i: int|
                0 <= i < MAP_DATA_SIZE ==> r.levels@[0].tiles@[i].building
                    == BuildingType::Vacant,
    {
        let mut levels: Vec<ZLevel> = Vec::new();
        levels.push(ZLevel::with_level(0));
        WorldMap { levels }
    }

    /// The position of the level with index `z`, or `None` when no such
    /// level exists yet.
    pub fn find_level(&self, z: i32) -> (r: Option<usize>)
        ensures
            match r {
                Some(i) => i < self.levels@.len() && self.levels@[i as int].z_level == z
                    && (forall|j: int| 0 <= j < i ==> self.levels@[j].z_level != z),
                None => !self.has_level(z as int),
            },
    {
        let mut k: usize = 0;
        while k < self.levels.len()
            invariant
                k <= self.levels@.len(),
                forall|j: int| 0 <= j < k ==> self.levels@[j].z_level != z,
            decreases self.levels@.len() - k,
        {
            if self.levels[k].z_level == z {
                return Some(k);
            }
            k = k + 1;
        }
        None
    }

    /// Returns the position of the level with index `z`, creating a blank
    /// level for it when none exists.
    pub fn get_or_create_level(&mut self, z: i32) -> (r: usize)
        requires
            old(self).wf(),
        ensures
            final(self).wf(),
            final(self).has_level(z as int),
            r < final(self).levels@.len(),
            final(self).levels@[r as int].z_level == z,
            old(self).has_level(z as int) ==> *final(self) == *old(self),
            !old(self).has_level(z as int) ==> {
                &&& final(self).levels@.len() == old(self).levels@.len() + 1
                &&& r == old(self).levels@.len()
                &&& (forall|j: int|
                    0 <= j < old(self).levels@.len() ==> final(self).levels@[j] == old(
                        self,
                    ).levels@[j])
                &&& (forall|i: int|
                    0 <= i < MAP_DATA_SIZE ==> final(self).levels@[r as int].tiles@[i].building
                        == BuildingType::Vacant)
            },
    {
        match self.find_level(z) {
            Some(i) => i,
            None => {
                let fresh = ZLevel::with_level(z);
                let r = self.levels.len();
                self.levels.push(fresh);
                r
            },
        }
    }

    /// Whether the tile at `pos` of level `z` can be walked through: false
    /// when the level does not exist.
    pub fn is_tile_walkable_at(&self, z: i32, pos: MapPos) -> (r: bool)
        requires
            self.wf(),
        ensures
            r == (self.has_level(z as int) && self.level_at(z as int).walkable_spec(pos)),
    {
        match self.find_level(z) {
            Some(i) => {
                proof {
                    assert(self.has_level(z as int));
                    let s = self.level_slot(z as int);
                    assert(0 <= s < self.levels@.len() && self.levels@[s].z_level == z);
                    assert(s == i as int);
                }
                self.levels[i].is_tile_walkable(pos)
            },
            None => false,
        }
    }

    /// The tile at `pos` of level `z`, or `None` when the level does not
    /// exist or `pos` lies outside the map.
    pub fn tile_at(&self, z: i32, pos: MapPos) -> (r: Option<TileState>)
        requires
            self.wf(),
        ensures
            (self.has_level(z as int) && in_map(pos)) ==> r == Some(
                self.level_at(z as int).tiles@[flat_index_spec(pos)],
            ),
            !(self.has_level(z as int) && in_map(pos)) ==> r is None,
    {
        match self.find_level(z) {
            Some(i) => {
                proof {
                    assert(self.has_level(z as int));
                    let s = self.level_slot(z as int);
                    assert(0 <= s < self.levels@.len() && self.levels@[s].z_level == z);
                    assert(s == i as int);
                }
                match two_d_index_to_one_d_index(pos) {
                    Some(t) => Some(self.levels[i].tiles[t]),
                    None => None,
                }
            },
            None => None,
        }
    }

    /// Builds `building_type` on the tile at `pos` of level `z`; a missing
    /// level or an out-of-map coordinate changes nothing.
    pub fn set_building(&mut self, z: i32, pos: MapPos, building_type: BuildingType)
        requires
            old(self).wf(),
        ensures
            final(self).wf(),
            final(self).levels@.len() == old(self).levels@.len(),
            !(old(self).has_level(z as int) && in_map(pos)) ==> *final(self) == *old(self),
            (old(self).has_level(z as int) && in_map(pos)) ==> {
                &&& final(self).levels@ == old(self).levels@.update(
                    old(self).level_slot(z as int),
                    final(self).levels@[old(self).level_slot(z as int)],
                )
                &&& final(self).levels@[old(self).level_slot(z as int)].z_level == z
                &&& final(self).levels@[old(self).level_slot(z as int)].tiles@ == old(
                    self,
                ).level_at(z as int).tiles@.update(
                    flat_index_spec(pos),
                    TileState { building: building_type },
                )
            },
    {
        match self.find_level(z) {
            Some(i) => {
                match two_d_index_to_one_d_index(pos) {
                    Some(t) => {
                        proof {
                            assert(old(self).has_level(z as int));
                            let s = old(self).level_slot(z as int);
                            assert(0 <= s < old(self).levels@.len() && old(
                                self,
                            ).levels@[s].z_level == z);
                            assert(s == i as int);
                        }
                        let mut level = self.levels.remove(i);
                        level.tiles.set(t, TileState { building: building_type });
                        self.levels.insert(i, level);
                        proof {
                            assert(self.levels@ =~= old(self).levels@.update(
                                i as int,
                                self.levels@[i as int],
                            ));
                        }
                    },
                    None => {},
                }
            },
            None => {},
        }
    }
}

/// The z-level the world-building interface currently works on.
#[derive(Clone, Copy, Debug, PartialEq, Eq, Structural)]
pub struct SelectedZLevel(pub i32);

/// The building type the world-building interface currently places.
#[derive(Clone, Copy, Debug, PartialEq, Eq, Structural)]
pub struct SelectedBuilding {
    pub selected_type: BuildingType,
}

/// Steps the selected z-level by `step`, creating a blank level for the
/// new index when none exists yet, and hands back the building of every
/// tile of the now-selected level, row by row, for a repaint.
pub fn change_selected_z_level(
    map: &mut WorldMap,
    selected: &mut SelectedZLevel,
    step: i32,
) -> (repaint: Vec<BuildingType>)
    requires
        old(map).wf(),
        -1_000_000 <= old(selected).0 + step <= 1_000_000,
    ensures
        final(selected).0 == old(selected).0 + step,
        final(map).wf(),
        final(map).has_level(final(selected).0 as int),
        old(map).has_level(old(selected).0 + step) ==> *final(map) == *old(map),
        !old(map).has_level(old(selected).0 + step) ==> final(map).levels@.len() == old(
            map,
        ).levels@.len() + 1 && (forall|j: int|
            0 <= j < old(map).levels@.len() ==> final(map).levels@[j] == old(map).levels@[j]) && (
        forall|i: int|
            0 <= i < MAP_DATA_SIZE ==> final(map).levels@[old(map).levels@.len() as int].tiles@[i].building
                == BuildingType::Vacant),
        repaint@ == Seq::new(
            MAP_DATA_SIZE as nat,
            |i: int| final(map).level_at(final(selected).0 as int).tiles@[i].building,
        ),
{
    selected.0 = selected.0 + step;
    let idx: usize = map.get_or_create_level(selected.0);
    proof {
        let z = selected.0 as int;
        assert(map.has_level(z));
        let s = map.level_slot(z);
        assert(0 <= s < map.levels@.len() && map.levels@[s].z_level == z);
        assert(s == idx as int);
    }
    let mut repaint: Vec<BuildingType> = Vec::new();
    let mut k: usize = 0;
    while k < MAP_DATA_SIZE
        invariant
            k <= MAP_DATA_SIZE,
            idx < map.levels@.len(),
            map.levels@[idx as int].wf(),
            map.levels@[idx as int] == map.level_at(selected.0 as int),
            repaint@ == Seq::new(
                k as nat,
                |i: int| map.level_at(selected.0 as int).tiles@[i].building,
            ),
        decreases MAP_DATA_SIZE - k,
    {
        repaint.push(map.levels[idx].tiles[k].building);
        proof {
            assert(repaint@ =~= Seq::new(
                (k + 1) as nat,
                |i: int| map.level_at(selected.0 as int).tiles@[i].building,
            ));
        }
        k = k + 1;
    }
    repaint
}

/// Builds the currently selected building on the tile under the cursor, on
/// the currently selected z-level; clicks outside the map, or with no such
/// level, change nothing.
pub fn build_at_cursor(
    map: &mut WorldMap,
    selected_z: &SelectedZLevel,
    selected_building: &SelectedBuilding,
    cursor_pos: Vec2Fx,
)
    requires
        old(map).wf(),
        in_range(cursor_pos, 10_000_000_000_000),
    ensures
        final(map).wf(),
        ({
            let tile = MapPos {
                x: tile_coord_spec(cursor_pos.x as int) as u32,
                y: tile_coord_spec(cursor_pos.y as int) as u32,
            };
            let z = selected_z.0 as int;
            if !(old(map).has_level(z) && in_map(tile)) {
                *final(map) == *old(map)
            } else {
                &&& final(map).levels@.len() == old(map).levels@.len()
                &&& final(map).levels@ == old(map).levels@.update(
                    old(map).level_slot(z),
                    final(map).levels@[old(map).level_slot(z)],
                )
                &&& final(map).levels@[old(map).level_slot(z)].z_level == selected_z.0
                &&& final(map).levels@[old(map).level_slot(z)].tiles@ == old(map).level_at(
                    z,
                ).tiles@.update(
                    flat_index_spec(tile),
                    TileState { building: selected_building.selected_type },
                )
            }
        }),
{
    let tile: MapPos = world_pos_to_two_d_index(cursor_pos);
    map.set_building(selected_z.0, tile, selected_building.selected_type);
}

/// World-space size of the map: 50 tiles of 16 world units per side.
pub fn world_map_size() -> (r: Vec2Fx)
    ensures
        r == (Vec2Fx { x: (800 * FP) as i64, y: (800 * FP) as i64 }),
{
    Vec2Fx { x: MAP_SIZE_X as i64 * TILE_SIZE_FX, y: MAP_SIZE_Y as i64 * TILE_SIZE_FX }
}

/// World-space center of the map: the colony home point.
pub fn world_map_center() -> (r: Vec2Fx)
    ensures
        r == (Vec2Fx { x: (400 * FP) as i64, y: (400 * FP) as i64 }),
{
    Vec2Fx { x: 400 * FP, y: 400 * FP }
}

} // verus!
