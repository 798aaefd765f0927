//! The whole simulation state and its tick: every ant moves, every ant's
//! deposit schedule runs, then the pheromone field decays and prunes —
//! one fixed deterministic order, so two runs from equal states with equal
//! time steps agree bit for bit.

use vstd::prelude::*;
use crate::fixed::{FP, POS_LIMIT, Vec2Fx, in_range, tdiv, tdiv_spec};
use crate::grid::{WorldMap, MapPos, world_map_center};
use crate::pheromone::{PheromoneField, MarkSlot, MarkId};
use crate::ant::Ant;
use crate::behavior::{
    step_ant_spec, step_bview_spec, deposit_tick_ant_spec, deposit_tick_slots_spec,
    deposit_tick_bview_spec,
};
use crate::rng::{AntRng, chacha8_word};

verus! {

/// The colony home: the center of the map.
pub open spec fn home_point_spec() -> Vec2Fx {
    Vec2Fx { x: (400 * FP) as i64, y: (400 * FP) as i64 }
}

/// The ants after the movement phase, processed first to last; each ant
/// reads the buckets as the ants before it left them.
pub open spec fn move_phase_ants_spec(
    ants: Seq<Ant>,
    map: WorldMap,
    slots: Seq<MarkSlot>,
    bviews: Seq<Seq<MarkId>>,
    foods: Seq<Vec2Fx>,
    dt: int,
) -> Seq<Ant>
    decreases ants.len(),
{
    if ants.len() == 0 {
        Seq::empty()
    } else {
        move_phase_ants_spec(ants.drop_last(), map, slots, bviews, foods, dt).push(
            step_ant_spec(
                ants.last(),
                map,
                slots,
                move_phase_bview_spec(ants.drop_last(), slots, bviews, foods),
                foods,
                home_point_spec(),
                dt,
            ),
        )
    }
}

/// The tile buckets after the movement phase's lazy cleanups.
pub open spec fn move_phase_bview_spec(
    ants: Seq<Ant>,
    slots: Seq<MarkSlot>,
    bviews: Seq<Seq<MarkId>>,
    foods: Seq<Vec2Fx>,
) -> Seq<Seq<MarkId>>
    decreases ants.len(),
{
    if ants.len() == 0 {
        bviews
    } else {
        step_bview_spec(
            ants.last(),
            slots,
            move_phase_bview_spec(ants.drop_last(), slots, bviews, foods),
            foods,
            home_point_spec(),
        )
    }
}

/// The ants after the deposit phase: each countdown stepped independently.
pub open spec fn deposit_phase_ants_spec(ants: Seq<Ant>, dt: int) -> Seq<Ant>
    decreases ants.len(),
{
    if ants.len() == 0 {
        Seq::empty()
    } else {
        deposit_phase_ants_spec(ants.drop_last(), dt).push(
            deposit_tick_ant_spec(ants.last(), dt),
        )
    }
}

/// The arena slots after the deposit phase, deposits applied first to
/// last.
pub open spec fn deposit_phase_slots_spec(
    ants: Seq<Ant>,
    slots: Seq<MarkSlot>,
    bviews: Seq<Seq<MarkId>>,
) -> Seq<MarkSlot>
    decreases ants.len(),
{
    if ants.len() == 0 {
        slots
    } else {
        deposit_tick_slots_spec(
            ants.last(),
            deposit_phase_slots_spec(ants.drop_last(), slots, bviews),
            deposit_phase_bview_spec(ants.drop_last(), slots, bviews),
        )
    }
}

/// The tile buckets after the deposit phase.
pub open spec fn deposit_phase_bview_spec(
    ants: Seq<Ant>,
    slots: Seq<MarkSlot>,
    bviews: Seq<Seq<MarkId>>,
) -> Seq<Seq<MarkId>>
    decreases ants.len(),
{
    if ants.len() == 0 {
        bviews
    } else {
        deposit_tick_bview_spec(
            ants.last(),
            deposit_phase_slots_spec(ants.drop_last(), slots, bviews),
            deposit_phase_bview_spec(ants.drop_last(), slots, bviews),
        )
    }
}

/// The arena slots after the decay/prune phase.
pub open spec fn decay_phase_slots_spec(slots: Seq<MarkSlot>, dt: int) -> Seq<MarkSlot> {
    Seq::new(slots.len(), |i: int| crate::pheromone::decayed_slot_spec(slots[i], dt))
}

/// The whole simulation state.
pub struct World {
    pub map: WorldMap,
    pub field: PheromoneField,
    pub ants: Vec<Ant>,
    pub foods: Vec<Vec2Fx>,
}

impl World {
    /// Every part of the state is well-formed.
    pub open spec fn wf(self) -> bool {
        &&& self.map.wf()
        &&& self.field.wf()
        &&& forall|i: int| 0 <= i < self.ants@.len() ==> (#[trigger] self.ants@[i]).wf()
        &&& forall|i: int|
            0 <= i < self.foods@.len() ==> in_range(#[trigger] self.foods@[i], POS_LIMIT as int)
    }

    /// The ants after one whole tick.
    pub open spec fn tick_ants_spec(self, dt: int) -> Seq<Ant> {
        deposit_phase_ants_spec(
            move_phase_ants_spec(
                self.ants@,
                self.map,
                self.field.slots@,
                self.field.bview(),
                self.foods@,
                dt,
            ),
            dt,
        )
    }

    /// The arena slots after one whole tick.
    pub open spec fn tick_slots_spec(self, dt: int) -> Seq<MarkSlot> {
        decay_phase_slots_spec(
            deposit_phase_slots_spec(
                move_phase_ants_spec(
                    self.ants@,
                    self.map,
                    self.field.slots@,
                    self.field.bview(),
                    self.foods@,
                    dt,
                ),
                self.field.slots@,
                move_phase_bview_spec(self.ants@, self.field.slots@, self.field.bview(), self.foods@),
            ),
            dt,
        )
    }

    /// The tile buckets after one whole tick.
    pub open spec fn tick_bview_spec(self, dt: int) -> Seq<Seq<MarkId>> {
        deposit_phase_bview_spec(
            move_phase_ants_spec(
                self.ants@,
                self.map,
                self.field.slots@,
                self.field.bview(),
                self.foods@,
                dt,
            ),
            self.field.slots@,
            move_phase_bview_spec(self.ants@, self.field.slots@, self.field.bview(), self.foods@),
        )
    }

    /// Advances the simulation by `dt` count-seconds: every ant takes its
    /// movement step (transitions, heading, bounce), every ant's deposit
    /// schedule runs, and finally the field decays and prunes — all in one
    /// fixed order, so the outcome is a function of the prior state and
    /// `dt` alone.
    pub fn tick(&mut self, dt: i64)
        requires
            old(self).wf(),
            0 <= dt <= crate::pheromone::MAX_TICK_DT,
        ensures
            final(self).wf(),
            final(self).map == old(self).map,
            final(self).foods@ == old(self).foods@,
            final(self).ants@ == old(self).tick_ants_spec(dt as int),
            final(self).field.slots@ == old(self).tick_slots_spec(dt as int),
            final(self).field.bview() == old(self).tick_bview_spec(dt as int),
    {
        let home: Vec2Fx = world_map_center();
        let ghost ants0 = self.ants@;
        let ghost slots0 = self.field.slots@;
        let ghost bv0 = self.field.bview();
        let n: usize = self.ants.len();
        // movement phase
        let mut i: usize = 0;
        while i < n
            invariant
                self.wf(),
                0 <= dt <= crate::pheromone::MAX_TICK_DT,
                home == home_point_spec(),
                i <= n,
                n == self.ants@.len() == ants0.len(),
                self.map == old(self).map,
                self.foods@ == old(self).foods@,
                ants0 == old(self).ants@,
                slots0 == old(self).field.slots@,
                bv0 == old(self).field.bview(),
                self.field.slots@ == slots0,
                forall|j: int| i <= j < n ==> self.ants@[j] == ants0[j],
                self.ants@.take(i as int) == move_phase_ants_spec(
                    ants0.take(i as int),
                    old(self).map,
                    slots0,
                    bv0,
                    old(self).foods@,
                    dt as int,
                ),
                self.field.bview() == move_phase_bview_spec(
                    ants0.take(i as int),
                    slots0,
                    bv0,
                    old(self).foods@,
                ),
            decreases n - i,
        {
            let mut a: Ant = self.ants[i];
            crate::behavior::update_ant_movement(&mut a, &self.map, &mut self.field, &self.foods, home, dt);
            self.ants.set(i, a);
            proof {
                assert(ants0.take(i + 1).drop_last() =~= ants0.take(i as int));
                assert(ants0.take(i + 1).last() == ants0[i as int]);
                assert(self.ants@.take(i + 1) =~= self.ants@.take(i as int).push(a));
            }
            i = i + 1;
        }
        proof {
            assert(ants0.take(n as int) =~= ants0);
            assert(self.ants@.take(n as int) =~= self.ants@);
        }
        let ghost moved = self.ants@;
        let ghost bv1 = self.field.bview();
        // deposit phase
        let mut i: usize = 0;
        while i < n
            invariant
                self.wf(),
                0 <= dt <= crate::pheromone::MAX_TICK_DT,
                i <= n,
                n == self.ants@.len() == moved.len(),
                self.map == old(self).map,
                self.foods@ == old(self).foods@,
                moved == move_phase_ants_spec(
                    old(self).ants@,
                    old(self).map,
                    old(self).field.slots@,
                    old(self).field.bview(),
                    old(self).foods@,
                    dt as int,
                ),
                bv1 == move_phase_bview_spec(
                    old(self).ants@,
                    old(self).field.slots@,
                    old(self).field.bview(),
                    old(self).foods@,
                ),
                slots0 == old(self).field.slots@,
                forall|j: int| i <= j < n ==> self.ants@[j] == moved[j],
                self.ants@.take(i as int) == deposit_phase_ants_spec(
                    moved.take(i as int),
                    dt as int,
                ),
                self.field.slots@ == deposit_phase_slots_spec(moved.take(i as int), slots0, bv1),
                self.field.bview() == deposit_phase_bview_spec(moved.take(i as int), slots0, bv1),
            decreases n - i,
        {
            let mut a: Ant = self.ants[i];
            crate::behavior::spawn_pheromones(&mut a, &mut self.field, dt);
            self.ants.set(i, a);
            proof {
                assert(moved.take(i + 1).drop_last() =~= moved.take(i as int));
                assert(moved.take(i + 1).last() == moved[i as int]);
                assert(self.ants@.take(i + 1) =~= self.ants@.take(i as int).push(a));
            }
            i = i + 1;
        }
        proof {
            assert(moved.take(n as int) =~= moved);
            assert(self.ants@.take(n as int) =~= self.ants@);
        }
        // decay and prune
        self.field.decay_pheromones(dt);
        proof {
            assert(self.field.slots@ =~= decay_phase_slots_spec(
                deposit_phase_slots_spec(moved, slots0, bv1),
                dt as int,
            ));
        }
    }
}

/// Truncated remainder: what is left after removing `m` as often as it
/// fits, with the dividend's sign.
pub open spec fn trem_spec(a: int, m: int) -> int {
    a - m * tdiv_spec(a, m)
}

/// Truncated remainder for a positive modulus.
pub fn trem(a: i64, m: i64) -> (r: i64)
    requires
        1 <= m <= 1_000_000,
        -1_000_000_000_000 <= a <= 1_000_000_000_000,
    ensures
        r == trem_spec(a as int, m as int),
        -m < r < m,
{
    proof {
        crate::fixed::lemma_tdiv_bounds(a as int, m as int);
        let q = tdiv_spec(a as int, m as int);
        assert(crate::fixed::abs_spec(q) * m <= crate::fixed::abs_spec(a as int)
            && crate::fixed::abs_spec(a as int) < (crate::fixed::abs_spec(q) + 1) * m);
        assert(-m < a - m * q < m && -1_000_000_000_000 <= m * q
            <= 1_000_000_000_000) by (nonlinear_arith)
            requires
                m >= 1,
                crate::fixed::abs_spec(q) * m <= crate::fixed::abs_spec(a as int),
                crate::fixed::abs_spec(a as int) < (crate::fixed::abs_spec(q) + 1) * m,
                (a >= 0 ==> q >= 0) && (a <= 0 ==> q <= 0),
                -1_000_000_000_000 <= a <= 1_000_000_000_000,
        ;
    }
    let q: i64 = tdiv(a, m);
    a - m * q
}

/// The signed value of the low 32 bits of a raw draw, reinterpreted as a
/// 32-bit two's-complement number.
pub open spec fn low32_signed_spec(w: u64) -> int {
    let low = (w as int) % 0x1_0000_0000;
    if low >= 0x8000_0000 {
        low - 0x1_0000_0000
    } else {
        low
    }
}

/// Where food source `i` of the initial population lands: the map center
/// offset by a draw within (-500, 500) world units on the x axis and
/// (-300, 300) on the y axis.
pub open spec fn food_pos_spec(seed: u64, i: int) -> Vec2Fx {
    let wx = chacha8_word(seed, (4 * i) as u64);
    let wy = chacha8_word(seed, (4 * i + 2) as u64);
    Vec2Fx {
        x: (400 * FP + trem_spec(low32_signed_spec(wx), 500) * FP) as i64,
        y: (400 * FP + trem_spec(low32_signed_spec(wy), 300) * FP) as i64,
    }
}

/// The stream seed handed to ant `i` of the initial population: forked
/// from the master stream after the food draws.
pub open spec fn ant_seed_spec(seed: u64, n_foods: int, i: int) -> u64 {
    chacha8_word(seed, (4 * n_foods + 2 * i) as u64)
}

impl World {
    /// A freshly populated world: a single z-level with a tunnel block
    /// around the center, an empty pheromone field, `n_foods` food sources
    /// scattered around the center by the master stream, and `n_ants` ants
    /// at the center, each forked its own reproducible stream seed.
    pub fn new(seed: u64, n_ants: usize, n_foods: usize) -> (w: World)
        requires
            n_ants <= 1_000_000,
            n_foods <= 1_000_000,
        ensures
            w.wf(),
            w.map.levels@.len() == 1,
            w.map.levels@[0].z_level == 0,
            forall|i: int|
                0 <= i < crate::grid::MAP_DATA_SIZE
                    ==> (#[trigger] w.map.levels@[0].tiles@[i]).building == (
                if crate::grid::ZLevel::in_area(
                    crate::grid::one_d_two_d_spec(i),
                    MapPos { x: 20, y: 20 },
                    MapPos { x: 30, y: 30 },
                ) {
                    crate::grid::BuildingType::Tunnel
                } else {
                    crate::grid::BuildingType::Vacant
                }),
            w.field.slots@.len() == 0,
            forall|b: int|
                0 <= b < crate::grid::MAP_DATA_SIZE ==> w.field.bview()[b] == Seq::<
                    MarkId,
                >::empty(),
            w.foods@ == Seq::new(n_foods as nat, |i: int| food_pos_spec(seed, i)),
            w.ants@ == Seq::new(
                n_ants as nat,
                |i: int| Ant::spawn_spec(home_point_spec(), ant_seed_spec(seed, n_foods as int, i)),
            ),
    {
        let mut map = WorldMap::new();
        let mut level0 = map.levels.remove(0);
        level0.set_area(
            MapPos { x: 20, y: 20 },
            MapPos { x: 30, y: 30 },
            crate::grid::BuildingType::Tunnel,
        );
        map.levels.insert(0, level0);
        let field = PheromoneField::new();
        let mut master = AntRng::from_seed(seed);
        let mut foods: Vec<Vec2Fx> = Vec::new();
        let mut k: usize = 0;
        while k < n_foods
            invariant
                k <= n_foods <= 1_000_000,
                master.seed == seed,
                master.word_pos == 4 * k,
                foods@ == Seq::new(k as nat, |i: int| food_pos_spec(seed, i)),
                forall|i: int|
                    0 <= i < foods@.len() ==> in_range(#[trigger] foods@[i], POS_LIMIT as int),
            decreases n_foods - k,
        {
            let wx: u64 = master.next_raw();
            let wy: u64 = master.next_raw();
            let lx: u64 = wx % 0x1_0000_0000;
            let sx: i64 = if lx >= 0x8000_0000 {
                (lx as i64) - 0x1_0000_0000
            } else {
                lx as i64
            };
            let ly: u64 = wy % 0x1_0000_0000;
            let sy: i64 = if ly >= 0x8000_0000 {
                (ly as i64) - 0x1_0000_0000
            } else {
                ly as i64
            };
            let fx: i64 = 400 * FP + trem(sx, 500) * FP;
            let fy: i64 = 400 * FP + trem(sy, 300) * FP;
            foods.push(Vec2Fx { x: fx, y: fy });
            proof {
                assert(sx == low32_signed_spec(wx));
                assert(sy == low32_signed_spec(wy));
                assert(foods@ =~= Seq::new((k + 1) as nat, |i: int| food_pos_spec(seed, i)));
            }
            k = k + 1;
        }
        let mut ants: Vec<Ant> = Vec::new();
        let home: Vec2Fx = world_map_center();
        let mut k: usize = 0;
        while k < n_ants
            invariant
                k <= n_ants <= 1_000_000,
                n_foods <= 1_000_000,
                home == home_point_spec(),
                master.seed == seed,
                master.word_pos == 4 * n_foods + 2 * k,
                ants@ == Seq::new(
                    k as nat,
                    |i: int| Ant::spawn_spec(
                        home_point_spec(),
                        ant_seed_spec(seed, n_foods as int, i),
                    ),
                ),
                forall|i: int| 0 <= i < ants@.len() ==> (#[trigger] ants@[i]).wf(),
            decreases n_ants - k,
        {
            let child_seed: u64 = master.next_raw();
            ants.push(Ant::spawn(home, child_seed));
            proof {
                assert(ants@ =~= Seq::new(
                    (k + 1) as nat,
                    |i: int| Ant::spawn_spec(
                        home_point_spec(),
                        ant_seed_spec(seed, n_foods as int, i),
                    ),
                ));
            }
            k = k + 1;
        }
        let w = World { map, field, ants, foods };
        proof {
            assert(w.map.wf());
            assert(forall|b: int|
                0 <= b < crate::grid::MAP_DATA_SIZE ==> #[trigger] w.field.bview()[b]
                    =~= Seq::<MarkId>::empty());
        }
        w
    }
}

/// Determinism law: the tick outcome is a mathematical function of the
/// prior state and the time step, so two runs over an identical ant
/// population (same seeds, same positions) and an identical sequence of
/// time steps end in identical positions and identical pheromone fields.
pub proof fn lemma_tick_deterministic(w1: World, w2: World, dt1: int, dt2: int)
    requires
        w1.ants@ == w2.ants@,
        w1.map == w2.map,
        w1.field.slots@ == w2.field.slots@,
        w1.field.bview() == w2.field.bview(),
        w1.foods@ == w2.foods@,
        dt1 == dt2,
    ensures
        w1.tick_ants_spec(dt1) == w2.tick_ants_spec(dt2),
        w1.tick_slots_spec(dt1) == w2.tick_slots_spec(dt2),
        w1.tick_bview_spec(dt1) == w2.tick_bview_spec(dt2),
{
}

} // verus!
