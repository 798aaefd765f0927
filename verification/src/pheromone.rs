//! The pheromone field: a generation-indexed arena of scent marks, bucketed
//! by map tile for local lookup.
//!
//! Marks decay every tick and are pruned exactly when their death timer
//! crosses below zero. Depositing near an existing mark of the same kind
//! reinforces that mark in place (nudging it toward the depositor) instead
//! of spawning a duplicate. Tile buckets hold weak references: a bucket may
//! still name a pruned mark, and such stale entries are dropped lazily on
//! the next local query.

use vstd::prelude::*;
use crate::fixed::{
    FP, POS_LIMIT, Vec2Fx, in_range, len_sq_spec, tdiv, tdiv_spec, clamp_abs, clamp_spec,
    lemma_tdiv_bounds, lemma_tdiv_abs_le, abs_spec,
};
use crate::grid::{MAP_DATA_SIZE, MapPos, in_map, flat_index_spec, world_pos_to_two_d_index};

verus! {

/// The two scent kinds: dropped while wandering and while hauling food
/// respectively, and each followed by ants in the opposite state.
#[derive(Clone, Copy, Debug, PartialEq, Eq, Structural)]
pub enum PheromoneKind {
    HomeThisWay,
    FoodThisWay,
}

/// One scent deposit.
#[derive(Clone, Copy, Debug, PartialEq, Eq, Structural)]
pub struct Pheromone {
    pub kind: PheromoneKind,
    /// Scent strength, in fixed-point counts; decays over time and can be
    /// reinforced upward. May transiently pass below zero.
    pub intensity: i64,
    /// Remaining lifetime, in fixed-point seconds; the mark is pruned
    /// exactly when this crosses below zero.
    pub death_timer: i64,
    /// World-space position; reinforcement nudges it continuously.
    pub position: Vec2Fx,
    /// The tile bucket that references this mark.
    pub bucket: usize,
}

/// A stable handle to a mark: an arena slot plus the generation the slot
/// carried when the mark was created.
#[derive(Clone, Copy, Debug, PartialEq, Eq, Structural)]
pub struct MarkId {
    pub slot: usize,
    pub gen: u64,
}

/// One arena slot; the generation grows when the slot is reused, so stale
/// handles stop resolving.
#[derive(Clone, Debug, PartialEq, Eq)]
pub struct MarkSlot {
    pub gen: u64,
    pub mark: Option<Pheromone>,
}

/// The weak back-references from one map tile to the marks created on it.
#[derive(Clone, Debug, PartialEq, Eq)]
pub struct PheromoneTileGroup {
    pub ids: Vec<MarkId>,
}

/// Largest intensity a mark may carry; reinforcement saturates here, far
/// beyond anything a simulation reaches.
pub const INTENSITY_CAP: i64 = 1_000_000_000_000;

/// Floor for decayed intensity and death timers; decay saturates here, far
/// below anything a simulation reaches.
pub const VALUE_FLOOR: i64 = -1_000_000_000_000;

/// Largest time step one decay call accepts (one hour).
pub const MAX_TICK_DT: i64 = 3_600_000_000;

/// Divisor of the decay rate: intensity and lifetime drop by `dt / 10`
/// (a rate of 0.1 per second).
pub const PHEROMONE_DECAY_DIVISOR: i64 = 10;

/// Reinforcement radius: a deposit merges into a same-kind mark within 5
/// world units.
pub const PHER_PROX_DISTANCE: i64 = 5_000_000;

/// The field of marks.
pub struct PheromoneField {
    pub slots: Vec<MarkSlot>,
    pub buckets: Vec<PheromoneTileGroup>,
}

/// The handle resolves: its slot still carries the generation it names, and
/// a live mark.
pub open spec fn resolves(slots: Seq<MarkSlot>, id: MarkId) -> bool {
    &&& id.slot < slots.len()
    &&& slots[id.slot as int].gen == id.gen
    &&& slots[id.slot as int].mark is Some
}

/// The mark a resolving handle names.
pub open spec fn mark_of(slots: Seq<MarkSlot>, id: MarkId) -> Pheromone {
    slots[id.slot as int].mark->Some_0
}

/// A well-formed live mark: bounded intensity and timer, in-range position,
/// and a bucket that exists and references it.
pub open spec fn mark_wf(m: Pheromone) -> bool {
    &&& VALUE_FLOOR <= m.intensity <= INTENSITY_CAP
    &&& VALUE_FLOOR <= m.death_timer <= FP
    &&& in_range(m.position, POS_LIMIT as int)
    &&& m.bucket < MAP_DATA_SIZE
}

impl PheromoneField {
    /// One bucket per map tile; every live mark is sound and referenced by
    /// its bucket; every bucket entry names an existing slot.
    pub open spec fn wf(self) -> bool {
        &&& self.buckets@.len() == MAP_DATA_SIZE
        &&& forall|s: int|
            0 <= s < self.slots@.len() && self.slots@[s].mark is Some ==> {
                &&& mark_wf(#[trigger] self.slots@[s].mark->Some_0)
                &&& self.buckets@[self.slots@[s].mark->Some_0.bucket as int].ids@.contains(
                    MarkId { slot: s as usize, gen: self.slots@[s].gen },
                )
            }
        &&& forall|b: int, k: int|
            0 <= b < self.buckets@.len() && 0 <= k < self.buckets@[b].ids@.len()
                ==> (#[trigger] self.buckets@[b].ids@[k]).slot < self.slots@.len()
    }

    /// The slot holds a live mark.
    pub open spec fn live(self, s: int) -> bool {
        0 <= s < self.slots@.len() && self.slots@[s].mark is Some
    }

    /// The live mark at slot `s`.
    pub open spec fn mark_at(self, s: int) -> Pheromone {
        self.slots@[s].mark->Some_0
    }

    /// An empty field: no marks, one empty bucket per map tile.
    pub fn new() -> (r: PheromoneField)
        ensures
            r.wf(),
            r.slots@.len() == 0,
            forall|b: int| 0 <= b < MAP_DATA_SIZE ==> r.buckets@[b].ids@.len() == 0,
    {
        let mut buckets: Vec<PheromoneTileGroup> = Vec::new();
        let mut k: usize = 0;
        while k < MAP_DATA_SIZE
            invariant
                k == buckets@.len() <= MAP_DATA_SIZE,
                forall|b: int| 0 <= b < k ==> buckets@[b].ids@.len() == 0,
            decreases MAP_DATA_SIZE - k,
        {
            buckets.push(PheromoneTileGroup { ids: Vec::new() });
            k = k + 1;
        }
        PheromoneField { slots: Vec::new(), buckets }
    }
}

/// What decay does to one scalar: drop by `dt / 10`, saturating at the
/// machine floor.
pub open spec fn decayed_spec(v: int, dt: int) -> int {
    let d = v - tdiv_spec(dt, PHEROMONE_DECAY_DIVISOR as int);
    if d < VALUE_FLOOR {
        VALUE_FLOOR as int
    } else {
        d
    }
}

/// What one decay step leaves in a slot: a decayed mark, or nothing once the
/// decayed timer has crossed below zero.
pub open spec fn decayed_slot_spec(sl: MarkSlot, dt: int) -> MarkSlot {
    match sl.mark {
        None => sl,
        Some(m) => {
            let t = decayed_spec(m.death_timer as int, dt);
            if t < 0 {
                MarkSlot { gen: sl.gen, mark: None }
            } else {
                MarkSlot {
                    gen: sl.gen,
                    mark: Some(
                        Pheromone {
                            intensity: decayed_spec(m.intensity as int, dt) as i64,
                            death_timer: t as i64,
                            ..m
                        },
                    ),
                }
            }
        },
    }
}

impl PheromoneField {
    /// Applies one tick of decay to every live mark, then prunes: intensity
    /// and death timer each drop by `dt / 10`, and a mark is removed exactly
    /// when its decayed death timer is below zero. Buckets are untouched
    /// (stale references heal lazily on the next local query).
    pub fn decay_pheromones(&mut self, dt: i64)
        requires
            old(self).wf(),
            0 <= dt <= MAX_TICK_DT,
        ensures
            final(self).wf(),
            final(self).buckets@ == old(self).buckets@,
            final(self).slots@.len() == old(self).slots@.len(),
            forall|s: int|
                0 <= s < old(self).slots@.len() ==> final(self).slots@[s] == decayed_slot_spec(
                    old(self).slots@[s],
                    dt as int,
                ),
    {
        let d: i64 = tdiv(dt, PHEROMONE_DECAY_DIVISOR);
        proof {
            lemma_tdiv_bounds(dt as int, PHEROMONE_DECAY_DIVISOR as int);
        }
        let n: usize = self.slots.len();
        let mut s: usize = 0;
        while s < n
            invariant
                self.wf(),
                n == self.slots@.len() == old(self).slots@.len(),
                s <= n,
                d == tdiv_spec(dt as int, PHEROMONE_DECAY_DIVISOR as int),
                0 <= d <= dt <= MAX_TICK_DT,
                self.buckets@ == old(self).buckets@,
                forall|j: int|
                    0 <= j < s ==> self.slots@[j] == decayed_slot_spec(
                        old(self).slots@[j],
                        dt as int,
                    ),
                forall|j: int| s <= j < n ==> self.slots@[j] == old(self).slots@[j],
            decreases n - s,
        {
            let gen: u64 = self.slots[s].gen;
            let entry: Option<Pheromone> = self.slots[s].mark;
            match entry {
                None => {},
                Some(m) => {
                    let ti: i64 = if m.death_timer - d < VALUE_FLOOR {
                        VALUE_FLOOR
                    } else {
                        m.death_timer - d
                    };
                    if ti < 0 {
                        self.slots.set(s, MarkSlot { gen, mark: None });
                    } else {
                        let ii: i64 = if m.intensity - d < VALUE_FLOOR {
                            VALUE_FLOOR
                        } else {
                            m.intensity - d
                        };
                        self.slots.set(
                            s,
                            MarkSlot {
                                gen,
                                mark: Some(Pheromone { intensity: ii, death_timer: ti, ..m }),
                            },
                        );
                    }
                },
            }
            s = s + 1;
        }
    }
}

/// Between reinforcement events the field is monotone: one decay step never
/// raises a mark's intensity or remaining lifetime, and it removes a mark
/// exactly when the decayed death timer has crossed below zero. Once the
/// step amounts to at least one fixed-point count (a tenth of `dt` of at
/// least `PHEROMONE_DECAY_DIVISOR` counts — anything shorter decays by
/// zero, the fixed-point quantum), both values strictly decrease until
/// they reach the machine saturation floor.
pub proof fn lemma_decay_monotone(sl: MarkSlot, dt: int)
    requires
        0 <= dt,
        sl.mark is Some ==> VALUE_FLOOR <= sl.mark->Some_0.intensity && VALUE_FLOOR
            <= sl.mark->Some_0.death_timer,
    ensures
        sl.mark is Some ==> {
            let after = decayed_slot_spec(sl, dt);
            &&& (after.mark is Some ==> after.mark->Some_0.intensity
                <= sl.mark->Some_0.intensity && after.mark->Some_0.death_timer
                <= sl.mark->Some_0.death_timer)
            &&& (after.mark is Some && dt >= PHEROMONE_DECAY_DIVISOR
                && sl.mark->Some_0.intensity > VALUE_FLOOR ==> after.mark->Some_0.intensity
                < sl.mark->Some_0.intensity)
            &&& (after.mark is Some && dt >= PHEROMONE_DECAY_DIVISOR
                && sl.mark->Some_0.death_timer > VALUE_FLOOR ==> after.mark->Some_0.death_timer
                < sl.mark->Some_0.death_timer)
            &&& (after.mark is None <==> decayed_spec(sl.mark->Some_0.death_timer as int, dt)
                < 0)
        },
        sl.mark is None ==> decayed_slot_spec(sl, dt) == sl,
{
    lemma_tdiv_bounds(dt, PHEROMONE_DECAY_DIVISOR as int);
    if dt >= PHEROMONE_DECAY_DIVISOR {
        assert(tdiv_spec(dt, PHEROMONE_DECAY_DIVISOR as int) >= 1) by {
            vstd::arithmetic::div_mod::lemma_div_is_ordered(
                PHEROMONE_DECAY_DIVISOR as int,
                dt,
                PHEROMONE_DECAY_DIVISOR as int,
            );
            vstd::arithmetic::div_mod::lemma_div_by_multiple(1, PHEROMONE_DECAY_DIVISOR as int);
        }
    }
}

/// The bucket entries that still resolve, in order.
pub open spec fn cleaned_ids_spec(slots: Seq<MarkSlot>, ids: Seq<MarkId>) -> Seq<MarkId>
    decreases ids.len(),
{
    if ids.len() == 0 {
        Seq::empty()
    } else {
        cleaned_ids_spec(slots, ids.drop_last()) + (if resolves(slots, ids.last()) {
            seq![ids.last()]
        } else {
            Seq::empty()
        })
    }
}

/// The live marks the bucket entries name, in order.
pub open spec fn resolved_marks_spec(slots: Seq<MarkSlot>, ids: Seq<MarkId>) -> Seq<Pheromone>
    decreases ids.len(),
{
    if ids.len() == 0 {
        Seq::empty()
    } else {
        resolved_marks_spec(slots, ids.drop_last()) + (if resolves(slots, ids.last()) {
            seq![mark_of(slots, ids.last())]
        } else {
            Seq::empty()
        })
    }
}

/// Cleaning keeps exactly the entries that resolve.
pub proof fn lemma_cleaned_contains(slots: Seq<MarkSlot>, ids: Seq<MarkId>, id: MarkId)
    ensures
        cleaned_ids_spec(slots, ids).contains(id) <==> (ids.contains(id) && resolves(slots, id)),
    decreases ids.len(),
{
    if ids.len() == 0 {
    } else {
        lemma_cleaned_contains(slots, ids.drop_last(), id);
        if ids.contains(id) {
            let k = choose|k: int| 0 <= k < ids.len() && ids[k] == id;
            if k < ids.len() - 1 {
                assert(ids.drop_last()[k] == id);
                assert(ids.drop_last().contains(id));
            }
        }
        if ids.drop_last().contains(id) {
            let k = choose|k: int| 0 <= k < ids.drop_last().len() && ids.drop_last()[k] == id;
            assert(ids[k] == id);
            assert(ids.contains(id));
        }
        if ids.last() == id {
            assert(ids[ids.len() - 1] == id);
            assert(ids.contains(id));
        }
        if cleaned_ids_spec(slots, ids).contains(id) {
            let c = cleaned_ids_spec(slots, ids);
            let cp = cleaned_ids_spec(slots, ids.drop_last());
            let k = choose|k: int| 0 <= k < c.len() && c[k] == id;
            if k < cp.len() {
                assert(cp.contains(id));
            } else {
                assert(resolves(slots, ids.last()) && id == ids.last());
            }
        }
        if ids.contains(id) && resolves(slots, id) {
            if ids.drop_last().contains(id) {
                assert(cleaned_ids_spec(slots, ids.drop_last()).contains(id));
                let cp = cleaned_ids_spec(slots, ids.drop_last());
                let k = choose|k: int| 0 <= k < cp.len() && cp[k] == id;
                assert(cleaned_ids_spec(slots, ids)[k] == id);
            } else {
                assert(ids.last() == id);
                let c = cleaned_ids_spec(slots, ids);
                assert(c[c.len() - 1] == id);
            }
        }
    }
}

/// Cleaning an already-cleaned list changes nothing, and resolving through
/// the cleaned list yields the same marks as resolving the original.
pub proof fn lemma_cleaned_idempotent(slots: Seq<MarkSlot>, ids: Seq<MarkId>)
    ensures
        cleaned_ids_spec(slots, cleaned_ids_spec(slots, ids)) == cleaned_ids_spec(slots, ids),
        resolved_marks_spec(slots, cleaned_ids_spec(slots, ids)) == resolved_marks_spec(
            slots,
            ids,
        ),
    decreases ids.len(),
{
    if ids.len() == 0 {
        assert(cleaned_ids_spec(slots, Seq::<MarkId>::empty()) =~= Seq::<MarkId>::empty());
        assert(resolved_marks_spec(slots, Seq::<MarkId>::empty()) =~= Seq::<
            Pheromone,
        >::empty());
    } else {
        lemma_cleaned_idempotent(slots, ids.drop_last());
        let cp = cleaned_ids_spec(slots, ids.drop_last());
        if resolves(slots, ids.last()) {
            let c = cleaned_ids_spec(slots, ids);
            assert(c == cp + seq![ids.last()]);
            assert(c.drop_last() =~= cp);
            assert(c.last() == ids.last());
            assert(cleaned_ids_spec(slots, c) == cleaned_ids_spec(slots, cp) + seq![
                ids.last(),
            ]);
            assert(resolved_marks_spec(slots, c) == resolved_marks_spec(slots, cp) + seq![
                mark_of(slots, ids.last()),
            ]);
        } else {
            assert(cleaned_ids_spec(slots, ids) == cp + Seq::<MarkId>::empty());
            assert(cleaned_ids_spec(slots, ids) =~= cp);
            assert(resolved_marks_spec(slots, ids) =~= resolved_marks_spec(slots, cp));
        }
    }
}

/// The bucket contents, as sequences of handles.
pub open spec fn groups_view(buckets: Seq<PheromoneTileGroup>) -> Seq<Seq<MarkId>> {
    buckets.map_values(|g: PheromoneTileGroup| g.ids@)
}

/// The buckets after cleaning the listed tiles, as a mathematical function.
pub open spec fn cleaned_buckets_spec(
    slots: Seq<MarkSlot>,
    tiles: Seq<MapPos>,
    bviews: Seq<Seq<MarkId>>,
) -> Seq<Seq<MarkId>>
    decreases tiles.len(),
{
    if tiles.len() == 0 {
        bviews
    } else {
        let prev = cleaned_buckets_spec(slots, tiles.drop_last(), bviews);
        let b = flat_index_spec(tiles.last());
        prev.update(b, cleaned_ids_spec(slots, bviews[b]))
    }
}

/// Every live mark gathered from the listed tiles, bucket by bucket in
/// order, as a mathematical function.
pub open spec fn collect_spec(
    slots: Seq<MarkSlot>,
    tiles: Seq<MapPos>,
    bviews: Seq<Seq<MarkId>>,
) -> Seq<Pheromone>
    decreases tiles.len(),
{
    if tiles.len() == 0 {
        Seq::empty()
    } else {
        collect_spec(slots, tiles.drop_last(), bviews) + resolved_marks_spec(
            slots,
            bviews[flat_index_spec(tiles.last())],
        )
    }
}

/// After cleaning, each bucket is either untouched or exactly its cleaned
/// original.
pub proof fn lemma_cleaned_buckets_cases(
    slots: Seq<MarkSlot>,
    tiles: Seq<MapPos>,
    bviews: Seq<Seq<MarkId>>,
    b: int,
)
    requires
        forall|i: int| 0 <= i < tiles.len() ==> in_map(#[trigger] tiles[i]),
        bviews.len() == MAP_DATA_SIZE,
    ensures
        cleaned_buckets_spec(slots, tiles, bviews).len() == bviews.len(),
        0 <= b < bviews.len() ==> (cleaned_buckets_spec(slots, tiles, bviews)[b] == bviews[b]
            || cleaned_buckets_spec(slots, tiles, bviews)[b] == cleaned_ids_spec(
            slots,
            bviews[b],
        )),
    decreases tiles.len(),
{
    if tiles.len() == 0 {
    } else {
        lemma_cleaned_buckets_cases(slots, tiles.drop_last(), bviews, b);
        assert(in_map(tiles[tiles.len() - 1]));
    }
}

impl PheromoneField {
    /// The bucket contents, as sequences of handles.
    pub open spec fn bview(self) -> Seq<Seq<MarkId>> {
        groups_view(self.buckets@)
    }

    /// Gathers every mark referenced by the buckets of the given in-map
    /// tiles, in bucket order, dropping stale bucket entries on the way:
    /// the lazy self-healing of weak references. The marks themselves are
    /// untouched.
    pub fn collect_local_marks(&mut self, tiles: &Vec<MapPos>) -> (out: Vec<Pheromone>)
        requires
            old(self).wf(),
            forall|i: int| 0 <= i < tiles@.len() ==> in_map(#[trigger] tiles@[i]),
        ensures
            final(self).wf(),
            final(self).slots@ == old(self).slots@,
            final(self).bview() == cleaned_buckets_spec(
                old(self).slots@,
                tiles@,
                old(self).bview(),
            ),
            out@ == collect_spec(old(self).slots@, tiles@, old(self).bview()),
    {
        let ghost orig_bv = self.bview();
        let mut out: Vec<Pheromone> = Vec::new();
        let mut k: usize = 0;
        while k < tiles.len()
            invariant
                self.wf(),
                old(self).wf(),
                forall|i: int| 0 <= i < tiles@.len() ==> in_map(#[trigger] tiles@[i]),
                k <= tiles@.len(),
                orig_bv == old(self).bview(),
                orig_bv.len() == MAP_DATA_SIZE,
                self.slots@ == old(self).slots@,
                self.bview() == cleaned_buckets_spec(
                    old(self).slots@,
                    tiles@.take(k as int),
                    orig_bv,
                ),
                out@ == collect_spec(old(self).slots@, tiles@.take(k as int), orig_bv),
            decreases tiles@.len() - k,
        {
            let t: MapPos = tiles[k];
            proof {
                assert(in_map(tiles@[k as int]));
                lemma_cleaned_buckets_cases(
                    old(self).slots@,
                    tiles@.take(k as int),
                    orig_bv,
                    flat_index_spec(t),
                );
            }
            let b: usize = (t.y * crate::grid::MAP_SIZE_X + t.x) as usize;
            let ghost cur_ids = self.buckets@[b as int].ids@;
            proof {
                assert(cur_ids == self.bview()[b as int]);
            }
            let mut kept: Vec<MarkId> = Vec::new();
            let mut out_inner_len: usize = 0;
            let mut j: usize = 0;
            let n: usize = self.buckets[b].ids.len();
            while j < n
                invariant
                    self.wf(),
                    b < self.buckets@.len(),
                    n == self.buckets@[b as int].ids@.len(),
                    j <= n,
                    self.slots@ == old(self).slots@,
                    cur_ids == self.buckets@[b as int].ids@,
                    kept@ == cleaned_ids_spec(self.slots@, cur_ids.take(j as int)),
                    out@ == collect_spec(old(self).slots@, tiles@.take(k as int), orig_bv)
                        + resolved_marks_spec(self.slots@, cur_ids.take(j as int)),
                decreases n - j,
            {
                let id: MarkId = self.buckets[b].ids[j];
                proof {
                    assert(cur_ids.take(j + 1).drop_last() =~= cur_ids.take(j as int));
                    assert(cur_ids.take(j + 1).last() == id);
                }
                if id.slot < self.slots.len() && self.slots[id.slot].gen == id.gen
                    && self.slots[id.slot].mark.is_some() {
                    kept.push(id);
                    let m: Pheromone = match self.slots[id.slot].mark {
                        Some(m) => m,
                        None => Pheromone {
                            kind: PheromoneKind::HomeThisWay,
                            intensity: 0,
                            death_timer: 0,
                            position: Vec2Fx { x: 0, y: 0 },
                            bucket: 0,
                        },
                    };
                    out.push(m);
                }
                j = j + 1;
            }
            proof {
                assert(cur_ids.take(n as int) =~= cur_ids);
            }
            self.buckets.set(b, PheromoneTileGroup { ids: kept });
            let slots_len: usize = self.slots.len();
            proof {
                let slots = old(self).slots@;
                let prev = cleaned_buckets_spec(slots, tiles@.take(k as int), orig_bv);
                assert(tiles@.take(k + 1).drop_last() =~= tiles@.take(k as int));
                assert(tiles@.take(k + 1).last() == t);
                if prev[b as int] == orig_bv[b as int] {
                } else {
                    assert(cur_ids == cleaned_ids_spec(slots, orig_bv[b as int]));
                    lemma_cleaned_idempotent(slots, orig_bv[b as int]);
                }
                assert(self.bview() =~= cleaned_buckets_spec(
                    slots,
                    tiles@.take(k + 1),
                    orig_bv,
                ));
                assert(out@ =~= collect_spec(slots, tiles@.take(k + 1), orig_bv));
                // well-formedness: live marks remain referenced by their
                // (cleaned) buckets, and kept entries name existing slots
                assert forall|s: int|
                    0 <= s < self.slots@.len() && self.slots@[s].mark is Some implies {
                    &&& mark_wf(#[trigger] self.slots@[s].mark->Some_0)
                    &&& self.buckets@[self.slots@[s].mark->Some_0.bucket as int].ids@.contains(
                        MarkId { slot: s as usize, gen: self.slots@[s].gen },
                    )
                } by {
                    assert(s < slots_len as int);
                    let mid = MarkId { slot: s as usize, gen: self.slots@[s].gen };
                    let mb = self.slots@[s].mark->Some_0.bucket as int;
                    assert(mid.slot == s);
                    assert(resolves(self.slots@, mid));
                    if mb == b as int {
                        assert(cur_ids.contains(mid));
                        lemma_cleaned_contains(self.slots@, cur_ids, mid);
                        assert(kept@.contains(mid));
                    }
                }
                assert forall|bb: int, kk: int|
                    0 <= bb < self.buckets@.len() && 0 <= kk < self.buckets@[bb].ids@.len()
                        implies (#[trigger] self.buckets@[bb].ids@[kk]).slot
                        < self.slots@.len() by {
                    if bb == b as int {
                        let e = self.buckets@[bb].ids@[kk];
                        assert(cleaned_ids_spec(self.slots@, cur_ids).contains(e));
                        lemma_cleaned_contains(self.slots@, cur_ids, e);
                        let ck = choose|ck: int| 0 <= ck < cur_ids.len() && cur_ids[ck] == e;
                        assert(e.slot < self.slots@.len());
                    }
                }
            }
            k = k + 1;
        }
        proof {
            assert(tiles@.take(tiles@.len() as int) =~= tiles@);
        }
        out
    }
}

/// Squared distance between two points.
pub open spec fn dist_sq_spec(a: Vec2Fx, b: Vec2Fx) -> int {
    len_sq_spec(a.sub_spec(b))
}

/// The bucket entry naming the nearest live same-kind mark within the
/// reinforcement radius, as a mathematical function; earlier entries win
/// ties.
pub open spec fn nearest_candidate_spec(
    slots: Seq<MarkSlot>,
    ids: Seq<MarkId>,
    ant_pos: Vec2Fx,
    kind: PheromoneKind,
) -> Option<MarkId>
    decreases ids.len(),
{
    if ids.len() == 0 {
        None
    } else {
        let prev = nearest_candidate_spec(slots, ids.drop_last(), ant_pos, kind);
        let id = ids.last();
        if resolves(slots, id) && mark_of(slots, id).kind == kind && dist_sq_spec(
            ant_pos,
            mark_of(slots, id).position,
        ) <= PHER_PROX_DISTANCE * PHER_PROX_DISTANCE {
            match prev {
                None => Some(id),
                Some(p) => {
                    if dist_sq_spec(ant_pos, mark_of(slots, id).position) < dist_sq_spec(
                        ant_pos,
                        mark_of(slots, p).position,
                    ) {
                        Some(id)
                    } else {
                        Some(p)
                    }
                },
            }
        } else {
            prev
        }
    }
}

/// A found candidate is a live mark of the wanted kind within the radius.
pub proof fn lemma_nearest_resolves(
    slots: Seq<MarkSlot>,
    ids: Seq<MarkId>,
    ant_pos: Vec2Fx,
    kind: PheromoneKind,
)
    ensures
        nearest_candidate_spec(slots, ids, ant_pos, kind) matches Some(p) ==> resolves(slots, p)
            && mark_of(slots, p).kind == kind && dist_sq_spec(ant_pos, mark_of(slots, p).position)
            <= PHER_PROX_DISTANCE * PHER_PROX_DISTANCE,
    decreases ids.len(),
{
    if ids.len() == 0 {
    } else {
        lemma_nearest_resolves(slots, ids.drop_last(), ant_pos, kind);
    }
}

/// Where the reinforced mark moves: toward the depositing ant by the
/// fraction `FP / (intensity + FP)`, so strong marks resist being dragged;
/// clamped into the coordinate range. A degenerate non-positive denominator
/// (intensity near or below -1) leaves the position unchanged.
pub open spec fn nudged_toward_spec(m: Pheromone, ant_pos: Vec2Fx) -> Vec2Fx {
    let den = m.intensity + FP;
    if den >= 1 {
        Vec2Fx {
            x: clamp_spec(
                m.position.x + tdiv_spec((ant_pos.x - m.position.x) * FP, den),
                POS_LIMIT as int,
            ) as i64,
            y: clamp_spec(
                m.position.y + tdiv_spec((ant_pos.y - m.position.y) * FP, den),
                POS_LIMIT as int,
            ) as i64,
        }
    } else {
        m.position
    }
}

/// What reinforcement leaves of a mark: intensity one step higher
/// (saturating), lifetime reset to one second, position nudged toward the
/// depositor.
pub open spec fn reinforced_mark_spec(m: Pheromone, ant_pos: Vec2Fx) -> Pheromone {
    Pheromone {
        intensity: (if m.intensity + FP > INTENSITY_CAP {
            INTENSITY_CAP as int
        } else {
            m.intensity + FP
        }) as i64,
        death_timer: FP,
        position: nudged_toward_spec(m, ant_pos),
        ..m
    }
}

/// For a non-negative intensity, the truncated nudge keeps a coordinate
/// between the mark's and the depositor's, so the range clamp never fires.
proof fn lemma_nudge_between(p: int, a: int, den: int)
    requires
        den >= FP,
        -POS_LIMIT <= p <= POS_LIMIT,
        -POS_LIMIT <= a <= POS_LIMIT,
    ensures
        ({
            let q = tdiv_spec((a - p) * FP, den);
            &&& (p <= a ==> p <= p + q <= a)
            &&& (a <= p ==> a <= p + q <= p)
            &&& clamp_spec(p + q, POS_LIMIT as int) == p + q
        }),
{
    lemma_tdiv_bounds((a - p) * FP, den);
    let q = tdiv_spec((a - p) * FP, den);
    assert(abs_spec((a - p) * FP) == abs_spec(a - p) * FP && ((a - p >= 0) ==> (a - p) * FP
        >= 0) && ((a - p <= 0) ==> (a - p) * FP <= 0)) by (nonlinear_arith)
        requires
            FP == 1_000_000,
    ;
    assert(abs_spec(q) <= abs_spec(a - p)) by (nonlinear_arith)
        requires
            abs_spec(q) * den <= abs_spec(a - p) * FP,
            den >= FP,
            abs_spec(q) >= 0,
            FP == 1_000_000,
    ;
}

/// The reinforcement law: the touched mark keeps its kind and its bucket,
/// its intensity rises by exactly one unit (saturating only at the
/// machine cap), its lifetime resets to one second, and for a mark of
/// non-negative intensity its position moves the truncated fraction
/// `1 / (intensity + 1)` of the way toward the deposit point and no
/// further — half the distance at intensity 1, a tenth at 9 — so
/// established marks resist being dragged.
pub proof fn lemma_reinforced_mark(m: Pheromone, ant_pos: Vec2Fx)
    requires
        mark_wf(m),
        in_range(ant_pos, POS_LIMIT as int),
    ensures
        reinforced_mark_spec(m, ant_pos).kind == m.kind,
        reinforced_mark_spec(m, ant_pos).bucket == m.bucket,
        reinforced_mark_spec(m, ant_pos).death_timer == FP,
        m.intensity + FP <= INTENSITY_CAP ==> reinforced_mark_spec(m, ant_pos).intensity
            == m.intensity + FP,
        m.intensity + FP > INTENSITY_CAP ==> reinforced_mark_spec(m, ant_pos).intensity
            == INTENSITY_CAP,
        m.intensity >= 0 ==> {
            let moved = reinforced_mark_spec(m, ant_pos).position;
            let den = m.intensity + FP;
            &&& moved.x == m.position.x + tdiv_spec((ant_pos.x - m.position.x) * FP, den)
            &&& moved.y == m.position.y + tdiv_spec((ant_pos.y - m.position.y) * FP, den)
            &&& (m.position.x <= ant_pos.x ==> m.position.x <= moved.x <= ant_pos.x)
            &&& (ant_pos.x <= m.position.x ==> ant_pos.x <= moved.x <= m.position.x)
            &&& (m.position.y <= ant_pos.y ==> m.position.y <= moved.y <= ant_pos.y)
            &&& (ant_pos.y <= m.position.y ==> ant_pos.y <= moved.y <= m.position.y)
        },
{
    if m.intensity >= 0 {
        lemma_nudge_between(m.position.x as int, ant_pos.x as int, m.intensity + FP);
        lemma_nudge_between(m.position.y as int, ant_pos.y as int, m.intensity + FP);
    }
}

/// The first slot not holding a mark, scanning from `i`.
pub open spec fn first_free_from_spec(slots: Seq<MarkSlot>, i: int) -> Option<int>
    decreases slots.len() - i,
{
    if i < 0 || i >= slots.len() {
        None
    } else if slots[i].mark is None {
        Some(i)
    } else {
        first_free_from_spec(slots, i + 1)
    }
}

/// The bumped generation of a reused slot.
pub open spec fn bump_gen_spec(g: u64) -> u64 {
    if g < u64::MAX {
        (g + 1) as u64
    } else {
        g
    }
}

/// The bucket entries of the listed tiles, bucket after bucket in order.
pub open spec fn tiles_ids_spec(bviews: Seq<Seq<MarkId>>, tiles: Seq<MapPos>) -> Seq<MarkId>
    decreases tiles.len(),
{
    if tiles.len() == 0 {
        Seq::empty()
    } else {
        tiles_ids_spec(bviews, tiles.drop_last()) + bviews[flat_index_spec(tiles.last())]
    }
}

/// The reinforcement candidates of a deposit: every entry of the tile
/// buckets of the 3 x 3 neighborhood around the deposit position. Marks are
/// bucketed by their creation tile, and the 5-unit proximity radius always
/// lies inside that block, so every mark still indexed near the depositor
/// is considered.
pub open spec fn deposit_candidates_spec(bviews: Seq<Seq<MarkId>>, ant_pos: Vec2Fx) -> Seq<
    MarkId,
> {
    tiles_ids_spec(bviews, crate::grid::neighborhood_spec(ant_pos))
}

/// The entry qualifies as a reinforcement candidate: it names a live mark
/// of the deposit's kind within the proximity radius of the deposit point.
pub open spec fn candidate_ok(
    slots: Seq<MarkSlot>,
    id: MarkId,
    ant_pos: Vec2Fx,
    kind: PheromoneKind,
) -> bool {
    &&& resolves(slots, id)
    &&& mark_of(slots, id).kind == kind
    &&& dist_sq_spec(ant_pos, mark_of(slots, id).position) <= PHER_PROX_DISTANCE
        * PHER_PROX_DISTANCE
}

/// A deposit finds a candidate exactly when some entry of the searched
/// buckets qualifies.
pub proof fn lemma_candidate_found_iff(
    slots: Seq<MarkSlot>,
    ids: Seq<MarkId>,
    ant_pos: Vec2Fx,
    kind: PheromoneKind,
)
    ensures
        nearest_candidate_spec(slots, ids, ant_pos, kind) is Some <==> exists|k: int|
            0 <= k < ids.len() && candidate_ok(slots, #[trigger] ids[k], ant_pos, kind),
    decreases ids.len(),
{
    if ids.len() == 0 {
    } else {
        lemma_candidate_found_iff(slots, ids.drop_last(), ant_pos, kind);
        let pre = ids.drop_last();
        if nearest_candidate_spec(slots, ids, ant_pos, kind) is Some {
            if candidate_ok(slots, ids.last(), ant_pos, kind) {
                assert(ids[ids.len() - 1] == ids.last());
                assert(candidate_ok(slots, ids[ids.len() - 1], ant_pos, kind));
            } else {
                let k = choose|k: int|
                    0 <= k < pre.len() && candidate_ok(slots, #[trigger] pre[k], ant_pos, kind);
                assert(ids[k] == pre[k]);
                assert(candidate_ok(slots, ids[k], ant_pos, kind));
            }
        }
        if exists|k: int|
            0 <= k < ids.len() && candidate_ok(slots, #[trigger] ids[k], ant_pos, kind) {
            let k = choose|k: int|
                0 <= k < ids.len() && candidate_ok(slots, #[trigger] ids[k], ant_pos, kind);
            if k < ids.len() - 1 {
                assert(pre[k] == ids[k]);
                assert(candidate_ok(slots, pre[k], ant_pos, kind));
            } else {
                assert(candidate_ok(slots, ids.last(), ant_pos, kind));
            }
        }
    }
}

/// Reinforcement never raises the mark count: when any entry of the
/// searched neighborhood buckets names a live same-kind mark within the
/// proximity radius of the deposit, the live slots after the deposit are
/// exactly the live slots before it — the nearest such mark is
/// strengthened and nudged in place instead of a duplicate being spawned.
pub proof fn lemma_reinforce_keeps_live(
    slots: Seq<MarkSlot>,
    bviews: Seq<Seq<MarkId>>,
    ant_pos: Vec2Fx,
    kind: PheromoneKind,
)
    requires
        deposit_in_map_spec(ant_pos),
        exists|k: int|
            0 <= k < deposit_candidates_spec(bviews, ant_pos).len() && candidate_ok(
                slots,
                #[trigger] deposit_candidates_spec(bviews, ant_pos)[k],
                ant_pos,
                kind,
            ),
    ensures
        spawn_slots_spec(slots, bviews, ant_pos, kind).len() == slots.len(),
        forall|s: int|
            0 <= s < slots.len() ==> ((#[trigger] spawn_slots_spec(
                slots,
                bviews,
                ant_pos,
                kind,
            )[s]).mark is Some <==> slots[s].mark is Some),
{
    lemma_candidate_found_iff(slots, deposit_candidates_spec(bviews, ant_pos), ant_pos, kind);
    lemma_nearest_resolves(slots, deposit_candidates_spec(bviews, ant_pos), ant_pos, kind);
}

/// The deposit tile bucket for an ant position, when the position lies on
/// the map.
pub open spec fn deposit_bucket_spec(ant_pos: Vec2Fx) -> int {
    flat_index_spec(
        MapPos {
            x: crate::grid::tile_coord_spec(ant_pos.x as int) as u32,
            y: crate::grid::tile_coord_spec(ant_pos.y as int) as u32,
        },
    )
}

/// The ant's position lies on a tile of the map.
pub open spec fn deposit_in_map_spec(ant_pos: Vec2Fx) -> bool {
    in_map(
        MapPos {
            x: crate::grid::tile_coord_spec(ant_pos.x as int) as u32,
            y: crate::grid::tile_coord_spec(ant_pos.y as int) as u32,
        },
    )
}

/// The arena slots after one deposit, as a mathematical function.
pub open spec fn spawn_slots_spec(
    slots: Seq<MarkSlot>,
    bviews: Seq<Seq<MarkId>>,
    ant_pos: Vec2Fx,
    kind: PheromoneKind,
) -> Seq<MarkSlot> {
    let b = deposit_bucket_spec(ant_pos);
    if !deposit_in_map_spec(ant_pos) {
        slots
    } else {
        match nearest_candidate_spec(slots, deposit_candidates_spec(bviews, ant_pos), ant_pos, kind) {
            Some(p) => slots.update(
                p.slot as int,
                MarkSlot {
                    gen: p.gen,
                    mark: Some(reinforced_mark_spec(mark_of(slots, p), ant_pos)),
                },
            ),
            None => {
                let m = Pheromone {
                    kind,
                    intensity: FP,
                    death_timer: FP,
                    position: ant_pos,
                    bucket: b as usize,
                };
                match first_free_from_spec(slots, 0) {
                    Some(f) => slots.update(
                        f,
                        MarkSlot { gen: bump_gen_spec(slots[f].gen), mark: Some(m) },
                    ),
                    None => slots.push(MarkSlot { gen: 0, mark: Some(m) }),
                }
            },
        }
    }
}

/// The handle of the mark a deposit touches — the reinforced candidate or
/// the freshly created mark — or `None` for an off-map deposit, as a
/// mathematical function.
pub open spec fn spawn_id_spec(
    slots: Seq<MarkSlot>,
    bviews: Seq<Seq<MarkId>>,
    ant_pos: Vec2Fx,
    kind: PheromoneKind,
) -> Option<MarkId> {
    let b = deposit_bucket_spec(ant_pos);
    if !deposit_in_map_spec(ant_pos) {
        None
    } else {
        match nearest_candidate_spec(slots, deposit_candidates_spec(bviews, ant_pos), ant_pos, kind) {
            Some(p) => Some(p),
            None => {
                match first_free_from_spec(slots, 0) {
                    Some(f) => Some(MarkId { slot: f as usize, gen: bump_gen_spec(slots[f].gen) }),
                    None => Some(MarkId { slot: slots.len() as usize, gen: 0 }),
                }
            },
        }
    }
}

/// The tile buckets after one deposit, as a mathematical function.
pub open spec fn spawn_bview_spec(
    slots: Seq<MarkSlot>,
    bviews: Seq<Seq<MarkId>>,
    ant_pos: Vec2Fx,
    kind: PheromoneKind,
) -> Seq<Seq<MarkId>> {
    let b = deposit_bucket_spec(ant_pos);
    if !deposit_in_map_spec(ant_pos) {
        bviews
    } else {
        match nearest_candidate_spec(slots, deposit_candidates_spec(bviews, ant_pos), ant_pos, kind) {
            Some(p) => bviews,
            None => {
                match first_free_from_spec(slots, 0) {
                    Some(f) => bviews.update(
                        b,
                        bviews[b].push(MarkId { slot: f as usize, gen: bump_gen_spec(slots[f].gen) }),
                    ),
                    None => bviews.update(
                        b,
                        bviews[b].push(MarkId { slot: slots.len() as usize, gen: 0 }),
                    ),
                }
            },
        }
    }
}

impl PheromoneField {
    /// The first arena slot not holding a mark.
    fn find_free_slot(&self) -> (r: Option<usize>)
        ensures
            match r {
                Some(f) => first_free_from_spec(self.slots@, 0) == Some(f as int) && f
                    < self.slots@.len() && self.slots@[f as int].mark is None,
                None => first_free_from_spec(self.slots@, 0) is None,
            },
    {
        let mut f: usize = 0;
        while f < self.slots.len()
            invariant
                f <= self.slots@.len(),
                first_free_from_spec(self.slots@, 0) == first_free_from_spec(
                    self.slots@,
                    f as int,
                ),
            decreases self.slots@.len() - f,
        {
            if self.slots[f].mark.is_none() {
                return Some(f);
            }
            f = f + 1;
        }
        None
    }

    /// The nearest live same-kind mark within the reinforcement radius,
    /// searched through the tile buckets of the 3 x 3 neighborhood around
    /// the deposit position (which always covers the 5-unit radius);
    /// earlier bucket entries win ties.
    fn find_reinforce_candidate(&self, ant_pos: Vec2Fx, kind: PheromoneKind) -> (r: (
        Option<MarkId>,
        i64,
    ))
        requires
            self.wf(),
            in_range(ant_pos, POS_LIMIT as int),
        ensures
            r.0 == nearest_candidate_spec(
                self.slots@,
                deposit_candidates_spec(self.bview(), ant_pos),
                ant_pos,
                kind,
            ),
            r.0 matches Some(p) ==> resolves(self.slots@, p) && r.1 == dist_sq_spec(
                ant_pos,
                mark_of(self.slots@, p).position,
            ),
    {
        let tiles: Vec<MapPos> = crate::grid::get_local_neighborhood(ant_pos);
        let mut best: Option<MarkId> = None;
        let mut best_d: i64 = 0;
        let ghost mut seen: Seq<MarkId> = Seq::empty();
        let mut t: usize = 0;
        while t < tiles.len()
            invariant
                self.wf(),
                in_range(ant_pos, POS_LIMIT as int),
                t <= tiles@.len(),
                tiles@ == crate::grid::neighborhood_spec(ant_pos),
                forall|i: int| 0 <= i < tiles@.len() ==> in_map(#[trigger] tiles@[i]),
                seen == tiles_ids_spec(self.bview(), tiles@.take(t as int)),
                best == nearest_candidate_spec(self.slots@, seen, ant_pos, kind),
                best matches Some(p) ==> resolves(self.slots@, p) && best_d == dist_sq_spec(
                    ant_pos,
                    mark_of(self.slots@, p).position,
                ),
            decreases tiles@.len() - t,
        {
            let tp: MapPos = tiles[t];
            proof {
                assert(in_map(tiles@[t as int]));
            }
            let b: usize = (tp.y * crate::grid::MAP_SIZE_X + tp.x) as usize;
            let ghost bucket_ids = self.buckets@[b as int].ids@;
            proof {
                assert(bucket_ids == self.bview()[b as int]);
            }
            let n: usize = self.buckets[b].ids.len();
            let mut j: usize = 0;
            while j < n
                invariant
                    self.wf(),
                    in_range(ant_pos, POS_LIMIT as int),
                    b < self.buckets@.len(),
                    bucket_ids == self.buckets@[b as int].ids@,
                    n == bucket_ids.len(),
                    j <= n,
                    seen == tiles_ids_spec(self.bview(), tiles@.take(t as int))
                        + bucket_ids.take(j as int),
                    best == nearest_candidate_spec(self.slots@, seen, ant_pos, kind),
                    best matches Some(p) ==> resolves(self.slots@, p) && best_d
                        == dist_sq_spec(ant_pos, mark_of(self.slots@, p).position),
                decreases n - j,
            {
                let id: MarkId = self.buckets[b].ids[j];
                if id.slot < self.slots.len() && self.slots[id.slot].gen == id.gen
                    && self.slots[id.slot].mark.is_some() {
                    let m: Pheromone = match self.slots[id.slot].mark {
                        Some(m) => m,
                        None => Pheromone {
                            kind: PheromoneKind::HomeThisWay,
                            intensity: 0,
                            death_timer: 0,
                            position: Vec2Fx { x: 0, y: 0 },
                            bucket: 0,
                        },
                    };
                    if m.kind == kind {
                        let diff: Vec2Fx = ant_pos.sub(m.position);
                        let d: i64 = crate::fixed::len_sq(diff);
                        if d <= PHER_PROX_DISTANCE * PHER_PROX_DISTANCE {
                            match best {
                                None => {
                                    best = Some(id);
                                    best_d = d;
                                },
                                Some(_) => {
                                    if d < best_d {
                                        best = Some(id);
                                        best_d = d;
                                    }
                                },
                            }
                        }
                    }
                }
                proof {
                    let prev = seen;
                    seen = seen.push(id);
                    assert(seen.drop_last() =~= prev);
                    assert(seen.last() == id);
                    assert(seen =~= tiles_ids_spec(self.bview(), tiles@.take(t as int))
                        + bucket_ids.take(j + 1));
                }
                j = j + 1;
            }
            proof {
                assert(bucket_ids.take(n as int) =~= bucket_ids);
                assert(tiles@.take(t + 1).drop_last() =~= tiles@.take(t as int));
                assert(tiles@.take(t + 1).last() == tp);
                assert(flat_index_spec(tp) == b);
                assert(seen =~= tiles_ids_spec(self.bview(), tiles@.take(t + 1)));
            }
            t = t + 1;
        }
        proof {
            assert(tiles@.take(tiles@.len() as int) =~= tiles@);
        }
        (best, best_d)
    }

    /// Deposits a mark of `kind` at `ant_pos`: reinforces the nearest live
    /// same-kind mark within `PHER_PROX_DISTANCE` of the depositor if there
    /// is one — searching the tile buckets of the surrounding 3 x 3 block,
    /// which always covers that radius — leaving the number of live marks
    /// unchanged, and otherwise creates a fresh mark of unit intensity and
    /// lifetime at the exact deposit position. Off-map positions deposit
    /// nothing.
    #[verifier::rlimit(100)]
    pub fn spawn_pheromone(&mut self, ant_pos: Vec2Fx, kind: PheromoneKind) -> (r: Option<
        MarkId,
    >)
        requires
            old(self).wf(),
            in_range(ant_pos, POS_LIMIT as int),
        ensures
            r == spawn_id_spec(old(self).slots@, old(self).bview(), ant_pos, kind),
            final(self).wf(),
            final(self).slots@.len() >= old(self).slots@.len(),
            final(self).slots@ == spawn_slots_spec(
                old(self).slots@,
                old(self).bview(),
                ant_pos,
                kind,
            ),
            final(self).bview() == spawn_bview_spec(
                old(self).slots@,
                old(self).bview(),
                ant_pos,
                kind,
            ),
            ({
                let tile = MapPos {
                    x: crate::grid::tile_coord_spec(ant_pos.x as int) as u32,
                    y: crate::grid::tile_coord_spec(ant_pos.y as int) as u32,
                };
                let b = flat_index_spec(tile);
                if !in_map(tile) {
                    *final(self) == *old(self)
                } else {
                    match nearest_candidate_spec(
                        old(self).slots@,
                        deposit_candidates_spec(old(self).bview(), ant_pos),
                        ant_pos,
                        kind,
                    ) {
                        Some(p) => {
                            &&& final(self).bview() == old(self).bview()
                            &&& final(self).slots@ == old(self).slots@.update(
                                p.slot as int,
                                MarkSlot {
                                    gen: p.gen,
                                    mark: Some(
                                        reinforced_mark_spec(
                                            mark_of(old(self).slots@, p),
                                            ant_pos,
                                        ),
                                    ),
                                },
                            )
                        },
                        None => {
                            let m = Pheromone {
                                kind,
                                intensity: FP,
                                death_timer: FP,
                                position: ant_pos,
                                bucket: b as usize,
                            };
                            match first_free_from_spec(old(self).slots@, 0) {
                                Some(f) => {
                                    &&& final(self).slots@ == old(self).slots@.update(
                                        f,
                                        MarkSlot {
                                            gen: bump_gen_spec(old(self).slots@[f].gen),
                                            mark: Some(m),
                                        },
                                    )
                                    &&& final(self).bview() == old(self).bview().update(
                                        b,
                                        old(self).bview()[b].push(
                                            MarkId {
                                                slot: f as usize,
                                                gen: bump_gen_spec(old(self).slots@[f].gen),
                                            },
                                        ),
                                    )
                                },
                                None => {
                                    &&& final(self).slots@ == old(self).slots@.push(
                                        MarkSlot { gen: 0, mark: Some(m) },
                                    )
                                    &&& final(self).bview() == old(self).bview().update(
                                        b,
                                        old(self).bview()[b].push(
                                            MarkId {
                                                slot: old(self).slots@.len() as usize,
                                                gen: 0,
                                            },
                                        ),
                                    )
                                },
                            }
                        },
                    }
                }
            }),
    {
        let tile: MapPos = world_pos_to_two_d_index(ant_pos);
        if !(tile.x < crate::grid::MAP_SIZE_X && tile.y < crate::grid::MAP_SIZE_Y) {
            return None;
        }
        let b: usize = (tile.y * crate::grid::MAP_SIZE_X + tile.x) as usize;
        // nearest live same-kind mark within the reinforcement radius,
        // gathered from the neighborhood buckets
        let found: (Option<MarkId>, i64) = self.find_reinforce_candidate(ant_pos, kind);
        let best: Option<MarkId> = found.0;
        match best {
            Some(p) => {
                proof {
                    lemma_nearest_resolves(
                        self.slots@,
                        deposit_candidates_spec(self.bview(), ant_pos),
                        ant_pos,
                        kind,
                    );
                }
                let m: Pheromone = match self.slots[p.slot].mark {
                    Some(m) => m,
                    None => Pheromone {
                        kind: PheromoneKind::HomeThisWay,
                        intensity: 0,
                        death_timer: 0,
                        position: Vec2Fx { x: 0, y: 0 },
                        bucket: 0,
                    },
                };
                let den: i64 = m.intensity + FP;
                let new_pos: Vec2Fx = if den >= 1 {
                    proof {
                        lemma_tdiv_abs_le((ant_pos.x - m.position.x) * FP, den as int);
                        lemma_tdiv_abs_le((ant_pos.y - m.position.y) * FP, den as int);
                        assert((ant_pos.x - m.position.x) * FP <= 4_000_000_000_000_000 && (
                        ant_pos.x - m.position.x) * FP >= -4_000_000_000_000_000 && (ant_pos.y
                            - m.position.y) * FP <= 4_000_000_000_000_000 && (ant_pos.y
                            - m.position.y) * FP >= -4_000_000_000_000_000) by (nonlinear_arith)
                            requires
                                -2_000_000_000 <= ant_pos.x - m.position.x <= 2_000_000_000,
                                -2_000_000_000 <= ant_pos.y - m.position.y <= 2_000_000_000,
                                FP == 1_000_000,
                        ;
                    }
                    Vec2Fx {
                        x: clamp_abs(
                            m.position.x + tdiv((ant_pos.x - m.position.x) * FP, den),
                            POS_LIMIT,
                        ),
                        y: clamp_abs(
                            m.position.y + tdiv((ant_pos.y - m.position.y) * FP, den),
                            POS_LIMIT,
                        ),
                    }
                } else {
                    m.position
                };
                let new_int: i64 = if m.intensity + FP > INTENSITY_CAP {
                    INTENSITY_CAP
                } else {
                    m.intensity + FP
                };
                self.slots.set(
                    p.slot,
                    MarkSlot {
                        gen: p.gen,
                        mark: Some(
                            Pheromone {
                                intensity: new_int,
                                death_timer: FP,
                                position: new_pos,
                                ..m
                            },
                        ),
                    },
                );
                let r = Some(p);
                proof {
                    let tile = MapPos {
                        x: crate::grid::tile_coord_spec(ant_pos.x as int) as u32,
                        y: crate::grid::tile_coord_spec(ant_pos.y as int) as u32,
                    };
                    assert(in_map(tile) && flat_index_spec(tile) == b);
                    assert(self.slots@ =~= old(self).slots@.update(
                        p.slot as int,
                        MarkSlot {
                            gen: p.gen,
                            mark: Some(
                                reinforced_mark_spec(mark_of(old(self).slots@, p), ant_pos),
                            ),
                        },
                    ));
                    assert forall|s: int|
                        0 <= s < self.slots@.len() && self.slots@[s].mark is Some implies {
                        &&& mark_wf(#[trigger] self.slots@[s].mark->Some_0)
                        &&& self.buckets@[self.slots@[s].mark->Some_0.bucket as int].ids@.contains(
                            MarkId { slot: s as usize, gen: self.slots@[s].gen },
                        )
                    } by {
                        if s == p.slot as int {
                            assert(old(self).slots@[s].mark is Some);
                            assert(mark_wf(old(self).slots@[s].mark->Some_0));
                        } else {
                            assert(self.slots@[s] == old(self).slots@[s]);
                        }
                    }
                }
                r
            },
            None => {
                // no candidate: create a fresh mark in this bucket
                let free: Option<usize> = self.find_free_slot();
                let m = Pheromone {
                    kind,
                    intensity: FP,
                    death_timer: FP,
                    position: ant_pos,
                    bucket: b,
                };
                let newid: MarkId;
                match free {
                    Some(f) => {
                        let g: u64 = self.slots[f].gen;
                        let g2: u64 = if g < u64::MAX {
                            g + 1
                        } else {
                            g
                        };
                        newid = MarkId { slot: f, gen: g2 };
                        self.slots.set(f, MarkSlot { gen: g2, mark: Some(m) });
                    },
                    None => {
                        newid = MarkId { slot: self.slots.len(), gen: 0 };
                        self.slots.push(MarkSlot { gen: 0, mark: Some(m) });
                    },
                }
                let mut grp: PheromoneTileGroup = self.buckets.remove(b);
                grp.ids.push(newid);
                self.buckets.insert(b, grp);
                let slots_len: usize = self.slots.len();
                proof {
                    let tile = MapPos {
                        x: crate::grid::tile_coord_spec(ant_pos.x as int) as u32,
                        y: crate::grid::tile_coord_spec(ant_pos.y as int) as u32,
                    };
                    assert(in_map(tile) && flat_index_spec(tile) == b);
                    assert(self.buckets@ =~= old(self).buckets@.update(
                        b as int,
                        self.buckets@[b as int],
                    ));
                    assert(self.bview() =~= old(self).bview().update(
                        b as int,
                        old(self).bview()[b as int].push(newid),
                    ));
                    let newids = self.buckets@[b as int].ids@;
                    assert(newids == old(self).buckets@[b as int].ids@.push(newid));
                    assert(newids[newids.len() - 1] == newid);
                    assert(mark_wf(m));
                    assert forall|s: int|
                        0 <= s < self.slots@.len() && self.slots@[s].mark is Some implies {
                        &&& mark_wf(#[trigger] self.slots@[s].mark->Some_0)
                        &&& self.buckets@[self.slots@[s].mark->Some_0.bucket as int].ids@.contains(
                            MarkId { slot: s as usize, gen: self.slots@[s].gen },
                        )
                    } by {
                        assert(s < slots_len as int);
                        let mid = MarkId { slot: s as usize, gen: self.slots@[s].gen };
                        let mb = self.slots@[s].mark->Some_0.bucket as int;
                        if s == newid.slot as int {
                            assert(mid == newid);
                            assert(mb == b as int);
                            assert(newids.contains(newid));
                        } else {
                            assert(self.slots@[s] == old(self).slots@[s]);
                            assert(old(self).buckets@[mb].ids@.contains(mid));
                            if mb == b as int {
                                let k = choose|k: int|
                                    0 <= k < old(self).buckets@[mb].ids@.len() && old(
                                        self,
                                    ).buckets@[mb].ids@[k] == mid;
                                assert(newids[k] == mid);
                                assert(newids.contains(mid));
                            }
                        }
                    }
                    assert forall|bb: int, kk: int|
                        0 <= bb < self.buckets@.len() && 0 <= kk
                            < self.buckets@[bb].ids@.len() implies (#[trigger] self.buckets@[bb].ids@[kk]).slot
                        < self.slots@.len() by {
                        if bb == b as int {
                            let e = self.buckets@[bb].ids@[kk];
                            if kk < old(self).buckets@[bb].ids@.len() {
                                assert(e == old(self).buckets@[bb].ids@[kk]);
                            } else {
                                assert(e == newid);
                            }
                        }
                    }
                }
                Some(newid)
            },
        }
    }
}

} // verus!
