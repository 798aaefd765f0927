//! The ant agent model: behavioral state, perception parameters, momentum
//! accumulator and the private random stream.

use vstd::prelude::*;
use crate::fixed::{FP, POS_LIMIT, Vec2Fx, in_range};
use crate::pheromone::PheromoneKind;
use crate::rng::AntRng;

verus! {

/// The two behavioral states of an ant.
#[derive(Clone, Copy, Debug, PartialEq, Eq, Structural)]
pub enum AntState {
    Wandering,
    HasFood,
}

impl AntState {
    /// The scent an ant leaves in this state: the way home while wandering,
    /// the way to food while hauling it.
    pub fn pher_to_drop(&self) -> (r: PheromoneKind)
        ensures
            r == self.pher_to_drop_spec(),
    {
        match self {
            AntState::Wandering => PheromoneKind::HomeThisWay,
            AntState::HasFood => PheromoneKind::FoodThisWay,
        }
    }

    /// The scent dropped in each state, as a mathematical function.
    pub open spec fn pher_to_drop_spec(self) -> PheromoneKind {
        match self {
            AntState::Wandering => PheromoneKind::HomeThisWay,
            AntState::HasFood => PheromoneKind::FoodThisWay,
        }
    }
}

/// Default walking speed: 50 world units per second.
pub const ANT_SPEED: i64 = 50_000_000;

/// Default vision radius: 20 world units.
pub const ANT_VISION_RANGE: i64 = 20_000_000;

/// Default vision arc: 1.5 radians.
pub const ANT_VISION_ARC: i64 = 1_500_000;

/// Seconds' worth of walking between two deposits (scaled by speed).
pub const ANT_POOP_INTERVAL: i64 = 5_000_000;

/// Largest speed the movement arithmetic accepts (1000 world units per
/// second).
pub const SPEED_LIMIT: i64 = 1_000_000_000;

/// Largest vision radius the perception arithmetic accepts (100 world
/// units).
pub const VISION_LIMIT: i64 = 100_000_000;

/// Lowest value the deposit countdown can reach in one tick.
pub const TIMER_FLOOR: i64 = -4_000_000_000_000;

/// One ant.
#[derive(Clone, Copy, Debug, PartialEq, Eq, Structural)]
pub struct Ant {
    pub state: AntState,
    /// Walking speed, in counts per second.
    pub speed: i64,
    /// Vision radius, in counts.
    pub vision_range: i64,
    /// Vision arc, in microradians.
    pub vision_arc: i64,
    /// Countdown to the next pheromone deposit, in count-seconds.
    pub time_until_poop: i64,
    /// The persistent momentum/wander accumulator.
    pub secret_desire: Vec2Fx,
    /// Unit facing vector; zero until the first movement sets it.
    pub facing: Vec2Fx,
    /// World-space position.
    pub position: Vec2Fx,
    /// The ant's private random stream.
    pub rng: AntRng,
}

impl Ant {
    /// All fields within the ranges the simulation arithmetic needs.
    pub open spec fn wf(self) -> bool {
        &&& 0 <= self.speed <= SPEED_LIMIT
        &&& 0 <= self.vision_range <= VISION_LIMIT
        &&& 0 <= self.vision_arc <= crate::trig::TAU_FX
        &&& TIMER_FLOOR <= self.time_until_poop <= ANT_POOP_INTERVAL
        &&& in_range(self.secret_desire, 2 * FP as int)
        &&& in_range(self.facing, FP as int)
        &&& in_range(self.position, POS_LIMIT as int)
    }

    /// A freshly spawned ant: wandering at the given position with the
    /// default parameters, an untouched momentum accumulator, no facing
    /// yet, and its own stream seed.
    pub fn spawn(position: Vec2Fx, seed: u64) -> (r: Ant)
        requires
            in_range(position, POS_LIMIT as int),
        ensures
            r == Ant::spawn_spec(position, seed),
            r.wf(),
    {
        Ant {
            state: AntState::Wandering,
            speed: ANT_SPEED,
            vision_range: ANT_VISION_RANGE,
            vision_arc: ANT_VISION_ARC,
            time_until_poop: ANT_POOP_INTERVAL,
            secret_desire: Vec2Fx { x: 0, y: 0 },
            facing: Vec2Fx { x: 0, y: 0 },
            position,
            rng: AntRng { seed, word_pos: 0 },
        }
    }

    /// The fresh ant, as a mathematical function.
    pub open spec fn spawn_spec(position: Vec2Fx, seed: u64) -> Ant {
        Ant {
            state: AntState::Wandering,
            speed: ANT_SPEED,
            vision_range: ANT_VISION_RANGE,
            vision_arc: ANT_VISION_ARC,
            time_until_poop: ANT_POOP_INTERVAL,
            secret_desire: Vec2Fx { x: 0, y: 0 },
            facing: Vec2Fx { x: 0, y: 0 },
            position,
            rng: AntRng { seed, word_pos: 0 },
        }
    }
}

} // verus!
