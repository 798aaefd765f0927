//! Core of a 2D ant-colony foraging simulation.
//!
//! The world is a fixed tile grid with buildable terrain on integer z-levels.
//! Ants wander over it, drop decaying pheromone marks, and steer each tick by
//! blending momentum, random drift, pheromone attraction and goal hints.
//! All world-space quantities are fixed-point integers: one world unit is
//! `fixed::FP` counts, so the whole simulation is deterministic and exact.

pub mod fixed;
pub mod trig;
pub mod grid;
pub mod pheromone;
pub mod rng;
pub mod ant;
pub mod behavior;
pub mod world;
