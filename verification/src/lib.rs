//! Tick-driven survival simulation: a player grows hungrier as time passes and
//! stays alive by reaching the items that appear at random places in the world.
//!
//! Time is counted in whole ticks and space in whole sub-units, so that every
//! rule of the simulation is exact integer arithmetic.

pub mod clock;
pub mod collision;
pub mod error;
pub mod hunger;
pub mod movement;
pub mod random;
pub mod registry;
pub mod simulation;
pub mod space;
pub mod spawn;
pub mod timer;
