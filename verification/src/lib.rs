//! Rules of a small entity-based game engine and of the sample games built on it.
//!
//! Everything that decides (which way an AI entity goes, where a room may be built, who
//! fights whom, how a battle turn resolves) lives here with a contract. Rendering, input,
//! timing and the floating-point geometry live with the program that drives these rules.

pub mod components;
pub mod systems;
pub mod engine;
mod random;
pub mod base;
pub mod adventure;
pub mod swarm;
