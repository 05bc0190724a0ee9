//! Core simulation of a top-down arcade survival game.
//!
//! A player-controlled avatar dodges downward-falling enemies, fires
//! bullets, and accrues score; the run ends when an enemy reaches the
//! player's hitbox. This crate holds the fixed-timestep simulation:
//! the entity store, the enemy spawner, the movement pass, the
//! collision engine, and the Menu/Running/GameOver state machine.
//! Presentation, asset loading and input-device polling are external
//! collaborators; input reaches the core as a plain snapshot of held
//! keys.
//!
//! All coordinates are integers in sub-units: one world unit is
//! `SCALE` sub-units, and `SCALE` equals the number of ticks per
//! second, so an entity moving at `speed` world units per second
//! advances exactly `speed` sub-units per tick with no rounding.

pub mod components;
pub mod constants;
pub mod enemies;
pub mod game;
pub mod geometry;
pub mod player;
pub mod rng;
pub mod seq_lemmas;
pub mod store;
