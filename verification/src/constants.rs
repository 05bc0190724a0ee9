//! Compiled-in configuration of the playfield and the entity kinds.
//!
//! Distances are stated twice: the familiar world-unit figures
//! (window size, padding, half-extents) and their sub-unit forms used
//! by the simulation. `SCALE` sub-units make one world unit, and one
//! tick lasts `1 / SCALE` seconds, so a speed given in world units
//! per second is also a displacement in sub-units per tick.

use vstd::prelude::*;

verus! {

/// Sub-units per world unit; also ticks per second (the fixed timestep).
pub const SCALE: i64 = 60;

/// Playfield width in world units.
pub const WINDOW_W: i64 = 300;

/// Playfield height in world units.
pub const WINDOW_H: i64 = 500;

/// Margin kept between the player and the playfield boundary, world units.
pub const WINDOW_PADDING: i64 = 25;

/// Half the playfield width, in sub-units: `WINDOW_W / 2 * SCALE`.
pub const FIELD_HALF_W: i64 = 9000;

/// Half the playfield height, in sub-units: `WINDOW_H / 2 * SCALE`.
pub const FIELD_HALF_H: i64 = 15000;

/// Padding in sub-units: `WINDOW_PADDING * SCALE`.
pub const PADDING: i64 = 1500;

/// Population cap enforced by the spawner.
pub const MAX_ENEMIES: usize = 50;

/// Exclusive upper bound of an enemy's speed, world units per second.
pub const ENEMY_SPEED: i64 = 200;

/// Enemies at least this fast are classified `Fast`.
pub const FAST_SPEED: i64 = 150;

/// Enemies at most this slow are classified `Slow`.
pub const SLOW_SPEED: i64 = 50;

/// Player speed while the focus modifier is held, world units per second.
pub const PLAYER_FOCUS_SPEED: i64 = 50;

/// Player speed without the focus modifier, world units per second.
pub const PLAYER_SPEED: i64 = 150;

/// Bullet speed, world units per second.
pub const BULLET_SPEED: i64 = 300;

/// Enemies spawn this many world units below the top edge.
pub const SPAWN_Y_OFFSET: i64 = 20;

/// Spawn row of new enemies, in sub-units:
/// `(WINDOW_H / 2 - SPAWN_Y_OFFSET) * SCALE`.
pub const SPAWN_Y: i64 = 13800;

/// Player hitbox half-extent (both axes), world units.
pub const PLAYER_HALF: i64 = 5;

/// Ship (avatar) half-extent (both axes), world units.
pub const SHIP_HALF: i64 = 40;

/// Enemy half-extent (both axes), world units.
pub const ENEMY_HALF: i64 = 7;

/// Bullet half-extent (both axes), world units.
pub const BULLET_HALF: i64 = 2;

/// Player hitbox half-extent in sub-units: `PLAYER_HALF * SCALE`.
pub const PLAYER_HALF_SUB: i64 = 300;

/// Ship (avatar) half-extent in sub-units: `SHIP_HALF * SCALE`.
pub const SHIP_HALF_SUB: i64 = 2400;

/// Enemy half-extent in sub-units: `ENEMY_HALF * SCALE`.
pub const ENEMY_HALF_SUB: i64 = 420;

/// Bullet half-extent in sub-units: `BULLET_HALF * SCALE`.
pub const BULLET_HALF_SUB: i64 = 120;

/// A bullet leaves the ship's nose this many world units above its centre.
pub const BULLET_MUZZLE_OFFSET: i64 = 20;

/// Where the ship spawns on entering Running, in sub-units:
/// `(-WINDOW_H / 2 + WINDOW_PADDING) * SCALE`.
pub const SHIP_SPAWN_Y: i64 = -13500;

/// Where the player hitbox spawns, in sub-units: five world units
/// below the ship's centre, `SHIP_SPAWN_Y - 5 * SCALE`.
pub const PLAYER_SPAWN_Y: i64 = -13800;

/// Bound on the magnitude of any live coordinate, in sub-units.
/// Far larger than the playfield; it exists so that one tick of
/// movement can be shown free of overflow.
pub const COORD_LIMIT: i64 = 1_000_000_000;

/// Bound on any entity's speed, sub-units per tick.
pub const SPEED_LIMIT: i64 = 1_000_000;

} // verus!
