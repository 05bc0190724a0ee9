//! The simulated objects and the per-tick input snapshot.
//!
//! Every live object is an [`Entity`]: an id unique for its lifetime,
//! a kind, a centre position, collision half-extents and a scalar
//! speed. Position and half-extents are in sub-units
//! (`constants::SCALE` per world unit); speed is in sub-units per
//! tick, which by the choice of timestep equals world units per
//! second.

use vstd::prelude::*;
use crate::constants::{COORD_LIMIT, SPEED_LIMIT};

verus! {

/// The closed set of entity kinds.
#[derive(Clone, Copy, PartialEq, Eq, Structural, Debug)]
pub enum Kind {
    /// The invisible hitbox the run is lost over.
    Player,
    /// The visible ship (the avatar); grazing enemies with it scores.
    Ship,
    /// A falling enemy.
    Enemy,
    /// A projectile fired upward from the ship.
    Bullet,
}

/// One live simulated object.
#[derive(Clone, Copy, PartialEq, Eq, Structural, Debug)]
pub struct Entity {
    /// Unique handle, stable for the entity's lifetime, never reused
    /// while live.
    pub id: u64,
    /// Which of the four kinds this entity is.
    pub kind: Kind,
    /// Centre x, sub-units, origin at playfield centre.
    pub x: i64,
    /// Centre y, sub-units, origin at playfield centre.
    pub y: i64,
    /// Collision half-width, sub-units; strictly positive.
    pub half_x: i64,
    /// Collision half-height, sub-units; strictly positive.
    pub half_y: i64,
    /// Scalar speed, sub-units per tick. Fixed at spawn for enemies.
    pub speed: i64,
}

impl Entity {
    /// Well-formedness: coordinates and half-extents are bounded so
    /// that one tick of arithmetic cannot overflow, half-extents are
    /// strictly positive, and speed is non-negative and bounded.
    pub open spec fn wf(self) -> bool {
        &&& -COORD_LIMIT <= self.x <= COORD_LIMIT
        &&& -COORD_LIMIT <= self.y <= COORD_LIMIT
        &&& 0 < self.half_x <= COORD_LIMIT
        &&& 0 < self.half_y <= COORD_LIMIT
        &&& 0 <= self.speed <= SPEED_LIMIT
    }
}

/// The state of the logical input keys, read once at tick start.
/// Device polling is an external collaborator; the core only sees
/// these booleans.
#[derive(Clone, Copy, PartialEq, Eq, Structural, Debug)]
pub struct InputSnapshot {
    /// Move-up key held.
    pub up: bool,
    /// Move-down key held.
    pub down: bool,
    /// Move-left key held.
    pub left: bool,
    /// Move-right key held.
    pub right: bool,
    /// Focus modifier held: slows the player and raises graze score.
    pub focus: bool,
    /// Fire key just pressed this tick.
    pub fire: bool,
}

impl InputSnapshot {
    /// A snapshot with no key held.
    pub fn none() -> (r: InputSnapshot)
        ensures
            r == (InputSnapshot {
                up: false,
                down: false,
                left: false,
                right: false,
                focus: false,
                fire: false,
            }),
    {
        InputSnapshot { up: false, down: false, left: false, right: false, focus: false, fire: false }
    }
}

} // verus!
