//! The entity kinds of the arena and their fixed parameters.
use crate::geometry::{direction_ok, is_unit, position_ok, Direction, Position};
use vstd::prelude::*;

verus! {

/// Avatar speed in pixels per second.
pub const PLAYER_SPEED: u16 = 500;

/// Avatar sprite size in pixels; its radius is half of it.
pub const PLAYER_SIZE: u16 = 64;

/// Enemy speed in pixels per second.
pub const ENEMY_SPEED: u16 = 400;

/// Enemy sprite size in pixels.
pub const ENEMY_SIZE: u16 = 64;

/// Star sprite size in pixels.
pub const STAR_SIZE: u16 = 30;

/// Enemies created when a game starts.
pub const ENEMIES_NUM: usize = 4;

/// Stars created when a game starts.
pub const STARS_NUM: usize = 10;

/// The controllable avatar.
#[derive(Clone, Copy, Debug, PartialEq, Eq, Structural)]
pub struct Player {
    pub position: Position,
}

/// A hazard that moves in a straight line and bounces off the arena edges.
#[derive(Clone, Copy, Debug, PartialEq, Eq, Structural)]
pub struct Enemy {
    pub position: Position,
    pub direction: Direction,
}

/// A pickup that stays where it was placed.
#[derive(Clone, Copy, Debug, PartialEq, Eq, Structural)]
pub struct Star {
    pub position: Position,
}

impl Enemy {
    pub open spec fn wf(self) -> bool {
        position_ok(self.position) && direction_ok(self.direction) && is_unit(self.direction)
    }
}

} // verus!
