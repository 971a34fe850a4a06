//! The player-controlled body.

use vstd::prelude::*;
use crate::vector2::Vector2;

verus! {

/// The player's ship. `mass` and `rotation` are binary64 bit patterns; the
/// rotation is an angle in radians that is never wrapped.
#[derive(Clone, Copy, PartialEq, Eq, Structural, Debug)]
pub struct Player {
    pub position: Vector2,
    pub velocity: Vector2,
    pub mass: u64,
    pub rotation: u64,
}

impl Player {
    pub fn new(position: Vector2, velocity: Vector2, mass: u64, rotation: u64) -> (r: Player)
        ensures
            r == (Player { position, velocity, mass, rotation }),
    {
        Player { position, velocity, mass, rotation }
    }
}

} // verus!
