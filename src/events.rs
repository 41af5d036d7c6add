//! Notifications raised during a frame and consumed within it.
use vstd::prelude::*;

verus! {

/// Raised when the avatar is hit, carrying the score it had at that moment.
#[derive(Clone, Copy, Debug, PartialEq, Eq, Structural)]
pub struct GameOver {
    pub score_value: usize,
}

/// An audio cue for the presentation layer to play, fire and forget.
#[derive(Clone, Copy, Debug, PartialEq, Eq, Structural)]
pub enum Cue {
    /// First of the two bounce sounds.
    BounceLow,
    /// Second of the two bounce sounds.
    BounceHigh,
    /// A star was collected.
    Pickup,
    /// The avatar was hit.
    Explosion,
}

impl Cue {
    pub open spec fn is_bounce(self) -> bool {
        self == Cue::BounceLow || self == Cue::BounceHigh
    }
}

} // verus!
