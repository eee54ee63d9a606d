//! Which way the left and right keys steer the player's character.

use vstd::prelude::*;

verus! {

/// Which way the player's character is steered.
#[derive(Debug, Hash, PartialEq, Eq, Clone, Copy, Structural)]
pub enum Steering {
    Left,
    Right,
    Idle,
}

impl Steering {
    /// The way the held keys steer: left wins over right, and with neither
    /// held the character stays where it is.
    pub open spec fn from_keys(left: bool, right: bool) -> Steering {
        if left {
            Steering::Left
        } else if right {
            Steering::Right
        } else {
            Steering::Idle
        }
    }

    /// The sign of the horizontal movement: -1 towards the left, 1 towards
    /// the right, 0 for none.
    pub open spec fn spec_sign(&self) -> i32 {
        match *self {
            Steering::Left => -1i32,
            Steering::Right => 1i32,
            Steering::Idle => 0i32,
        }
    }

    /// The sign of the horizontal movement: -1 towards the left, 1 towards
    /// the right, 0 for none.
    #[verifier::when_used_as_spec(spec_sign)]
    pub fn sign(&self) -> (sign: i32)
        ensures
            sign == self.spec_sign(),
    {
        match self {
            Steering::Left => -1,
            Steering::Right => 1,
            Steering::Idle => 0,
        }
    }
}

/// Decides which way the character moves from whether a left key and
/// whether a right key is held down.
pub fn steer(left: bool, right: bool) -> (steering: Steering)
    ensures
        steering == Steering::from_keys(left, right),
{
    if left {
        Steering::Left
    } else if right {
        Steering::Right
    } else {
        Steering::Idle
    }
}

} // verus!
