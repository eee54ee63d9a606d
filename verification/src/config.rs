//! Settings that are fixed when a match or an animation is set up, and the
//! ways in which they can be unusable.

use vstd::prelude::*;
use vstd::string::*;

verus! {

/// A setting that was rejected when it was configured.
#[derive(Clone, Copy, Debug, PartialEq, Eq, Hash, Structural)]
pub enum ConfigError {
    /// The number of wins that ends the match was zero.
    InvalidWinTarget,
    /// An animation was given no frames.
    InvalidFrameCount,
    /// An animation's frames were given no time on screen.
    InvalidFrameDuration,
}

impl ConfigError {
    /// The name of the rejected setting.
    pub open spec fn spec_setting(&self) -> Seq<char> {
        match *self {
            ConfigError::InvalidWinTarget => "max_wins"@,
            ConfigError::InvalidFrameCount => "frame_count"@,
            ConfigError::InvalidFrameDuration => "frame_duration"@,
        }
    }

    /// The diagnostic shown for this error: it names the rejected setting.
    pub open spec fn spec_diagnostic(&self) -> Seq<char> {
        "invalid setting: "@ + self.spec_setting() + " must be greater than zero"@
    }

    /// The name of the rejected setting.
    pub fn setting(&self) -> (name: &'static str)
        ensures
            name@ == self.spec_setting(),
    {
        match self {
            ConfigError::InvalidWinTarget => "max_wins",
            ConfigError::InvalidFrameCount => "frame_count",
            ConfigError::InvalidFrameDuration => "frame_duration",
        }
    }

    /// The diagnostic to show before giving up: it names the rejected
    /// setting.
    pub fn diagnostic(&self) -> (text: String)
        ensures
            text@ == self.spec_diagnostic(),
    {
        let mut text = String::from_str("invalid setting: ");
        text.append(self.setting());
        text.append(" must be greater than zero");
        text
    }
}

/// The number of wins that ends a standard match.
pub const STANDARD_MAX_WINS: u32 = 2;

/// The fixed rules of a match.
#[derive(Clone, Copy, Debug)]
pub struct GameRules {
    max_wins: u32,
}

impl GameRules {
    #[verifier::type_invariant]
    closed spec fn inv(self) -> bool {
        self.max_wins > 0
    }

    /// The number of wins that ends the match.
    pub closed spec fn target(&self) -> nat {
        self.max_wins as nat
    }

    /// Rules under which the first pilot to hold exactly `max_wins` wins
    /// survives. A target of zero is rejected.
    pub fn new(max_wins: u32) -> (rules: Result<GameRules, ConfigError>)
        ensures
            max_wins == 0 ==> rules == Err::<GameRules, ConfigError>(ConfigError::InvalidWinTarget),
            max_wins > 0 ==> rules is Ok && rules->Ok_0.target() == max_wins,
    {
        if max_wins == 0 {
            Err(ConfigError::InvalidWinTarget)
        } else {
            Ok(GameRules { max_wins })
        }
    }

    /// The rules of a standard match: two wins end it.
    pub fn standard() -> (rules: GameRules)
        ensures
            rules.target() == STANDARD_MAX_WINS,
    {
        GameRules { max_wins: STANDARD_MAX_WINS }
    }

    /// The number of wins that ends the match; never zero.
    pub fn max_wins(&self) -> (max_wins: u32)
        ensures
            max_wins == self.target(),
            max_wins > 0,
    {
        proof {
            use_type_invariant(self);
        }
        self.max_wins
    }
}

} // verus!
