//! The parameters that a session is set up with.

use vstd::prelude::*;

verus! {

/// The session-wide configuration. It is fixed when the session manager is
/// made and not renegotiated afterwards.
#[derive(Clone, Copy, Debug, PartialEq, Eq, Structural)]
pub struct SessionConfig {
    /// The number of players in a match, the local one included.
    pub num_players: usize,
    /// How many frames the simulation may run ahead of the inputs confirmed by
    /// every remote peer.
    pub prediction_window: u32,
    /// Simulation ticks per second.
    pub tick_rate: u32,
    /// By how many frames a local input is deferred.
    pub input_delay: u32,
}

impl SessionConfig {
    /// A session needs a player, and a simulation that ticks; every frame
    /// that a delayed local input is tagged with must have a number.
    pub open spec fn valid(self) -> bool {
        self.num_players >= 1 && self.tick_rate >= 1 && self.input_delay < u32::MAX
    }

    /// Whether a session can be run with these parameters.
    pub fn is_valid(&self) -> (valid: bool)
        ensures
            valid == self.valid(),
    {
        self.num_players >= 1 && self.tick_rate >= 1 && self.input_delay < u32::MAX
    }

    /// The number of remote peers that have to join before a session can be
    /// built.
    pub open spec fn quorum(self) -> int {
        self.num_players - 1
    }
}

impl Default for SessionConfig {
    /// A match of two at 60 ticks per second, with a prediction window of 12
    /// frames and an input delay of 2.
    fn default() -> (config: SessionConfig)
        ensures
            config == (SessionConfig {
                num_players: 2,
                prediction_window: 12,
                tick_rate: 60,
                input_delay: 2,
            }),
            config.valid(),
    {
        SessionConfig { num_players: 2, prediction_window: 12, tick_rate: 60, input_delay: 2 }
    }
}

} // verus!
