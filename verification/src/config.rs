//! The refresh cadence, counted in ticks of the consumer's loop.

use vstd::prelude::*;

verus! {

/// The period used when the configured one is zero.
pub const MIN_PERIOD_TICKS: u16 = 1;

/// The number of fully ready ticks after which every series is fetched again.
/// A configured period of zero stands for the shortest period, one tick.
pub open spec fn effective_period(configured: u16) -> u16 {
    if configured == 0 {
        MIN_PERIOD_TICKS
    } else {
        configured
    }
}

/// What the consumer hands to each tick: the refresh period it currently asks for.
#[derive(Clone, Copy, Debug)]
pub struct RefreshConfig {
    pub refresh_period_ticks: u16,
}

impl RefreshConfig {
    /// A configuration that asks for a refresh every `refresh_period_ticks`
    /// fully ready ticks.
    pub fn new(refresh_period_ticks: u16) -> (config: Self)
        ensures
            config.refresh_period_ticks == refresh_period_ticks,
    {
        RefreshConfig { refresh_period_ticks }
    }

    /// The period in force: the configured one, or one tick where that is zero.
    pub fn period(&self) -> (ticks: u16)
        ensures
            ticks == effective_period(self.refresh_period_ticks),
            ticks >= 1,
    {
        if self.refresh_period_ticks == 0 {
            MIN_PERIOD_TICKS
        } else {
            self.refresh_period_ticks
        }
    }
}

} // verus!
