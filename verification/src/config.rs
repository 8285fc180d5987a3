//! Limits of the relay and the arithmetic of its clock.
use vstd::prelude::*;

verus! {

/// How long a ban lasts, unless configured otherwise: ten minutes.
pub const BAN_LIMIT: u64 = 600_000;

/// The least time between two messages of one client, unless configured
/// otherwise: one second.
pub const MESSAGE_RATE: u64 = 1_000;

/// The number of strikes at which a client is banned, unless configured
/// otherwise.
pub const STRIKE_LIMIT: u32 = 10;

/// The most bytes that a reader takes from its connection in one read.
pub const READ_CHUNK: usize = 64;

/// The number of milliseconds in a second.
pub const MILLIS_PER_SECOND: u64 = 1_000;

/// The limits that a server applies.
#[derive(Clone, Copy, Debug, PartialEq, Eq, Structural)]
pub struct Config {
    /// How long a ban lasts, in milliseconds.
    pub ban_limit: u64,
    /// The least time between two messages of one client, in milliseconds.
    pub message_rate: u64,
    /// The number of strikes at which a client is banned.
    pub strike_limit: u32,
}

impl Default for Config {
    fn default() -> (config: Config)
        ensures
            config == (Config {
                ban_limit: BAN_LIMIT,
                message_rate: MESSAGE_RATE,
                strike_limit: STRIKE_LIMIT,
            }),
    {
        Config { ban_limit: BAN_LIMIT, message_rate: MESSAGE_RATE, strike_limit: STRIKE_LIMIT }
    }
}

/// The time that has passed at `now` since `since`. A clock that went
/// backwards counts as no time passed.
pub open spec fn elapsed(now: u64, since: u64) -> u64 {
    if now >= since {
        (now - since) as u64
    } else {
        0
    }
}

/// Computes [`elapsed`].
pub fn elapsed_since(now: u64, since: u64) -> (passed: u64)
    ensures
        passed == elapsed(now, since),
{
    now.saturating_sub(since)
}

} // verus!
