//! The rate limits that the service reports with every answer.

use vstd::prelude::*;

verus! {

/// The short limit with which a handler starts, before the service has
/// reported one.
pub const INITIAL_SHORT_LIMIT: u32 = 12;

/// The long limit with which a handler starts, before the service has
/// reported one.
pub const INITIAL_LONG_LIMIT: u32 = 200;

/// The latest account that the service gave of its two quota windows. The
/// numbers are those of the service; nothing is counted here.
#[derive(Clone, Copy, Debug, PartialEq, Eq, Structural)]
pub struct RateLimits {
    /// How many searches the short window allows.
    pub short_limit: u32,
    /// How many searches the long window allows.
    pub long_limit: u32,
    /// How many searches are left in the short window.
    pub short_left: u32,
    /// How many searches are left in the long window.
    pub long_left: u32,
}

impl RateLimits {
    /// The limits before any answer: nothing used of 12 and of 200.
    pub fn new() -> (r: RateLimits)
        ensures
            r == (RateLimits {
                short_limit: INITIAL_SHORT_LIMIT,
                long_limit: INITIAL_LONG_LIMIT,
                short_left: INITIAL_SHORT_LIMIT,
                long_left: INITIAL_LONG_LIMIT,
            }),
    {
        RateLimits {
            short_limit: INITIAL_SHORT_LIMIT,
            long_limit: INITIAL_LONG_LIMIT,
            short_left: INITIAL_SHORT_LIMIT,
            long_left: INITIAL_LONG_LIMIT,
        }
    }

    /// Replaces all four numbers by those of a new answer.
    pub fn update(&mut self, short_limit: u32, long_limit: u32, short_left: u32, long_left: u32)
        ensures
            *final(self) == (RateLimits { short_limit, long_limit, short_left, long_left }),
    {
        self.short_limit = short_limit;
        self.long_limit = long_limit;
        self.short_left = short_left;
        self.long_left = long_left;
    }

    /// The four numbers as they stand.
    pub fn read(&self) -> (r: RateLimits)
        ensures
            r == *self,
    {
        *self
    }
}

} // verus!
