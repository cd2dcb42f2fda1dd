//! Task scheduling priority. Lower numeric values are dispatched first.

use vstd::prelude::*;

verus! {

pub const REALTIME_VALUE: u8 = 0;

pub const HIGH_VALUE: u8 = 64;

pub const NORMAL_VALUE: u8 = 128;

pub const BACKGROUND_VALUE: u8 = 192;

pub const IDLE_VALUE: u8 = 255;

/// Scheduling priority of a task: `0` is the most urgent, `255` the least.
#[derive(Debug, Clone, Copy, PartialEq, Eq, Structural, Hash, PartialOrd, Ord)]
pub struct Priority(pub u8);

impl Priority {
    /// The most urgent priority.
    pub fn realtime() -> (p: Priority)
        ensures
            p.0 == REALTIME_VALUE,
    {
        Priority(REALTIME_VALUE)
    }

    /// Above-normal priority.
    pub fn high() -> (p: Priority)
        ensures
            p.0 == HIGH_VALUE,
    {
        Priority(HIGH_VALUE)
    }

    /// The default priority of a submission.
    pub fn normal() -> (p: Priority)
        ensures
            p.0 == NORMAL_VALUE,
    {
        Priority(NORMAL_VALUE)
    }

    /// Below-normal priority for background work.
    pub fn background() -> (p: Priority)
        ensures
            p.0 == BACKGROUND_VALUE,
    {
        Priority(BACKGROUND_VALUE)
    }

    /// The least urgent priority.
    pub fn idle() -> (p: Priority)
        ensures
            p.0 == IDLE_VALUE,
    {
        Priority(IDLE_VALUE)
    }

    /// Create a priority from its raw value.
    pub fn new(value: u8) -> (p: Priority)
        ensures
            p.0 == value,
    {
        Priority(value)
    }

    /// The raw numeric value (lower is more urgent).
    pub fn value(self) -> (v: u8)
        ensures
            v == self.0,
    {
        self.0
    }
}

} // verus!
