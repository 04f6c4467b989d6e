//! Events and key codes.
//!
//! An `Event` is an immutable, timestamped payload created by a producer
//! (the input hook or the ticker), handed to the bus by value and read-only
//! to every subscriber. Keys are carried as plain `u32` codes so that the
//! core never depends on a platform input library; the adapter that owns the
//! real input hook translates its key type to these codes.

use vstd::prelude::*;

verus! {

/// Key code for a key the platform layer could not identify. A binding is
/// never allowed to take this value.
pub const KEY_UNKNOWN: u32 = 0;

/// Key code for the backquote/grave key.
pub const KEY_BACK_QUOTE: u32 = 1;

/// Key code for the equals key.
pub const KEY_EQUAL: u32 = 2;

/// Key code for the top-row 0 key.
pub const KEY_NUM0: u32 = 10;

/// Key code for the top-row 1 key.
pub const KEY_NUM1: u32 = 11;

/// Key code for the top-row 2 key.
pub const KEY_NUM2: u32 = 12;

/// Key code for the top-row 3 key.
pub const KEY_NUM3: u32 = 13;

/// Key code for the top-row 4 key.
pub const KEY_NUM4: u32 = 14;

/// Key code for the top-row 5 key.
pub const KEY_NUM5: u32 = 15;

/// A timestamped application event, as published on the bus.
///
/// Timestamps are milliseconds from a fixed origin, as handed in by the
/// producers' clock.
#[derive(Clone, Copy, PartialEq, Eq, Structural, Debug)]
pub enum Event {
    /// A key was released anywhere on the system.
    KeyReleased { key: u32, at: u64 },
    /// The periodic heartbeat fired.
    Tick { at: u64 },
}

impl Event {
    /// The timestamp the producer attached to this event.
    pub open spec fn spec_at(self) -> u64 {
        match self {
            Event::KeyReleased { at, .. } => at,
            Event::Tick { at } => at,
        }
    }

    /// The name of the bus topic this event is published on.
    pub open spec fn spec_topic(self) -> Seq<char> {
        match self {
            Event::KeyReleased { .. } => "button_event"@,
            Event::Tick { .. } => "timer_event"@,
        }
    }

    /// The timestamp the producer attached to this event.
    pub fn at(&self) -> (r: u64)
        ensures
            r == self.spec_at(),
    {
        match self {
            Event::KeyReleased { at, .. } => *at,
            Event::Tick { at } => *at,
        }
    }

    /// The name of the bus topic this event is published on.
    pub fn topic(&self) -> (r: &'static str)
        ensures
            r@ == self.spec_topic(),
    {
        match self {
            Event::KeyReleased { .. } => "button_event",
            Event::Tick { .. } => "timer_event",
        }
    }
}

} // verus!
