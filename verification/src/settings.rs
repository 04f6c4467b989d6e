//! The application settings: six configurable key bindings, the speed
//! index, the environment modifier flag and the overlay location.
//!
//! This is the shape of the persisted settings — a flat record the rest
//! of the core reads; loading and saving it is a collaborator's job.
//! There are no process-wide globals: one settings value is owned by the
//! consuming context and handed to handlers by reference.

use vstd::prelude::*;

use crate::events::{KEY_NUM0, KEY_NUM1, KEY_NUM2, KEY_NUM3, KEY_NUM4, KEY_NUM5, KEY_UNKNOWN};

verus! {

/// The flat settings record.
#[derive(Clone, Copy, PartialEq, Eq, Structural, Debug)]
pub struct Settings {
    /// Starts the elapsed-time timer and the bulk timer.
    pub key_timer_start: u32,
    /// Resets the elapsed-time timer and stops the bulk timer.
    pub key_timer_reset: u32,
    /// Starts the phase-cycling indicator.
    pub key_obambo_start: u32,
    /// Resets the phase-cycling indicator.
    pub key_obambo_reset: u32,
    /// Records a tap for the tempo estimator.
    pub key_ms: u32,
    /// Resets every automaton at once.
    pub key_reset: u32,
    /// The speed index, `0` through `4`.
    pub ghost_speed: u8,
    /// The environment modifier flag.
    pub blood_moon: bool,
    /// The overlay location, `0` through `2` (left, top, right).
    pub location: u8,
}

/// Whether a key may be bound: it is recognized and not already bound to
/// any of the six bindings.
pub open spec fn spec_key_free(s: Settings, key: u32) -> bool {
    &&& key != KEY_UNKNOWN
    &&& key != s.key_timer_start
    &&& key != s.key_timer_reset
    &&& key != s.key_obambo_start
    &&& key != s.key_obambo_reset
    &&& key != s.key_ms
    &&& key != s.key_reset
}

/// The settings a fresh install starts from.
pub open spec fn spec_default_settings() -> Settings {
    Settings {
        key_timer_start: KEY_NUM1,
        key_timer_reset: KEY_NUM2,
        key_obambo_start: KEY_NUM3,
        key_obambo_reset: KEY_NUM4,
        key_ms: KEY_NUM5,
        key_reset: KEY_NUM0,
        ghost_speed: 2,
        blood_moon: false,
        location: 0,
    }
}

impl Settings {
    /// The settings a fresh install starts from.
    pub fn new() -> (s: Settings)
        ensures
            s == spec_default_settings(),
    {
        Settings {
            key_timer_start: KEY_NUM1,
            key_timer_reset: KEY_NUM2,
            key_obambo_start: KEY_NUM3,
            key_obambo_reset: KEY_NUM4,
            key_ms: KEY_NUM5,
            key_reset: KEY_NUM0,
            ghost_speed: 2,
            blood_moon: false,
            location: 0,
        }
    }

    /// Sets the speed index, clamped to the topmost step.
    pub fn set_ghost_speed(&mut self, idx: u8)
        ensures
            final(self).ghost_speed == (if idx > 4 {
                4u8
            } else {
                idx
            }),
            *final(self) == (Settings { ghost_speed: final(self).ghost_speed, ..*old(self) }),
    {
        self.ghost_speed = if idx > 4 {
            4
        } else {
            idx
        };
    }

    /// Sets the overlay location, clamped to the last position.
    pub fn set_location(&mut self, idx: u8)
        ensures
            final(self).location == (if idx > 2 {
                2u8
            } else {
                idx
            }),
            *final(self) == (Settings { location: final(self).location, ..*old(self) }),
    {
        self.location = if idx > 2 {
            2
        } else {
            idx
        };
    }
}

impl Default for Settings {
    /// The settings a fresh install starts from.
    fn default() -> (s: Settings)
        ensures
            s == spec_default_settings(),
    {
        Settings::new()
    }
}

/// Rebinding validation: a key may be assigned only if it is recognized
/// and not already bound elsewhere. Rejection is silent — the caller
/// discards the capture and changes nothing.
pub fn verify_key_bind(key: u32, s: &Settings) -> (r: bool)
    ensures
        r == spec_key_free(*s, key),
{
    if key == KEY_UNKNOWN {
        return false;
    }
    if s.key_timer_start == key {
        return false;
    }
    if s.key_timer_reset == key {
        return false;
    }
    if s.key_obambo_start == key {
        return false;
    }
    if s.key_obambo_reset == key {
        return false;
    }
    if s.key_ms == key {
        return false;
    }
    if s.key_reset == key {
        return false;
    }
    true
}

} // verus!
