//! The console view's state: the key-capture controller used for
//! rebinding, and the pure pieces behind its sliders — speed-index
//! labels, location labels, and the overlay's horizontal placement.
//!
//! Rebinding works by arming a capture for one target binding; the next
//! key press is then intercepted, validated against the current
//! bindings, and either assigned or silently discarded. Widget wiring,
//! label rendering and window moves are a collaborator's job.

use vstd::prelude::*;

use crate::settings::{spec_key_free, verify_key_bind, Settings};

verus! {

/// The binding a capture assigns to.
#[derive(Clone, Copy, PartialEq, Eq, Structural, Debug)]
pub enum BindTarget {
    TimerStart,
    TimerReset,
    ObamboStart,
    ObamboReset,
    Tap,
    CompleteReset,
}

/// What one intercepted key press did.
#[derive(Clone, Copy, PartialEq, Eq, Structural, Debug)]
pub enum CaptureOutcome {
    /// No capture was armed; the key press propagates as usual.
    NotCapturing,
    /// A capture was armed but the key is unknown or already bound; the
    /// capture is discarded and no state changes.
    Rejected,
    /// The key was assigned to the armed target.
    Bound,
}

/// The settings after assigning `key` to one binding.
pub open spec fn spec_bind(s: Settings, t: BindTarget, key: u32) -> Settings {
    match t {
        BindTarget::TimerStart => Settings { key_timer_start: key, ..s },
        BindTarget::TimerReset => Settings { key_timer_reset: key, ..s },
        BindTarget::ObamboStart => Settings { key_obambo_start: key, ..s },
        BindTarget::ObamboReset => Settings { key_obambo_reset: key, ..s },
        BindTarget::Tap => Settings { key_ms: key, ..s },
        BindTarget::CompleteReset => Settings { key_reset: key, ..s },
    }
}

/// The key-capture controller: whether the next key press is
/// intercepted, and which binding it would assign to.
pub struct ConsoleView {
    capture_next: bool,
    capture_target: BindTarget,
}

impl ConsoleView {
    /// Whether the next key press will be intercepted.
    pub closed spec fn is_capturing(&self) -> bool {
        self.capture_next
    }

    /// The binding an intercepted key press assigns to.
    pub closed spec fn spec_target(&self) -> BindTarget {
        self.capture_target
    }

    /// A fresh controller: nothing armed.
    pub fn new() -> (v: ConsoleView)
        ensures
            !v.is_capturing(),
    {
        ConsoleView { capture_next: false, capture_target: BindTarget::TimerStart }
    }

    /// Arms a capture: the next key press is intercepted for this
    /// binding. A click on another binding's button re-targets the
    /// armed capture.
    pub fn request_capture(&mut self, target: BindTarget)
        ensures
            final(self).is_capturing(),
            final(self).spec_target() == target,
    {
        self.capture_target = target;
        self.capture_next = true;
    }

    /// One key press reaches the console window. With no capture armed
    /// it propagates untouched. With a capture armed, the capture is
    /// disarmed either way; a free key is assigned to the armed binding,
    /// and a key that is unknown or already bound is discarded with no
    /// state change.
    pub fn on_key_pressed(&mut self, key: u32, s: &mut Settings) -> (r: CaptureOutcome)
        ensures
            !old(self).is_capturing() ==> r == CaptureOutcome::NotCapturing && *final(self)
                == *old(self) && *final(s) == *old(s),
            old(self).is_capturing() ==> !final(self).is_capturing() && final(self).spec_target()
                == old(self).spec_target(),
            old(self).is_capturing() && spec_key_free(*old(s), key) ==> r == CaptureOutcome::Bound
                && *final(s) == spec_bind(*old(s), old(self).spec_target(), key),
            old(self).is_capturing() && !spec_key_free(*old(s), key) ==> r
                == CaptureOutcome::Rejected && *final(s) == *old(s),
    {
        if !self.capture_next {
            return CaptureOutcome::NotCapturing;
        }
        self.capture_next = false;
        if verify_key_bind(key, s) {
            match self.capture_target {
                BindTarget::TimerStart => {
                    s.key_timer_start = key;
                },
                BindTarget::TimerReset => {
                    s.key_timer_reset = key;
                },
                BindTarget::ObamboStart => {
                    s.key_obambo_start = key;
                },
                BindTarget::ObamboReset => {
                    s.key_obambo_reset = key;
                },
                BindTarget::Tap => {
                    s.key_ms = key;
                },
                BindTarget::CompleteReset => {
                    s.key_reset = key;
                },
            }
            CaptureOutcome::Bound
        } else {
            CaptureOutcome::Rejected
        }
    }
}

/// The label of one speed-index step.
pub fn speed_label(idx: u8) -> (r: &'static str)
    requires
        idx <= 4,
    ensures
        idx == 0 ==> r@ == "50%"@,
        idx == 1 ==> r@ == "75%"@,
        idx == 2 ==> r@ == "100%"@,
        idx == 3 ==> r@ == "125%"@,
        idx == 4 ==> r@ == "150%"@,
{
    match idx {
        0 => "50%",
        1 => "75%",
        2 => "100%",
        3 => "125%",
        _ => "150%",
    }
}

/// The label of one overlay location.
pub fn location_label(idx: u8) -> (r: &'static str)
    requires
        idx <= 2,
    ensures
        idx == 0 ==> r@ == "Left"@,
        idx == 1 ==> r@ == "Top"@,
        idx == 2 ==> r@ == "Right"@,
{
    match idx {
        0 => "Left",
        1 => "Top",
        _ => "Right",
    }
}

/// The overlay's horizontal position for a location: flush left,
/// centered, or flush right of a screen `screen_w` wide for a window
/// `win_w` wide. Widths are never negative; a window wider than its
/// screen centers or right-aligns at a negative position.
pub fn location_x(location: u8, screen_w: i32, win_w: i32) -> (x: i32)
    requires
        0 <= win_w,
        0 <= screen_w,
    ensures
        location == 1 ==> x == (if screen_w >= win_w {
            (screen_w - win_w) / 2
        } else {
            0 - ((win_w - screen_w) / 2)
        }),
        location == 2 ==> x == screen_w - win_w,
        location != 1 && location != 2 ==> x == 0,
{
    match location {
        1 => {
            if screen_w >= win_w {
                (screen_w - win_w) / 2
            } else {
                0 - ((win_w - screen_w) / 2)
            }
        },
        2 => screen_w - win_w,
        _ => 0,
    }
}

} // verus!
