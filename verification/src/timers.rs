//! Timer/state automatons driven by bus events.
//!
//! Each automaton owns its private state, mutates it only in response to
//! events, and never blocks: every transition is a bounded-time, pure
//! transformation of in-memory state. Elapsed time is always derived by
//! subtracting the stored anchor from the tick's timestamp — never by
//! counting ticks — so displays stay correct under tick jitter or
//! delivery delay. All subtraction saturates at zero rather than
//! panicking.

use vstd::prelude::*;

use crate::time_format::{ms_to_hms, ms_to_msc, spec_hms, spec_msc};

verus! {

/// How long the phase-cycling indicator stays calm after its start.
pub const CALM_MS: u64 = 60_000;

/// The period on which the phase-cycling indicator flips once the calm
/// window has passed.
pub const FLIP_PERIOD_MS: u64 = 120_000;

/// The elapsed milliseconds between an anchor and a later tick,
/// saturating at zero if the tick reads earlier.
pub open spec fn spec_elapsed(anchor: u64, now: u64) -> u64 {
    if now >= anchor {
        (now - anchor) as u64
    } else {
        0
    }
}

/// The display resolution of one elapsed-time timer. Which resolution
/// applies is a per-automaton configuration choice.
#[derive(Clone, Copy, PartialEq, Eq, Structural, Debug)]
pub enum TimeFormat {
    /// Whole seconds, as `HH:MM:SS`.
    HoursMinutesSeconds,
    /// Seconds with centiseconds, as `MM:SS.CC`.
    MinutesSecondsCentis,
}

/// The formatted display text for an elapsed millisecond count under a
/// resolution.
pub open spec fn spec_display(format: TimeFormat, ms: u64) -> Seq<char> {
    match format {
        TimeFormat::HoursMinutesSeconds => spec_hms(ms as nat),
        TimeFormat::MinutesSecondsCentis => spec_msc(ms as nat),
    }
}

/// An elapsed-time timer: states `Idle` and `Running`, no terminal state.
///
/// The start key moves `Idle` to `Running` and records the anchor; the
/// reset key moves to `Idle` and is idempotent; ticks self-loop on
/// `Running` with a display update as their observable effect. Unmapped
/// events are ignored.
pub struct ElapsedTimer {
    running: bool,
    anchor: u64,
    format: TimeFormat,
}

impl ElapsedTimer {
    /// Whether the timer is running: only then do ticks update the
    /// displayed elapsed time.
    pub closed spec fn is_running(&self) -> bool {
        self.running
    }

    /// The timestamp recorded when the timer started.
    pub closed spec fn spec_anchor(&self) -> u64 {
        self.anchor
    }

    /// The display resolution this timer was configured with.
    pub closed spec fn spec_format(&self) -> TimeFormat {
        self.format
    }

    /// A new timer in the `Idle` state.
    pub fn new(format: TimeFormat) -> (t: ElapsedTimer)
        ensures
            !t.is_running(),
            t.spec_anchor() == 0,
            t.spec_format() == format,
    {
        ElapsedTimer { running: false, anchor: 0, format }
    }

    /// The start action: `Idle` moves to `Running` and records the
    /// anchor; on a running timer the event is ignored.
    pub fn start(&mut self, now: u64)
        ensures
            final(self).is_running(),
            final(self).spec_anchor() == if old(self).is_running() {
                old(self).spec_anchor()
            } else {
                now
            },
            final(self).spec_format() == old(self).spec_format(),
    {
        if !self.running {
            self.anchor = now;
            self.running = true;
        }
    }

    /// The reset action: the timer returns to `Idle` and the display
    /// reads zero again. Resetting an idle timer is a no-op.
    pub fn reset(&mut self)
        ensures
            !final(self).is_running(),
            final(self).spec_anchor() == old(self).spec_anchor(),
            final(self).spec_format() == old(self).spec_format(),
    {
        self.running = false;
    }

    /// A tick: on a running timer, the formatted elapsed time to display;
    /// on an idle timer, nothing.
    pub fn on_tick(&self, now: u64) -> (r: Option<String>)
        ensures
            match r {
                Some(text) => self.is_running() && text@ == spec_display(
                    self.spec_format(),
                    spec_elapsed(self.spec_anchor(), now),
                ),
                None => !self.is_running(),
            },
    {
        if self.running {
            let elapsed = if now >= self.anchor {
                now - self.anchor
            } else {
                0
            };
            match self.format {
                TimeFormat::HoursMinutesSeconds => Some(ms_to_hms(elapsed)),
                TimeFormat::MinutesSecondsCentis => Some(ms_to_msc(elapsed)),
            }
        } else {
            None
        }
    }

    /// The display text of a timer that was reset: zero elapsed time in
    /// this timer's resolution.
    pub fn zero_display(&self) -> (r: String)
        ensures
            r@ == spec_display(self.spec_format(), 0),
    {
        match self.format {
            TimeFormat::HoursMinutesSeconds => ms_to_hms(0),
            TimeFormat::MinutesSecondsCentis => ms_to_msc(0),
        }
    }
}

/// The display phase of the phase-cycling indicator.
#[derive(Clone, Copy, PartialEq, Eq, Structural, Debug)]
pub enum Phase {
    /// Distinct from both calm and aggro: the indicator is not running.
    Idle,
    Calm,
    Aggro,
}

/// The phase shown `elapsed` milliseconds after the indicator started:
/// calm for the first `CALM_MS`, then flipping every `FLIP_PERIOD_MS` —
/// a deterministic square-wave schedule, not a toggle per tick.
pub open spec fn spec_phase_at(elapsed: u64) -> Phase {
    if elapsed < CALM_MS {
        Phase::Calm
    } else if (((elapsed - CALM_MS) as int / (FLIP_PERIOD_MS as int)) % 2) == 0 {
        Phase::Aggro
    } else {
        Phase::Calm
    }
}

/// The phase-cycling ("calm/aggro") indicator.
///
/// On start it records the anchor and shows calm; while running, each
/// tick derives the phase from the elapsed time alone; reset returns it
/// to an idle phase distinct from both calm and aggro.
pub struct PhaseIndicator {
    running: bool,
    anchor: u64,
}

impl PhaseIndicator {
    /// Whether the indicator is running.
    pub closed spec fn is_running(&self) -> bool {
        self.running
    }

    /// The timestamp recorded when the indicator started.
    pub closed spec fn spec_anchor(&self) -> u64 {
        self.anchor
    }

    /// A new indicator in the idle phase.
    pub fn new() -> (p: PhaseIndicator)
        ensures
            !p.is_running(),
            p.spec_anchor() == 0,
    {
        PhaseIndicator { running: false, anchor: 0 }
    }

    /// The start action: an idle indicator records the anchor and begins
    /// its calm window; on a running indicator the event is ignored.
    pub fn start(&mut self, now: u64)
        ensures
            final(self).is_running(),
            final(self).spec_anchor() == if old(self).is_running() {
                old(self).spec_anchor()
            } else {
                now
            },
    {
        if !self.running {
            self.anchor = now;
            self.running = true;
        }
    }

    /// The reset action: back to the idle phase. Idempotent.
    pub fn reset(&mut self)
        ensures
            !final(self).is_running(),
            final(self).spec_anchor() == old(self).spec_anchor(),
    {
        self.running = false;
    }

    /// A tick: the phase to display, derived from the elapsed time alone.
    pub fn on_tick(&self, now: u64) -> (p: Phase)
        ensures
            p == if self.is_running() {
                spec_phase_at(spec_elapsed(self.spec_anchor(), now))
            } else {
                Phase::Idle
            },
    {
        if !self.running {
            Phase::Idle
        } else {
            let elapsed = if now >= self.anchor {
                now - self.anchor
            } else {
                0
            };
            if elapsed < CALM_MS {
                Phase::Calm
            } else if ((elapsed - CALM_MS) / FLIP_PERIOD_MS) % 2 == 0 {
                Phase::Aggro
            } else {
                Phase::Calm
            }
        }
    }
}

/// Law: the indicator's schedule is a square wave — calm throughout the
/// initial window, aggro for the first flip period after it, calm for
/// the next, and each full flip period later the phase repeats.
pub proof fn lemma_phase_square_wave(elapsed: u64)
    ensures
        elapsed < CALM_MS ==> spec_phase_at(elapsed) == Phase::Calm,
        CALM_MS <= elapsed < CALM_MS + FLIP_PERIOD_MS ==> spec_phase_at(elapsed) == Phase::Aggro,
        CALM_MS + FLIP_PERIOD_MS <= elapsed < CALM_MS + 2 * FLIP_PERIOD_MS ==> spec_phase_at(
            elapsed,
        ) == Phase::Calm,
        elapsed + 2 * FLIP_PERIOD_MS <= u64::MAX ==> spec_phase_at(
            (elapsed + 2 * FLIP_PERIOD_MS) as u64,
        ) == spec_phase_at(elapsed),
{
    if CALM_MS <= elapsed && elapsed + 2 * FLIP_PERIOD_MS <= u64::MAX {
        let d = (elapsed - CALM_MS) as int;
        let p = FLIP_PERIOD_MS as int;
        assert((d + 2 * p) / p == d / p + 2) by (nonlinear_arith)
            requires
                p > 0,
                d >= 0,
        ;
        assert(((d + 2 * p) / p) % 2 == (d / p) % 2);
    }
}

} // verus!
