//! The overlay's main view: the per-feature automatons and their bus
//! subscriptions.
//!
//! The view subscribes to the key-release topic and the tick topic. Key
//! events drive the elapsed-time timer, the bulk timer, the
//! phase-cycling indicator, the tap-tempo estimator and the toggle
//! grid's presets, all keyed by the configurable bindings; tick events
//! drive the displays and the bulk timer's auto-expiry. The start key of
//! the elapsed-time timer also starts the bulk timer, and its reset key
//! stops the bulk timer: one user action anchors both. The complete
//! reset key returns every automaton to its initial display at once.
//!
//! Unmapped key events are silently ignored.

use vstd::prelude::*;

use crate::bpm::{
    eff_now, intervals_centibpm, spec_display_bpm, spec_speed_centi, start_after_tap,
    taps_after_tap, SpeedModifiers, TapEstimate, TapState,
};
use crate::event_bus::{remove_id, set_paused_seq, EventBus, Subscription};
use crate::grid::{
    spec_find_preset, BulkConfig, BulkTimer, Preset, ToggleGrid, TriState, BULK_FIRST_MS,
    BULK_SECOND_MS,
};
use crate::settings::Settings;
use crate::timers::{
    spec_display, spec_elapsed, spec_phase_at, ElapsedTimer, Phase, PhaseIndicator, TimeFormat,
};

verus! {

/// The routing tag of the main view's tick subscription.
pub const HANDLER_MAIN_TIMER: u32 = 1;

/// The routing tag of the main view's key-release subscription.
pub const HANDLER_MAIN_BUTTONS: u32 = 2;

/// What one tick asks the rendering layer to show.
pub struct TickUpdate {
    /// The elapsed-time text, when the timer is running.
    pub time_text: Option<String>,
    /// The phase the indicator shows.
    pub phase: Phase,
}

/// The view of an optional string.
pub open spec fn opt_view(o: Option<String>) -> Option<Seq<char>> {
    match o {
        Some(s) => Some(s@),
        None => None,
    }
}

/// The main view: every automaton it owns, plus its two subscription
/// ids.
pub struct MainView {
    /// The elapsed-time timer shown on the main label.
    pub timer: ElapsedTimer,
    /// The phase-cycling indicator.
    pub obambo: PhaseIndicator,
    /// The tap-tempo estimator.
    pub tap: TapState,
    /// The tri-state toggle grid.
    pub grid: ToggleGrid,
    /// The bulk timer driving the grid's auto-expiry.
    pub bulk: BulkTimer,
    /// The designated entities of the bulk timer's rules.
    pub bulk_cfg: BulkConfig,
    /// The bulk presets, each keyed by the input event that applies it.
    pub presets: Vec<Preset>,
    /// The id of the key-release subscription, while registered.
    pub button_event_listener: Option<u32>,
    /// The id of the tick subscription, while registered.
    pub timer_event_listener: Option<u32>,
}

/// How a key-release event changes the view's state, by the binding the
/// key matches — the single description that the view's handler, the
/// window and the application all promise.
pub open spec fn spec_button_transition(
    v0: MainView,
    v1: MainView,
    key: u32,
    at: u64,
    s: Settings,
) -> bool {
    if key == s.key_timer_start {
        // Start both the elapsed-time timer and the bulk timer.
        &&& v1 == MainView { timer: v1.timer, bulk: v1.bulk, ..v0 }
        &&& v1.timer.is_running()
        &&& v1.timer.spec_format() == v0.timer.spec_format()
        &&& v1.timer.spec_anchor() == (if v0.timer.is_running() {
            v0.timer.spec_anchor()
        } else {
            at
        })
        &&& v1.bulk.is_running()
        &&& v1.bulk.spec_anchor() == (if v0.bulk.is_running() {
            v0.bulk.spec_anchor()
        } else {
            at
        })
    } else if key == s.key_timer_reset {
        // Reset the elapsed-time timer and stop the bulk timer; stopped
        // before the first threshold, the grid resolves.
        &&& v1 == MainView { timer: v1.timer, bulk: v1.bulk, grid: v1.grid, ..v0 }
        &&& !v1.timer.is_running()
        &&& v1.timer.spec_anchor() == v0.timer.spec_anchor()
        &&& v1.timer.spec_format() == v0.timer.spec_format()
        &&& !v1.bulk.is_running()
        &&& v1.bulk.spec_anchor() == v0.bulk.spec_anchor()
        &&& v1.grid.spec_cells().len() == v0.grid.spec_cells().len()
        &&& ({
            let resolved = v0.bulk.is_running() && spec_elapsed(v0.bulk.spec_anchor(), at)
                < BULK_FIRST_MS;
            if resolved {
                forall|j: int|
                    0 <= j < v1.grid.spec_cells().len() ==> v1.grid.spec_cells()[j] == (if j
                        == v0.bulk_cfg.resolved_entity as int {
                        TriState::On
                    } else {
                        TriState::Off
                    })
            } else {
                v1.grid.spec_cells() == v0.grid.spec_cells()
            }
        })
    } else if key == s.key_obambo_start {
        &&& v1 == MainView { obambo: v1.obambo, ..v0 }
        &&& v1.obambo.is_running()
        &&& v1.obambo.spec_anchor() == (if v0.obambo.is_running() {
            v0.obambo.spec_anchor()
        } else {
            at
        })
    } else if key == s.key_obambo_reset {
        &&& v1 == MainView { obambo: v1.obambo, ..v0 }
        &&& !v1.obambo.is_running()
        &&& v1.obambo.spec_anchor() == v0.obambo.spec_anchor()
    } else if key == s.key_ms {
        &&& v1 == MainView { tap: v1.tap, ..v0 }
        &&& v1.tap.spec_taps() == taps_after_tap(
            v0.tap.spec_taps(),
            eff_now(v0.tap.spec_taps(), at),
        )
        &&& v1.tap.spec_start() == start_after_tap(
            v0.tap.spec_taps(),
            v0.tap.spec_start(),
            eff_now(v0.tap.spec_taps(), at),
        )
    } else if key == s.key_reset {
        // The complete reset: every automaton back to its initial
        // display.
        &&& v1 == MainView {
            timer: v1.timer,
            obambo: v1.obambo,
            tap: v1.tap,
            grid: v1.grid,
            bulk: v1.bulk,
            ..v0
        }
        &&& !v1.timer.is_running()
        &&& v1.timer.spec_anchor() == v0.timer.spec_anchor()
        &&& v1.timer.spec_format() == v0.timer.spec_format()
        &&& !v1.obambo.is_running()
        &&& v1.obambo.spec_anchor() == v0.obambo.spec_anchor()
        &&& v1.tap.spec_taps().len() == 0
        &&& v1.tap.spec_start() is None
        &&& !v1.bulk.is_running()
        &&& v1.bulk.spec_anchor() == v0.bulk.spec_anchor()
        &&& v1.grid.spec_cells().len() == v0.grid.spec_cells().len()
        &&& forall|j: int|
            0 <= j < v1.grid.spec_cells().len() ==> v1.grid.spec_cells()[j] == TriState::Default
    } else {
        let pi = spec_find_preset(v0.presets@, key);
        if pi >= 0 {
            &&& v1 == MainView { grid: v1.grid, ..v0 }
            &&& v1.grid.spec_cells().len() == v0.grid.spec_cells().len()
            &&& forall|j: int|
                0 <= j < v1.grid.spec_cells().len() ==> v1.grid.spec_cells()[j] == (
                if v0.presets@[pi].spec_defaults().contains(j as usize) {
                    TriState::Default
                } else {
                    TriState::Off
                })
        } else {
            v1 == v0
        }
    }
}

/// What a key-release event returns: the tap key yields the estimator's
/// result, every other key yields nothing.
pub open spec fn spec_button_output(
    v1: MainView,
    key: u32,
    s: Settings,
    m: SpeedModifiers,
    r: Option<TapEstimate>,
) -> bool {
    if key != s.key_timer_start && key != s.key_timer_reset && key != s.key_obambo_start && key
        != s.key_obambo_reset && key == s.key_ms {
        match r {
            None => intervals_centibpm(v1.tap.spec_taps()).len() < 2,
            Some(e) => intervals_centibpm(v1.tap.spec_taps()).len() >= 2 && e.bpm as int
                == spec_display_bpm(v1.tap.spec_taps()) && e.speed_centi as int
                == spec_speed_centi(v1.tap.spec_taps(), m),
        }
    } else {
        r is None
    }
}

/// How a tick changes the view's state: only the bulk timer and, through
/// its rules, the grid.
pub open spec fn spec_tick_transition(v0: MainView, v1: MainView, at: u64) -> bool {
    &&& v1 == MainView { grid: v1.grid, bulk: v1.bulk, ..v0 }
    &&& v1.bulk.spec_anchor() == v0.bulk.spec_anchor()
    &&& v1.grid.spec_cells().len() == v0.grid.spec_cells().len()
    &&& ({
        let elapsed = spec_elapsed(v0.bulk.spec_anchor(), at);
        if !v0.bulk.is_running() {
            v1.grid.spec_cells() == v0.grid.spec_cells() && !v1.bulk.is_running()
        } else if elapsed >= BULK_SECOND_MS {
            !v1.bulk.is_running() && forall|j: int|
                0 <= j < v1.grid.spec_cells().len() ==> v1.grid.spec_cells()[j] == (if j
                    == v0.bulk_cfg.keep_a as int || j == v0.bulk_cfg.keep_b as int {
                    TriState::Default
                } else {
                    TriState::Off
                })
        } else if elapsed >= BULK_FIRST_MS {
            v1.bulk.is_running() && v1.grid.spec_cells() == v0.grid.spec_cells().update(
                v0.bulk_cfg.expiry_entity as int,
                TriState::Off,
            )
        } else {
            v1.bulk.is_running() && v1.grid.spec_cells() == v0.grid.spec_cells()
        }
    })
}

/// What a tick returns: the elapsed-time text exactly when the timer
/// runs, and the indicator's current phase.
pub open spec fn spec_tick_output(
    v0: MainView,
    at: u64,
    text: Option<Seq<char>>,
    phase: Phase,
) -> bool {
    &&& (match text {
        Some(t) => v0.timer.is_running() && t == spec_display(
            v0.timer.spec_format(),
            spec_elapsed(v0.timer.spec_anchor(), at),
        ),
        None => !v0.timer.is_running(),
    })
    &&& phase == (if v0.obambo.is_running() {
        spec_phase_at(spec_elapsed(v0.obambo.spec_anchor(), at))
    } else {
        Phase::Idle
    })
}

impl MainView {
    /// View invariant: the estimator's window is well-formed and every
    /// designated entity of the bulk rules lies inside the grid.
    pub open spec fn wf(&self) -> bool {
        &&& self.tap.wf()
        &&& self.bulk_cfg.fits(self.grid.spec_cells().len() as int)
    }

    /// Builds the view with every automaton in its initial state and
    /// registers its two subscriptions, live from the start.
    pub fn new(
        bus: &mut EventBus,
        grid_size: usize,
        bulk_cfg: BulkConfig,
        presets: Vec<Preset>,
    ) -> (v: MainView)
        requires
            old(bus).wf(),
            old(bus).spec_next_id() < u32::MAX - 1,
            bulk_cfg.fits(grid_size as int),
        ensures
            v.wf(),
            !v.timer.is_running(),
            v.timer.spec_format() == TimeFormat::HoursMinutesSeconds,
            !v.obambo.is_running(),
            v.tap.spec_taps().len() == 0,
            v.tap.spec_start() is None,
            !v.bulk.is_running(),
            v.bulk_cfg == bulk_cfg,
            v.presets@ == presets@,
            v.grid.spec_cells().len() == grid_size,
            forall|j: int|
                0 <= j < grid_size ==> v.grid.spec_cells()[j] == TriState::Default,
            v.timer_event_listener == Some(old(bus).spec_next_id()),
            v.button_event_listener == Some((old(bus).spec_next_id() + 1) as u32),
            final(bus).wf(),
            final(bus).spec_next_id() == old(bus).spec_next_id() + 2,
            final(bus).subs_of("timer_event"@) == old(bus).subs_of("timer_event"@).push(
                Subscription {
                    id: old(bus).spec_next_id(),
                    handler: HANDLER_MAIN_TIMER,
                    paused: false,
                    active: true,
                },
            ),
            final(bus).subs_of("button_event"@) == old(bus).subs_of("button_event"@).push(
                Subscription {
                    id: (old(bus).spec_next_id() + 1) as u32,
                    handler: HANDLER_MAIN_BUTTONS,
                    paused: false,
                    active: true,
                },
            ),
            forall|n: Seq<char>|
                n != "timer_event"@ && n != "button_event"@ ==> #[trigger] final(bus).subs_of(n)
                    == old(bus).subs_of(n),
            forall|n: Seq<char>|
                #[trigger] final(bus).has_topic(n) <==> (old(bus).has_topic(n) || n
                    == "timer_event"@ || n == "button_event"@),
    {
        proof {
            reveal_strlit("timer_event");
            reveal_strlit("button_event");
            assert("timer_event"@.len() == 11 && "button_event"@.len() == 12);
            assert("timer_event"@ != "button_event"@);
        }
        let timer_id = bus.register_event("timer_event", HANDLER_MAIN_TIMER, true);
        let button_id = bus.register_event("button_event", HANDLER_MAIN_BUTTONS, true);
        MainView {
            timer: ElapsedTimer::new(TimeFormat::HoursMinutesSeconds),
            obambo: PhaseIndicator::new(),
            tap: TapState::new(),
            grid: ToggleGrid::new(grid_size),
            bulk: BulkTimer::new(),
            bulk_cfg,
            presets,
            button_event_listener: Some(button_id),
            timer_event_listener: Some(timer_id),
        }
    }

    /// The name the window's registry files this view under.
    pub fn get_name(&self) -> (r: String)
        ensures
            r@ == "main_view"@,
    {
        String::from_str("main_view")
    }

    /// Pauses both subscriptions: the view keeps its state but receives
    /// no deliveries until resumed.
    pub fn on_pause(&self, bus: &mut EventBus)
        requires
            old(bus).wf(),
        ensures
            final(bus).wf(),
            final(bus).spec_next_id() == old(bus).spec_next_id(),
            final(bus).subs_of("timer_event"@) == (match self.timer_event_listener {
                Some(id) => set_paused_seq(old(bus).subs_of("timer_event"@), id, true),
                None => old(bus).subs_of("timer_event"@),
            }),
            final(bus).subs_of("button_event"@) == (match self.button_event_listener {
                Some(id) => set_paused_seq(old(bus).subs_of("button_event"@), id, true),
                None => old(bus).subs_of("button_event"@),
            }),
            forall|n: Seq<char>|
                n != "timer_event"@ && n != "button_event"@ ==> #[trigger] final(bus).subs_of(n)
                    == old(bus).subs_of(n),
            forall|n: Seq<char>| #[trigger] final(bus).has_topic(n) <==> old(bus).has_topic(n),
    {
        proof {
            reveal_strlit("timer_event");
            reveal_strlit("button_event");
            assert("timer_event"@.len() == 11 && "button_event"@.len() == 12);
            assert("timer_event"@ != "button_event"@);
        }
        match self.button_event_listener {
            Some(id) => bus.pause_event("button_event", id),
            None => (),
        }
        match self.timer_event_listener {
            Some(id) => bus.pause_event("timer_event", id),
            None => (),
        }
    }

    /// Resumes both subscriptions: deliveries reach the view again for
    /// events published from now on.
    pub fn on_resume(&self, bus: &mut EventBus)
        requires
            old(bus).wf(),
        ensures
            final(bus).wf(),
            final(bus).spec_next_id() == old(bus).spec_next_id(),
            final(bus).subs_of("timer_event"@) == (match self.timer_event_listener {
                Some(id) => set_paused_seq(old(bus).subs_of("timer_event"@), id, false),
                None => old(bus).subs_of("timer_event"@),
            }),
            final(bus).subs_of("button_event"@) == (match self.button_event_listener {
                Some(id) => set_paused_seq(old(bus).subs_of("button_event"@), id, false),
                None => old(bus).subs_of("button_event"@),
            }),
            forall|n: Seq<char>|
                n != "timer_event"@ && n != "button_event"@ ==> #[trigger] final(bus).subs_of(n)
                    == old(bus).subs_of(n),
            forall|n: Seq<char>| #[trigger] final(bus).has_topic(n) <==> old(bus).has_topic(n),
    {
        proof {
            reveal_strlit("timer_event");
            reveal_strlit("button_event");
            assert("timer_event"@.len() == 11 && "button_event"@.len() == 12);
            assert("timer_event"@ != "button_event"@);
        }
        match self.button_event_listener {
            Some(id) => bus.resume_event("button_event", id),
            None => (),
        }
        match self.timer_event_listener {
            Some(id) => bus.resume_event("timer_event", id),
            None => (),
        }
    }

    /// Unregisters both subscriptions; their ids are never reused.
    pub fn on_destroy(&self, bus: &mut EventBus)
        requires
            old(bus).wf(),
        ensures
            final(bus).wf(),
            final(bus).spec_next_id() == old(bus).spec_next_id(),
            final(bus).subs_of("timer_event"@) == (match self.timer_event_listener {
                Some(id) => remove_id(old(bus).subs_of("timer_event"@), id),
                None => old(bus).subs_of("timer_event"@),
            }),
            final(bus).subs_of("button_event"@) == (match self.button_event_listener {
                Some(id) => remove_id(old(bus).subs_of("button_event"@), id),
                None => old(bus).subs_of("button_event"@),
            }),
            forall|n: Seq<char>|
                n != "timer_event"@ && n != "button_event"@ ==> #[trigger] final(bus).subs_of(n)
                    == old(bus).subs_of(n),
            forall|n: Seq<char>| #[trigger] final(bus).has_topic(n) <==> old(bus).has_topic(n),
    {
        proof {
            reveal_strlit("timer_event");
            reveal_strlit("button_event");
            assert("timer_event"@.len() == 11 && "button_event"@.len() == 12);
            assert("timer_event"@ != "button_event"@);
        }
        match self.button_event_listener {
            Some(id) => bus.unregister_event("button_event", id),
            None => (),
        }
        match self.timer_event_listener {
            Some(id) => bus.unregister_event("timer_event", id),
            None => (),
        }
    }

    /// Handles one tick: the displays update from the elapsed time, and
    /// the bulk timer applies its threshold rules to the grid.
    pub fn on_timer_event(&mut self, at: u64) -> (u: TickUpdate)
        requires
            old(self).wf(),
        ensures
            final(self).wf(),
            spec_tick_transition(*old(self), *final(self), at),
            spec_tick_output(*old(self), at, opt_view(u.time_text), u.phase),
    {
        let time_text = self.timer.on_tick(at);
        let phase = self.obambo.on_tick(at);
        self.bulk.on_tick(at, &mut self.grid, &self.bulk_cfg);
        TickUpdate { time_text, phase }
    }

    /// Handles one key release: dispatches on the configured bindings,
    /// then on the preset table; unmapped keys change nothing.
    pub fn on_button_event(&mut self, key: u32, at: u64, s: &Settings, m: &SpeedModifiers) -> (r:
        Option<TapEstimate>)
        requires
            old(self).wf(),
            -99 <= m.offset_pct <= 10000,
        ensures
            final(self).wf(),
            spec_button_transition(*old(self), *final(self), key, at, *s),
            spec_button_output(*final(self), key, *s, *m, r),
    {
        if key == s.key_timer_start {
            self.timer.start(at);
            self.bulk.start(at);
            None
        } else if key == s.key_timer_reset {
            self.timer.reset();
            self.bulk.stop(at, &mut self.grid, &self.bulk_cfg);
            None
        } else if key == s.key_obambo_start {
            self.obambo.start(at);
            None
        } else if key == s.key_obambo_reset {
            self.obambo.reset();
            None
        } else if key == s.key_ms {
            self.tap.tap_and_compute(at, m)
        } else if key == s.key_reset {
            self.timer.reset();
            self.obambo.reset();
            self.tap.reset();
            self.bulk.reset();
            self.grid.reset_all();
            None
        } else {
            let n = self.presets.len();
            let mut i: usize = 0;
            while i < n
                invariant
                    n == self.presets@.len(),
                    forall|j: int| 0 <= j < i ==> (#[trigger] self.presets@[j]).key != key,
                    *self == *old(self),
                    old(self).wf(),
                    key != s.key_timer_start,
                    key != s.key_timer_reset,
                    key != s.key_obambo_start,
                    key != s.key_obambo_reset,
                    key != s.key_ms,
                    key != s.key_reset,
                decreases n - i,
            {
                if self.presets[i].key == key {
                    proof {
                        crate::grid::lemma_find_preset_at(self.presets@, key, i as int);
                    }
                    self.grid.apply_preset(&self.presets[i]);
                    return None;
                }
                i = i + 1;
            }
            proof {
                crate::grid::lemma_find_preset_none(self.presets@, key);
            }
            None
        }
    }
}

} // verus!
