//! The consuming context: one bus, one window, one settings record.
//!
//! Producers publish events from their own threads; an adapter
//! serializes them onto this context, which computes each event's
//! delivery plan and routes the deliveries to the resident view's
//! handlers. Handler bodies therefore never run concurrently with each
//! other or with registry mutation, and no state here needs a lock.

use vstd::prelude::*;

use crate::bpm::{SpeedModifiers, TapEstimate};
use crate::event_bus::{delivery_plan, EventBus, Subscription};
use crate::events::Event;
use crate::grid::{BulkConfig, Preset, TriState};
use crate::main_view::{TickUpdate, HANDLER_MAIN_BUTTONS, HANDLER_MAIN_TIMER};
use crate::main_window::{spec_deliver_button, spec_deliver_tick, MainWindow};
use crate::settings::{spec_default_settings, Settings};
use crate::timers::TimeFormat;

verus! {

/// What one handled event asks the rendering layer to show.
pub struct AppUpdate {
    /// The display updates of a tick, when one was delivered.
    pub tick: Option<TickUpdate>,
    /// The estimator's result, when a tap was recorded.
    pub estimate: Option<TapEstimate>,
}

/// The speed-conversion modifiers the application derives from its
/// settings: only the environment flag is configurable; the offset and
/// the remaining modifiers stay at their neutral values.
pub open spec fn spec_modifiers(s: Settings) -> SpeedModifiers {
    SpeedModifiers {
        offset_pct: 0,
        blood_moon: s.blood_moon,
        forest_minion: false,
        coal: false,
    }
}

/// The application core: the bus, the window registry and the settings,
/// all owned by the consuming context.
pub struct App {
    pub bus: EventBus,
    pub window: MainWindow,
    pub settings: Settings,
}

impl App {
    /// Application invariant: bus and window are well-formed, and every
    /// stacked page carries the shipped view's name — which, with page
    /// names distinct, leaves at most one resident view.
    pub open spec fn wf(&self) -> bool {
        &&& self.bus.wf()
        &&& self.window.wf()
        &&& forall|i: int|
            0 <= i < self.window.spec_entries().len()
                ==> (#[trigger] self.window.spec_entries()[i]).name@ == "main_view"@
    }

    /// Assembles the core at startup: a fresh bus, default settings,
    /// and the main view registered and visible. The grid size, the
    /// bulk rules and the preset table are data supplied by the caller.
    pub fn new(grid_size: usize, bulk_cfg: BulkConfig, presets: Vec<Preset>) -> (app: App)
        requires
            bulk_cfg.fits(grid_size as int),
        ensures
            app.wf(),
            app.settings == spec_default_settings(),
            app.window.spec_entries().len() == 1,
            app.window.spec_visible() == Some(0usize),
            ({
                let v = app.window.spec_entries()[0].view;
                &&& !v.timer.is_running()
                &&& v.timer.spec_format() == TimeFormat::HoursMinutesSeconds
                &&& !v.obambo.is_running()
                &&& v.tap.spec_taps().len() == 0
                &&& !v.bulk.is_running()
                &&& v.bulk_cfg == bulk_cfg
                &&& v.presets@ == presets@
                &&& v.grid.spec_cells().len() == grid_size
                &&& (forall|j: int|
                    0 <= j < grid_size ==> v.grid.spec_cells()[j] == TriState::Default)
                &&& v.timer_event_listener == Some(0u32)
                &&& v.button_event_listener == Some(1u32)
            }),
            app.bus.spec_next_id() == 2,
            app.bus.subs_of("timer_event"@) == seq![
                Subscription { id: 0u32, handler: HANDLER_MAIN_TIMER, paused: false, active: true },
            ],
            app.bus.subs_of("button_event"@) == seq![
                Subscription {
                    id: 1u32,
                    handler: HANDLER_MAIN_BUTTONS,
                    paused: false,
                    active: true,
                },
            ],
            forall|n: Seq<char>|
                n != "timer_event"@ && n != "button_event"@ ==> #[trigger] app.bus.subs_of(n)
                    == Seq::<Subscription>::empty(),
    {
        let mut bus = EventBus::new();
        let window = MainWindow::new(&mut bus, grid_size, bulk_cfg, presets);
        proof {
            assert(Seq::<Subscription>::empty().push(
                Subscription { id: 0u32, handler: HANDLER_MAIN_TIMER, paused: false, active: true },
            ) =~= seq![
                Subscription { id: 0u32, handler: HANDLER_MAIN_TIMER, paused: false, active: true },
            ]);
            assert(Seq::<Subscription>::empty().push(
                Subscription {
                    id: 1u32,
                    handler: HANDLER_MAIN_BUTTONS,
                    paused: false,
                    active: true,
                },
            ) =~= seq![
                Subscription {
                    id: 1u32,
                    handler: HANDLER_MAIN_BUTTONS,
                    paused: false,
                    active: true,
                },
            ]);
        }
        App { bus, window, settings: Settings::new() }
    }

    /// Handles one published event on the consuming context: computes
    /// the delivery plan for the event's topic and routes it to the
    /// resident view. A subscription that is paused, or unregistered,
    /// receives nothing, because the plan omits it.
    pub fn handle_event(&mut self, e: &Event) -> (u: AppUpdate)
        requires
            old(self).wf(),
        ensures
            final(self).wf(),
            final(self).bus == old(self).bus,
            final(self).settings == old(self).settings,
            ({
                let plan = delivery_plan(old(self).bus.subs_of(e.spec_topic()));
                match *e {
                    Event::Tick { at } => u.estimate is None && spec_deliver_tick(
                        old(self).window,
                        final(self).window,
                        at,
                        plan,
                        u.tick,
                    ),
                    Event::KeyReleased { key, at } => u.tick is None && spec_deliver_button(
                        old(self).window,
                        final(self).window,
                        key,
                        at,
                        old(self).settings,
                        spec_modifiers(old(self).settings),
                        plan,
                        u.estimate,
                    ),
                }
            }),
    {
        let plan = self.bus.send_event(e);
        match e {
            Event::Tick { at } => {
                let tick = self.window.deliver_timer_event(*at, &plan);
                AppUpdate { tick, estimate: None }
            },
            Event::KeyReleased { key, at } => {
                let m = SpeedModifiers {
                    offset_pct: 0,
                    blood_moon: self.settings.blood_moon,
                    forest_minion: false,
                    coal: false,
                };
                let estimate = self.window.deliver_button_event(
                    *key,
                    *at,
                    &self.settings,
                    &m,
                    &plan,
                );
                AppUpdate { tick: None, estimate }
            },
        }
    }
}

} // verus!
