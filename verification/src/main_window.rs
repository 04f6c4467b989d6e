//! The main window's view registry: a navigation stack of named views,
//! at most one of them visible, with lifecycle calls on every
//! transition.
//!
//! Adding a view tears down everything above the current page — and a
//! page that already carries the new view's name, together with
//! everything above it — destroying each removed view so that its bus
//! subscriptions are unregistered, then pushes the new view on top and
//! makes it visible. Switching the visible page pauses the page that
//! was visible before and resumes the page being shown. The window
//! chrome itself (widgets, decoration, platform always-on-top calls)
//! belongs to the rendering collaborator.

use vstd::prelude::*;

use crate::bpm::{SpeedModifiers, TapEstimate};
use crate::event_bus::{remove_ids_seq, Delivery, EventBus};
use crate::event_bus::{lemma_remove_ids_seq_snoc, plan_contains};
use crate::grid::{BulkConfig, Preset};
use crate::main_view::{
    spec_button_output, spec_button_transition, spec_tick_output, spec_tick_transition, opt_view,
    MainView, TickUpdate,
};
use crate::settings::Settings;
use crate::timers::TimeFormat;

verus! {

/// One page of the stack: a view filed under its name.
pub struct StackEntry {
    pub name: String,
    pub view: MainView,
}

/// The subscription sequence after setting the paused flag of a view's
/// optional listener; unchanged when the view holds none.
pub open spec fn opt_set_paused(
    subs: Seq<crate::event_bus::Subscription>,
    listener: Option<u32>,
    p: bool,
) -> Seq<crate::event_bus::Subscription> {
    match listener {
        Some(id) => crate::event_bus::set_paused_seq(subs, id, p),
        None => subs,
    }
}

/// The ids a view's optional subscription contributes to a removal.
pub open spec fn opt_id_seq(o: Option<u32>) -> Seq<u32> {
    match o {
        Some(id) => seq![id],
        None => Seq::empty(),
    }
}

/// The tick-subscription ids of these entries in teardown order: the
/// topmost entry's first.
pub open spec fn timer_ids_rev(es: Seq<StackEntry>) -> Seq<u32>
    decreases es.len(),
{
    if es.len() == 0 {
        Seq::empty()
    } else {
        opt_id_seq(es.last().view.timer_event_listener) + timer_ids_rev(es.drop_last())
    }
}

/// The key-release-subscription ids of these entries in teardown order.
pub open spec fn button_ids_rev(es: Seq<StackEntry>) -> Seq<u32>
    decreases es.len(),
{
    if es.len() == 0 {
        Seq::empty()
    } else {
        opt_id_seq(es.last().view.button_event_listener) + button_ids_rev(es.drop_last())
    }
}

/// Peeling the bottom entry off a teardown moves its id to the end of
/// the removal order.
proof fn lemma_timer_ids_rev_cons(es: Seq<StackEntry>)
    requires
        es.len() > 0,
    ensures
        timer_ids_rev(es) == timer_ids_rev(es.drop_first()) + opt_id_seq(
            es.first().view.timer_event_listener,
        ),
    decreases es.len(),
{
    if es.len() == 1 {
        assert(es.drop_last() =~= Seq::<StackEntry>::empty());
        assert(es.drop_first() =~= Seq::<StackEntry>::empty());
        assert(es.last() == es.first());
        assert(timer_ids_rev(es) =~= timer_ids_rev(es.drop_first()) + opt_id_seq(
            es.first().view.timer_event_listener,
        ));
    } else {
        let dl = es.drop_last();
        lemma_timer_ids_rev_cons(dl);
        assert(dl.first() == es.first());
        assert(dl.drop_first() =~= es.drop_first().drop_last());
        assert(es.drop_first().last() == es.last());
        assert(timer_ids_rev(es.drop_first()) == opt_id_seq(es.last().view.timer_event_listener)
            + timer_ids_rev(es.drop_first().drop_last()));
        assert(timer_ids_rev(es) =~= timer_ids_rev(es.drop_first()) + opt_id_seq(
            es.first().view.timer_event_listener,
        ));
    }
}

/// Peeling the bottom entry off a teardown moves its id to the end of
/// the removal order.
proof fn lemma_button_ids_rev_cons(es: Seq<StackEntry>)
    requires
        es.len() > 0,
    ensures
        button_ids_rev(es) == button_ids_rev(es.drop_first()) + opt_id_seq(
            es.first().view.button_event_listener,
        ),
    decreases es.len(),
{
    if es.len() == 1 {
        assert(es.drop_last() =~= Seq::<StackEntry>::empty());
        assert(es.drop_first() =~= Seq::<StackEntry>::empty());
        assert(es.last() == es.first());
        assert(button_ids_rev(es) =~= button_ids_rev(es.drop_first()) + opt_id_seq(
            es.first().view.button_event_listener,
        ));
    } else {
        let dl = es.drop_last();
        lemma_button_ids_rev_cons(dl);
        assert(dl.first() == es.first());
        assert(dl.drop_first() =~= es.drop_first().drop_last());
        assert(es.drop_first().last() == es.last());
        assert(button_ids_rev(es.drop_first()) == opt_id_seq(es.last().view.button_event_listener)
            + button_ids_rev(es.drop_first().drop_last()));
        assert(button_ids_rev(es) =~= button_ids_rev(es.drop_first()) + opt_id_seq(
            es.first().view.button_event_listener,
        ));
    }
}

/// The window's page registry and the visible page.
pub struct MainWindow {
    entries: Vec<StackEntry>,
    visible: Option<usize>,
}

/// Where `add_view` cuts the stack for a view named `name`: at a page
/// already carrying the name, else just above the visible page, else at
/// the top.
pub open spec fn spec_cut(w: MainWindow, name: Seq<char>) -> int {
    if exists|i: int|
        0 <= i < w.spec_entries().len() && (#[trigger] w.spec_entries()[i]).name@ == name {
        choose|i: int|
            0 <= i < w.spec_entries().len() && (#[trigger] w.spec_entries()[i]).name@ == name
    } else {
        match w.spec_visible() {
            Some(v) => v + 1,
            None => w.spec_entries().len() as int,
        }
    }
}

/// Whether the single resident view's tick subscription is named by a
/// delivery plan.
pub open spec fn spec_tick_delivered(v: MainView, plan: Seq<Delivery>) -> bool {
    match v.timer_event_listener {
        Some(id) => exists|j: int| 0 <= j < plan.len() && (#[trigger] plan[j]).id == id,
        None => false,
    }
}

/// Whether the single resident view's key-release subscription is named
/// by a delivery plan.
pub open spec fn spec_button_delivered(v: MainView, plan: Seq<Delivery>) -> bool {
    match v.button_event_listener {
        Some(id) => exists|j: int| 0 <= j < plan.len() && (#[trigger] plan[j]).id == id,
        None => false,
    }
}

/// What delivering one tick to the window does: with exactly one
/// resident view whose tick subscription the plan names, the view steps
/// and reports its display update; otherwise nothing changes.
pub open spec fn spec_deliver_tick(
    w0: MainWindow,
    w1: MainWindow,
    at: u64,
    plan: Seq<Delivery>,
    u: Option<TickUpdate>,
) -> bool {
    &&& w1.spec_visible() == w0.spec_visible()
    &&& w1.spec_entries().len() == w0.spec_entries().len()
    &&& forall|i: int|
        0 <= i < w1.spec_entries().len() ==> (#[trigger] w1.spec_entries()[i]).name@
            == w0.spec_entries()[i].name@
    &&& if w0.spec_entries().len() == 1 && spec_tick_delivered(w0.spec_entries()[0].view, plan) {
        &&& spec_tick_transition(w0.spec_entries()[0].view, w1.spec_entries()[0].view, at)
        &&& (match u {
            Some(upd) => spec_tick_output(
                w0.spec_entries()[0].view,
                at,
                opt_view(upd.time_text),
                upd.phase,
            ),
            None => false,
        })
    } else {
        w1.spec_entries() == w0.spec_entries() && u is None
    }
}

/// What delivering one key release to the window does: with exactly one
/// resident view whose key-release subscription the plan names, the
/// view steps and reports the estimator's result; otherwise nothing
/// changes.
pub open spec fn spec_deliver_button(
    w0: MainWindow,
    w1: MainWindow,
    key: u32,
    at: u64,
    s: Settings,
    m: SpeedModifiers,
    plan: Seq<Delivery>,
    r: Option<TapEstimate>,
) -> bool {
    &&& w1.spec_visible() == w0.spec_visible()
    &&& w1.spec_entries().len() == w0.spec_entries().len()
    &&& forall|i: int|
        0 <= i < w1.spec_entries().len() ==> (#[trigger] w1.spec_entries()[i]).name@
            == w0.spec_entries()[i].name@
    &&& if w0.spec_entries().len() == 1 && spec_button_delivered(w0.spec_entries()[0].view, plan) {
        &&& spec_button_transition(w0.spec_entries()[0].view, w1.spec_entries()[0].view, key, at, s)
        &&& spec_button_output(w1.spec_entries()[0].view, key, s, m, r)
    } else {
        w1.spec_entries() == w0.spec_entries() && r is None
    }
}

impl MainWindow {
    /// The page stack, bottom first.
    pub closed spec fn spec_entries(&self) -> Seq<StackEntry> {
        self.entries@
    }

    /// The index of the visible page, once one exists.
    pub closed spec fn spec_visible(&self) -> Option<usize> {
        self.visible
    }

    /// Registry invariant: page names are distinct, every resident view
    /// is well-formed, and the visible index points at a page.
    pub open spec fn wf(&self) -> bool {
        &&& forall|i: int, j: int|
            0 <= i < j < self.spec_entries().len() ==> (#[trigger] self.spec_entries()[i]).name@
                != (#[trigger] self.spec_entries()[j]).name@
        &&& forall|i: int|
            0 <= i < self.spec_entries().len() ==> (#[trigger] self.spec_entries()[i]).view.wf()
        &&& match self.spec_visible() {
            Some(v) => v < self.spec_entries().len(),
            None => true,
        }
    }

    /// Builds the window with its one shipped view already registered
    /// on the bus, stacked and visible.
    pub fn new(
        bus: &mut EventBus,
        grid_size: usize,
        bulk_cfg: BulkConfig,
        presets: Vec<Preset>,
    ) -> (w: MainWindow)
        requires
            old(bus).wf(),
            old(bus).spec_next_id() < u32::MAX - 1,
            bulk_cfg.fits(grid_size as int),
        ensures
            w.wf(),
            w.spec_entries().len() == 1,
            w.spec_visible() == Some(0usize),
            w.spec_entries()[0].name@ == "main_view"@,
            ({
                let v = w.spec_entries()[0].view;
                &&& !v.timer.is_running()
                &&& v.timer.spec_format() == TimeFormat::HoursMinutesSeconds
                &&& !v.obambo.is_running()
                &&& v.tap.spec_taps().len() == 0
                &&& v.tap.spec_start() is None
                &&& !v.bulk.is_running()
                &&& v.bulk_cfg == bulk_cfg
                &&& v.presets@ == presets@
                &&& v.grid.spec_cells().len() == grid_size
                &&& (forall|j: int|
                    0 <= j < grid_size ==> v.grid.spec_cells()[j]
                        == crate::grid::TriState::Default)
                &&& v.timer_event_listener == Some(old(bus).spec_next_id())
                &&& v.button_event_listener == Some((old(bus).spec_next_id() + 1) as u32)
            }),
            final(bus).wf(),
            final(bus).spec_next_id() == old(bus).spec_next_id() + 2,
            final(bus).subs_of("timer_event"@) == old(bus).subs_of("timer_event"@).push(
                crate::event_bus::Subscription {
                    id: old(bus).spec_next_id(),
                    handler: crate::main_view::HANDLER_MAIN_TIMER,
                    paused: false,
                    active: true,
                },
            ),
            final(bus).subs_of("button_event"@) == old(bus).subs_of("button_event"@).push(
                crate::event_bus::Subscription {
                    id: (old(bus).spec_next_id() + 1) as u32,
                    handler: crate::main_view::HANDLER_MAIN_BUTTONS,
                    paused: false,
                    active: true,
                },
            ),
            forall|n: Seq<char>|
                n != "timer_event"@ && n != "button_event"@ ==> #[trigger] final(bus).subs_of(n)
                    == old(bus).subs_of(n),
            forall|n: Seq<char>|
                #[trigger] final(bus).has_topic(n) <==> (old(bus).has_topic(n) || n
                    == "timer_event"@ || n == "button_event"@),
    {
        let view = MainView::new(bus, grid_size, bulk_cfg, presets);
        let mut w = MainWindow { entries: Vec::new(), visible: None };
        w.add_view(bus, view);
        proof {
            assert(Seq::<StackEntry>::empty().skip(0) =~= Seq::<StackEntry>::empty());
        }
        w
    }

    /// The unique page carrying a name, if one exists.
    fn find_entry(&self, name: &String) -> (r: Option<usize>)
        ensures
            match r {
                Some(i) => i < self.spec_entries().len() && self.spec_entries()[i as int].name@
                    == name@,
                None => forall|i: int|
                    0 <= i < self.spec_entries().len() ==> (#[trigger] self.spec_entries()[i]).name@
                        != name@,
            },
    {
        let n = self.entries.len();
        let mut i: usize = 0;
        while i < n
            invariant
                n == self.entries@.len(),
                forall|j: int| 0 <= j < i ==> (#[trigger] self.entries@[j]).name@ != name@,
            decreases n - i,
        {
            if self.entries[i].name == *name {
                return Some(i);
            }
            i = i + 1;
        }
        None
    }

    /// Stacks a view: pages above the visible one — and a page already
    /// carrying the view's name, with everything above it — are
    /// destroyed, unregistering their subscriptions; the new view goes
    /// on top and becomes visible.
    pub fn add_view(&mut self, bus: &mut EventBus, view: MainView)
        requires
            old(self).wf(),
            old(bus).wf(),
            view.wf(),
        ensures
            final(self).wf(),
            final(bus).wf(),
            final(bus).spec_next_id() == old(bus).spec_next_id(),
            forall|n: Seq<char>|
                #[trigger] final(bus).has_topic(n) <==> old(bus).has_topic(n),
            ({
                let cut = spec_cut(*old(self), "main_view"@);
                let removed = old(self).spec_entries().skip(cut);
                &&& final(self).spec_entries().len() == cut + 1
                &&& (forall|i: int|
                    0 <= i < cut ==> #[trigger] final(self).spec_entries()[i] == old(
                        self,
                    ).spec_entries()[i])
                &&& final(self).spec_entries()[cut].name@ == "main_view"@
                &&& final(self).spec_entries()[cut].view == view
                &&& final(self).spec_visible() == Some(cut as usize)
                &&& final(bus).subs_of("timer_event"@) == remove_ids_seq(
                    old(bus).subs_of("timer_event"@),
                    timer_ids_rev(removed),
                )
                &&& final(bus).subs_of("button_event"@) == remove_ids_seq(
                    old(bus).subs_of("button_event"@),
                    button_ids_rev(removed),
                )
                &&& (forall|n: Seq<char>|
                    n != "timer_event"@ && n != "button_event"@ ==> #[trigger] final(bus).subs_of(
                        n,
                    ) == old(bus).subs_of(n))
            }),
    {
        let ghost w0 = *self;
        let ghost b0 = *bus;
        let name = view.get_name();
        let cut: usize = match self.find_entry(&name) {
            Some(e) => {
                proof {
                    let ec = choose|i: int|
                        0 <= i < w0.spec_entries().len() && (#[trigger] w0.spec_entries()[i]).name@
                            == "main_view"@;
                    if ec != e as int {
                        assert(w0.spec_entries()[ec].name@ != w0.spec_entries()[e as int].name@);
                    }
                    assert(spec_cut(w0, "main_view"@) == e as int);
                }
                e
            },
            None => {
                match self.visible {
                    Some(v) => {
                        let here_len = self.entries.len();
                        proof {
                            assert(v < here_len);
                            assert(spec_cut(w0, "main_view"@) == v + 1);
                        }
                        v + 1
                    },
                    None => {
                        proof {
                            assert(spec_cut(w0, "main_view"@) == w0.spec_entries().len() as int);
                        }
                        self.entries.len()
                    },
                }
            },
        };
        proof {
            assert(w0.spec_entries().skip(w0.spec_entries().len() as int) =~= Seq::<
                StackEntry,
            >::empty());
            assert(w0.spec_entries().take(w0.spec_entries().len() as int) =~= w0.spec_entries());
        }
        while self.entries.len() > cut
            invariant
                cut <= self.entries@.len(),
                self.entries@.len() <= w0.spec_entries().len(),
                self.entries@ == w0.spec_entries().take(self.entries@.len() as int),
                w0.wf(),
                bus.wf(),
                bus.spec_next_id() == b0.spec_next_id(),
                forall|n: Seq<char>| #[trigger] bus.has_topic(n) <==> b0.has_topic(n),
                bus.subs_of("timer_event"@) == remove_ids_seq(
                    b0.subs_of("timer_event"@),
                    timer_ids_rev(w0.spec_entries().skip(self.entries@.len() as int)),
                ),
                bus.subs_of("button_event"@) == remove_ids_seq(
                    b0.subs_of("button_event"@),
                    button_ids_rev(w0.spec_entries().skip(self.entries@.len() as int)),
                ),
                forall|n: Seq<char>|
                    n != "timer_event"@ && n != "button_event"@ ==> #[trigger] bus.subs_of(n)
                        == b0.subs_of(n),
            decreases self.entries@.len(),
        {
            let ghost len0 = self.entries@.len() as int;
            let entry = match self.entries.pop() {
                Some(entry) => entry,
                None => {
                    proof {
                        assert(false);
                    }
                    unreached()
                },
            };
            proof {
                assert(self.entries@ =~= w0.spec_entries().take(len0 - 1));
                assert(entry == w0.spec_entries()[len0 - 1]);
            }
            entry.view.on_destroy(bus);
            proof {
                reveal_strlit("timer_event");
                reveal_strlit("button_event");
                assert("timer_event"@.len() == 11 && "button_event"@.len() == 12);
                assert("timer_event"@ != "button_event"@);
                let suffix_before = w0.spec_entries().skip(len0);
                let suffix_after = w0.spec_entries().skip(len0 - 1);
                assert(suffix_after.len() > 0);
                assert(suffix_after.first() == w0.spec_entries()[len0 - 1]);
                assert(suffix_after.drop_first() =~= suffix_before);
                lemma_timer_ids_rev_cons(suffix_after);
                lemma_button_ids_rev_cons(suffix_after);
                let t_before = timer_ids_rev(suffix_before);
                let b_before = button_ids_rev(suffix_before);
                match entry.view.timer_event_listener {
                    Some(id) => {
                        assert(timer_ids_rev(suffix_after) =~= t_before.push(id));
                        lemma_remove_ids_seq_snoc(b0.subs_of("timer_event"@), t_before, id);
                    },
                    None => {
                        assert(timer_ids_rev(suffix_after) =~= t_before);
                    },
                }
                match entry.view.button_event_listener {
                    Some(id) => {
                        assert(button_ids_rev(suffix_after) =~= b_before.push(id));
                        lemma_remove_ids_seq_snoc(b0.subs_of("button_event"@), b_before, id);
                    },
                    None => {
                        assert(button_ids_rev(suffix_after) =~= b_before);
                    },
                }
            }
        }
        self.entries.push(StackEntry { name, view });
        self.visible = Some(self.entries.len() - 1);
        proof {
            let cut_i = cut as int;
            let es = final(self).spec_entries();
            assert forall|i: int| 0 <= i < cut_i implies #[trigger] es[i] == w0.spec_entries()[i] by {
                assert(es[i] == w0.spec_entries().take(cut_i)[i]);
            }
            assert(final(self).wf()) by {
                assert forall|i: int, j: int|
                    0 <= i < j < es.len() implies (#[trigger] es[i]).name@ != (
                #[trigger] es[j]).name@ by {
                    if j < cut_i {
                        assert(es[i] == w0.spec_entries()[i] && es[j] == w0.spec_entries()[j]);
                    } else {
                        assert(es[j].name@ == "main_view"@);
                        assert(es[i] == w0.spec_entries()[i]);
                        if exists|k: int|
                            0 <= k < w0.spec_entries().len() && (
                            #[trigger] w0.spec_entries()[k]).name@ == "main_view"@ {
                            let ec = choose|k: int|
                                0 <= k < w0.spec_entries().len() && (
                                #[trigger] w0.spec_entries()[k]).name@ == "main_view"@;
                            assert(cut_i == ec);
                            if es[i].name@ == "main_view"@ {
                                assert(w0.spec_entries()[i].name@ == w0.spec_entries()[ec].name@);
                                assert(false);
                            }
                        } else {
                            if es[i].name@ == "main_view"@ {
                                assert(false);
                            }
                        }
                    }
                }
            }
        }
    }

    /// Switches the visible page: the page that was visible is paused,
    /// then the newly visible page is resumed, so its subscriptions
    /// receive deliveries again from now on — the registry's
    /// pause/resume lifecycle on every switch. Re-selecting the visible
    /// page leaves it delivering.
    pub fn set_visible(&mut self, bus: &mut EventBus, i: usize)
        requires
            old(self).wf(),
            old(bus).wf(),
            i < old(self).spec_entries().len(),
        ensures
            final(self).wf(),
            final(self).spec_entries() == old(self).spec_entries(),
            final(self).spec_visible() == Some(i),
            final(bus).wf(),
            final(bus).spec_next_id() == old(bus).spec_next_id(),
            forall|n: Seq<char>| #[trigger] final(bus).has_topic(n) <==> old(bus).has_topic(n),
            ({
                let paused_t = (match old(self).spec_visible() {
                    Some(p) => opt_set_paused(
                        old(bus).subs_of("timer_event"@),
                        old(self).spec_entries()[p as int].view.timer_event_listener,
                        true,
                    ),
                    None => old(bus).subs_of("timer_event"@),
                });
                let paused_b = (match old(self).spec_visible() {
                    Some(p) => opt_set_paused(
                        old(bus).subs_of("button_event"@),
                        old(self).spec_entries()[p as int].view.button_event_listener,
                        true,
                    ),
                    None => old(bus).subs_of("button_event"@),
                });
                let shown = old(self).spec_entries()[i as int].view;
                &&& final(bus).subs_of("timer_event"@) == opt_set_paused(
                    paused_t,
                    shown.timer_event_listener,
                    false,
                )
                &&& final(bus).subs_of("button_event"@) == opt_set_paused(
                    paused_b,
                    shown.button_event_listener,
                    false,
                )
                &&& (forall|n: Seq<char>|
                    n != "timer_event"@ && n != "button_event"@
                        ==> #[trigger] final(bus).subs_of(n) == old(bus).subs_of(n))
            }),
    {
        match self.visible {
            Some(p) => {
                self.entries[p].view.on_pause(bus);
            },
            None => (),
        }
        self.entries[i].view.on_resume(bus);
        self.visible = Some(i);
    }

    /// Read access to the bottom page's view, for rendering its state.
    pub fn first_view(&self) -> (r: Option<&MainView>)
        ensures
            match r {
                Some(v) => self.spec_entries().len() > 0 && *v == self.spec_entries()[0].view,
                None => self.spec_entries().len() == 0,
            },
    {
        if self.entries.len() > 0 {
            Some(&self.entries[0].view)
        } else {
            None
        }
    }

    /// Delivers one tick to the resident view, when the plan names its
    /// tick subscription.
    pub fn deliver_timer_event(&mut self, at: u64, plan: &Vec<Delivery>) -> (u: Option<TickUpdate>)
        requires
            old(self).wf(),
        ensures
            final(self).wf(),
            spec_deliver_tick(*old(self), *final(self), at, plan@, u),
    {
        if self.entries.len() == 1 {
            let lid = self.entries[0].view.timer_event_listener;
            match lid {
                Some(id) => {
                    if plan_contains(plan, id) {
                        let upd = self.entries[0].view.on_timer_event(at);
                        return Some(upd);
                    }
                },
                None => (),
            }
        }
        None
    }

    /// Delivers one key release to the resident view, when the plan
    /// names its key-release subscription.
    pub fn deliver_button_event(
        &mut self,
        key: u32,
        at: u64,
        s: &Settings,
        m: &SpeedModifiers,
        plan: &Vec<Delivery>,
    ) -> (r: Option<TapEstimate>)
        requires
            old(self).wf(),
            -99 <= m.offset_pct <= 10000,
        ensures
            final(self).wf(),
            spec_deliver_button(*old(self), *final(self), key, at, *s, *m, plan@, r),
    {
        if self.entries.len() == 1 {
            let lid = self.entries[0].view.button_event_listener;
            match lid {
                Some(id) => {
                    if plan_contains(plan, id) {
                        return self.entries[0].view.on_button_event(key, at, s, m);
                    }
                },
                None => (),
            }
        }
        None
    }
}

} // verus!
