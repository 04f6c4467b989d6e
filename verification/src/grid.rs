//! The multi-entity tri-state toggle grid, its bulk presets, and the
//! bulk timer with time-based auto-expiry.
//!
//! Entities are grid indices; every entity always has a state, starting
//! at `TriState::Default`. A pointer click cycles one entity
//! `Default → Off → On → Default`. A bulk preset — data, not code —
//! names the entities it returns to `Default`; applying it sets every
//! other entity to `Off`. While the separate bulk timer runs, elapsed
//! time crossing a first threshold forces one designated entity `Off`,
//! and crossing a second threshold resets the whole grid except two
//! designated entities; stopping the bulk timer before the first
//! threshold drives the grid into a terminal resolved layout instead.

use vstd::prelude::*;

use crate::timers::spec_elapsed;

verus! {

/// While the bulk timer runs, elapsed time crossing this threshold
/// forces the designated expiry entity `Off`.
pub const BULK_FIRST_MS: u64 = 120_000;

/// While the bulk timer runs, elapsed time crossing this threshold
/// resets the grid except the two designated entities.
pub const BULK_SECOND_MS: u64 = 240_000;

/// The state of one grid entity.
#[derive(Clone, Copy, PartialEq, Eq, Structural, Debug)]
pub enum TriState {
    Default,
    On,
    Off,
}

/// One click on an entity cycles its state
/// `Default → Off → On → Default`.
pub open spec fn spec_cycle(s: TriState) -> TriState {
    match s {
        TriState::Default => TriState::Off,
        TriState::Off => TriState::On,
        TriState::On => TriState::Default,
    }
}

/// A bulk preset: the fixed subset of entities it maps to `Default`,
/// keyed by the input event that applies it. Presets are data — each
/// enumerates its own subset.
pub struct Preset {
    /// The key code whose release applies this preset.
    pub key: u32,
    /// The entities this preset returns to `Default`; all others go
    /// `Off`. Indices outside the grid are ignored.
    pub defaults: Vec<usize>,
}

impl Preset {
    /// The entities this preset returns to `Default`.
    pub open spec fn spec_defaults(&self) -> Seq<usize> {
        self.defaults@
    }
}

/// The position of the first preset that `key` applies, or `-1` when no
/// preset is keyed by it.
pub open spec fn spec_find_preset(ps: Seq<Preset>, key: u32) -> int
    decreases ps.len(),
{
    if ps.len() == 0 {
        -1
    } else if ps.first().key == key {
        0
    } else {
        let r = spec_find_preset(ps.drop_first(), key);
        if r == -1 {
            -1
        } else {
            r + 1
        }
    }
}

/// The first match found by a forward scan is the first match of
/// `spec_find_preset`.
pub proof fn lemma_find_preset_at(ps: Seq<Preset>, key: u32, i: int)
    requires
        0 <= i < ps.len(),
        ps[i].key == key,
        forall|j: int| 0 <= j < i ==> (#[trigger] ps[j]).key != key,
    ensures
        spec_find_preset(ps, key) == i,
    decreases i,
{
    if i > 0 {
        assert(ps[0].key != key);
        let rest = ps.drop_first();
        assert(rest[i - 1] == ps[i]);
        assert forall|j: int| 0 <= j < i - 1 implies (#[trigger] rest[j]).key != key by {
            assert(rest[j] == ps[j + 1]);
        }
        lemma_find_preset_at(rest, key, i - 1);
    }
}

/// A scan that matches nowhere means no preset is keyed by `key`.
pub proof fn lemma_find_preset_none(ps: Seq<Preset>, key: u32)
    requires
        forall|j: int| 0 <= j < ps.len() ==> (#[trigger] ps[j]).key != key,
    ensures
        spec_find_preset(ps, key) == -1,
    decreases ps.len(),
{
    if ps.len() > 0 {
        let rest = ps.drop_first();
        assert forall|j: int| 0 <= j < rest.len() implies (#[trigger] rest[j]).key != key by {
            assert(rest[j] == ps[j + 1]);
        }
        lemma_find_preset_none(rest, key);
    }
}

/// Whether a slice of entity indices names `x`.
fn contains_index(v: &Vec<usize>, x: usize) -> (r: bool)
    ensures
        r == v@.contains(x),
{
    let n = v.len();
    let mut i: usize = 0;
    while i < n
        invariant
            n == v@.len(),
            forall|j: int| 0 <= j < i ==> v@[j] != x,
        decreases n - i,
    {
        if v[i] == x {
            return true;
        }
        i = i + 1;
    }
    false
}

/// The toggle grid: one tri-state entry per entity, every entity always
/// present.
pub struct ToggleGrid {
    cells: Vec<TriState>,
}

impl ToggleGrid {
    /// The states of all entities, by index.
    pub closed spec fn spec_cells(&self) -> Seq<TriState> {
        self.cells@
    }

    /// A grid of `n` entities, all `Default`.
    pub fn new(n: usize) -> (g: ToggleGrid)
        ensures
            g.spec_cells().len() == n,
            forall|j: int| 0 <= j < n ==> g.spec_cells()[j] == TriState::Default,
    {
        let mut cells: Vec<TriState> = Vec::new();
        let mut i: usize = 0;
        while i < n
            invariant
                i == cells@.len(),
                i <= n,
                forall|j: int| 0 <= j < i ==> cells@[j] == TriState::Default,
            decreases n - i,
        {
            cells.push(TriState::Default);
            i = i + 1;
        }
        ToggleGrid { cells }
    }

    /// The number of entities.
    pub fn len(&self) -> (n: usize)
        ensures
            n == self.spec_cells().len(),
    {
        self.cells.len()
    }

    /// The state of one entity.
    pub fn get(&self, i: usize) -> (s: TriState)
        requires
            i < self.spec_cells().len(),
        ensures
            s == self.spec_cells()[i as int],
    {
        self.cells[i]
    }

    /// A pointer click on an entity: cycles its state
    /// `Default → Off → On → Default`. A click outside the grid is a
    /// no-op, not an error.
    pub fn click(&mut self, i: usize)
        ensures
            final(self).spec_cells() == if i < old(self).spec_cells().len() {
                old(self).spec_cells().update(i as int, spec_cycle(old(self).spec_cells()[i as int]))
            } else {
                old(self).spec_cells()
            },
    {
        if i < self.cells.len() {
            let s = self.cells[i];
            self.cells[i] = match s {
                TriState::Default => TriState::Off,
                TriState::Off => TriState::On,
                TriState::On => TriState::Default,
            };
        }
    }

    /// Applies a bulk preset: the preset's entities return to `Default`,
    /// every other entity goes `Off`.
    pub fn apply_preset(&mut self, preset: &Preset)
        ensures
            final(self).spec_cells().len() == old(self).spec_cells().len(),
            forall|j: int|
                0 <= j < final(self).spec_cells().len() ==> final(self).spec_cells()[j] == (
                if preset.spec_defaults().contains(j as usize) {
                    TriState::Default
                } else {
                    TriState::Off
                }),
    {
        let n = self.cells.len();
        let mut i: usize = 0;
        while i < n
            invariant
                n == self.cells@.len(),
                i <= n,
                forall|j: int|
                    0 <= j < i ==> self.cells@[j] == (if preset.spec_defaults().contains(
                        j as usize,
                    ) {
                        TriState::Default
                    } else {
                        TriState::Off
                    }),
            decreases n - i,
        {
            if contains_index(&preset.defaults, i) {
                self.cells[i] = TriState::Default;
            } else {
                self.cells[i] = TriState::Off;
            }
            i = i + 1;
        }
    }

    /// Returns every entity to `Default`.
    pub fn reset_all(&mut self)
        ensures
            final(self).spec_cells().len() == old(self).spec_cells().len(),
            forall|j: int|
                0 <= j < final(self).spec_cells().len() ==> final(self).spec_cells()[j]
                    == TriState::Default,
    {
        let n = self.cells.len();
        let mut i: usize = 0;
        while i < n
            invariant
                n == self.cells@.len(),
                i <= n,
                forall|j: int| 0 <= j < i ==> self.cells@[j] == TriState::Default,
            decreases n - i,
        {
            self.cells[i] = TriState::Default;
            i = i + 1;
        }
    }

    /// The terminal resolved layout: one designated entity `On`, the
    /// rest `Off`.
    fn set_resolved(&mut self, idx: usize)
        ensures
            final(self).spec_cells().len() == old(self).spec_cells().len(),
            forall|j: int|
                0 <= j < final(self).spec_cells().len() ==> final(self).spec_cells()[j] == (if j
                    == idx as int {
                    TriState::On
                } else {
                    TriState::Off
                }),
    {
        let n = self.cells.len();
        let mut i: usize = 0;
        while i < n
            invariant
                n == self.cells@.len(),
                i <= n,
                forall|j: int|
                    0 <= j < i ==> self.cells@[j] == (if j == idx as int {
                        TriState::On
                    } else {
                        TriState::Off
                    }),
            decreases n - i,
        {
            if i == idx {
                self.cells[i] = TriState::On;
            } else {
                self.cells[i] = TriState::Off;
            }
            i = i + 1;
        }
    }

    /// The second-threshold layout: the two designated entities return
    /// to `Default`, all remaining entities go `Off`.
    fn set_second(&mut self, a: usize, b: usize)
        ensures
            final(self).spec_cells().len() == old(self).spec_cells().len(),
            forall|j: int|
                0 <= j < final(self).spec_cells().len() ==> final(self).spec_cells()[j] == (if j
                    == a as int || j == b as int {
                    TriState::Default
                } else {
                    TriState::Off
                }),
    {
        let n = self.cells.len();
        let mut i: usize = 0;
        while i < n
            invariant
                n == self.cells@.len(),
                i <= n,
                forall|j: int|
                    0 <= j < i ==> self.cells@[j] == (if j == a as int || j == b as int {
                        TriState::Default
                    } else {
                        TriState::Off
                    }),
            decreases n - i,
        {
            if i == a || i == b {
                self.cells[i] = TriState::Default;
            } else {
                self.cells[i] = TriState::Off;
            }
            i = i + 1;
        }
    }
}

/// The designated entities of the bulk timer's rules. Configuration, not
/// state; every index lies inside the grid the timer drives.
#[derive(Clone, Copy, PartialEq, Eq, Structural, Debug)]
pub struct BulkConfig {
    /// Forced `Off` once the first threshold is crossed.
    pub expiry_entity: usize,
    /// Returned to `Default` at the second threshold.
    pub keep_a: usize,
    /// Returned to `Default` at the second threshold.
    pub keep_b: usize,
    /// Set `On` by the terminal resolved layout.
    pub resolved_entity: usize,
}

impl BulkConfig {
    /// Every designated entity lies inside a grid of `n` entities.
    pub open spec fn fits(&self, n: int) -> bool {
        self.expiry_entity < n && self.keep_a < n && self.keep_b < n && self.resolved_entity < n
    }
}

/// The bulk timer: while it runs, elapsed time drives the grid's
/// auto-expiry rules.
pub struct BulkTimer {
    running: bool,
    anchor: u64,
}

impl BulkTimer {
    /// Whether the bulk timer is running.
    pub closed spec fn is_running(&self) -> bool {
        self.running
    }

    /// The timestamp recorded when the bulk timer started.
    pub closed spec fn spec_anchor(&self) -> u64 {
        self.anchor
    }

    /// A new, stopped bulk timer.
    pub fn new() -> (t: BulkTimer)
        ensures
            !t.is_running(),
            t.spec_anchor() == 0,
    {
        BulkTimer { running: false, anchor: 0 }
    }

    /// Starts the bulk timer; on a running timer the event is ignored.
    pub fn start(&mut self, now: u64)
        ensures
            final(self).is_running(),
            final(self).spec_anchor() == if old(self).is_running() {
                old(self).spec_anchor()
            } else {
                now
            },
    {
        if !self.running {
            self.anchor = now;
            self.running = true;
        }
    }

    /// Stops the bulk timer without touching the grid: the complete
    /// reset's path.
    pub fn reset(&mut self)
        ensures
            !final(self).is_running(),
            final(self).spec_anchor() == old(self).spec_anchor(),
    {
        self.running = false;
    }

    /// Stops the bulk timer. Stopped before the first threshold, it
    /// drives the grid into the terminal resolved layout; stopped later,
    /// it leaves the grid as the thresholds left it. Stopping a stopped
    /// timer is a no-op.
    pub fn stop(&mut self, now: u64, grid: &mut ToggleGrid, cfg: &BulkConfig)
        requires
            cfg.fits(old(grid).spec_cells().len() as int),
        ensures
            !final(self).is_running(),
            final(self).spec_anchor() == old(self).spec_anchor(),
            final(grid).spec_cells().len() == old(grid).spec_cells().len(),
            ({
                let resolved = old(self).is_running() && spec_elapsed(
                    old(self).spec_anchor(),
                    now,
                ) < BULK_FIRST_MS;
                if resolved {
                    forall|j: int|
                        0 <= j < final(grid).spec_cells().len() ==> final(grid).spec_cells()[j]
                            == (if j == cfg.resolved_entity as int {
                            TriState::On
                        } else {
                            TriState::Off
                        })
                } else {
                    final(grid).spec_cells() == old(grid).spec_cells()
                }
            }),
    {
        if self.running {
            self.running = false;
            let elapsed = if now >= self.anchor {
                now - self.anchor
            } else {
                0
            };
            if elapsed < BULK_FIRST_MS {
                grid.set_resolved(cfg.resolved_entity);
            }
        }
    }

    /// A tick while the bulk timer runs: crossing the second threshold
    /// resets the grid except the two designated entities and expires
    /// the timer; crossing only the first forces the designated expiry
    /// entity `Off`; below the first threshold nothing changes. Ticks on
    /// a stopped timer change nothing.
    pub fn on_tick(&mut self, now: u64, grid: &mut ToggleGrid, cfg: &BulkConfig)
        requires
            cfg.fits(old(grid).spec_cells().len() as int),
        ensures
            final(self).spec_anchor() == old(self).spec_anchor(),
            final(grid).spec_cells().len() == old(grid).spec_cells().len(),
            ({
                let elapsed = spec_elapsed(old(self).spec_anchor(), now);
                if !old(self).is_running() {
                    final(grid).spec_cells() == old(grid).spec_cells() && !final(self).is_running()
                } else if elapsed >= BULK_SECOND_MS {
                    !final(self).is_running() && forall|j: int|
                        0 <= j < final(grid).spec_cells().len() ==> final(grid).spec_cells()[j]
                            == (if j == cfg.keep_a as int || j == cfg.keep_b as int {
                            TriState::Default
                        } else {
                            TriState::Off
                        })
                } else if elapsed >= BULK_FIRST_MS {
                    final(self).is_running() && final(grid).spec_cells() == old(
                        grid,
                    ).spec_cells().update(cfg.expiry_entity as int, TriState::Off)
                } else {
                    final(self).is_running() && final(grid).spec_cells() == old(grid).spec_cells()
                }
            }),
    {
        if !self.running {
            return ;
        }
        let elapsed = if now >= self.anchor {
            now - self.anchor
        } else {
            0
        };
        if elapsed >= BULK_SECOND_MS {
            self.running = false;
            grid.set_second(cfg.keep_a, cfg.keep_b);
        } else if elapsed >= BULK_FIRST_MS {
            let ghost cells0 = grid.spec_cells();
            grid.cells[cfg.expiry_entity] = TriState::Off;
            proof {
                assert(grid.spec_cells() =~= cells0.update(
                    cfg.expiry_entity as int,
                    TriState::Off,
                ));
            }
        }
    }
}

} // verus!
