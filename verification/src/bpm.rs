//! Tap-tempo estimation.
//!
//! A bounded sliding window of tap timestamps is turned into a
//! beats-per-minute estimate and a derived speed multiplier. All math is
//! exact integer arithmetic over millisecond timestamps; quantities that
//! carry two decimals (instantaneous BPM per interval, the speed
//! multiplier) are represented in hundredths, which loses nothing since
//! every published value is rounded to two decimals anyway.
//!
//! The average deliberately divides by the constant window size of 5 even
//! when fewer intervals contributed, so with a short window the result
//! under-represents the true average. That quirk is part of the behaviour
//! this module promises; do not "fix" it.

use vstd::prelude::*;

verus! {

/// The average always divides by this constant, regardless of how many
/// intervals actually contributed.
pub const BPM_PRECISION: usize = 5;

/// A gap between taps above this many milliseconds starts a fresh
/// sequence.
pub const RESET_GAP_MS: u64 = 5000;

/// The tap window holds fewer than this many taps; the oldest is evicted
/// when the bound is reached.
pub const MAX_TAPS: usize = 24;

/// Externally supplied modifiers for the speed conversion: configuration,
/// not tap state.
#[derive(Clone, Copy, PartialEq, Eq, Structural, Debug)]
pub struct SpeedModifiers {
    /// Percentage offset applied to the BPM before conversion.
    pub offset_pct: i32,
    /// Environment modifier: scales the conversion by 1.15.
    pub blood_moon: bool,
    /// Environment modifier: scales the conversion by 1.05.
    pub forest_minion: bool,
    /// Environment modifier: scales the conversion by 1.15, like
    /// `blood_moon`.
    pub coal: bool,
}

/// One published estimate: the BPM rounded to a whole number for display,
/// and the speed multiplier in hundredths (`123` reads 1.23), clamped to
/// `[0.01, 5.00]`.
#[derive(Clone, Copy, PartialEq, Eq, Structural, Debug)]
pub struct TapEstimate {
    pub bpm: u32,
    pub speed_centi: u32,
}

/// `round(n / d)` for positive `d`, rounding half up.
pub open spec fn round_div(n: int, d: int) -> int
    recommends
        d > 0,
{
    (2 * n + d) / (2 * d)
}

/// The instantaneous BPM of one inter-tap interval of `dt` milliseconds,
/// in hundredths: `round2(60 / dt_seconds)` scaled by 100.
pub open spec fn interval_centibpm(dt: int) -> int
    recommends
        dt > 0,
{
    round_div(6_000_000, dt)
}

/// The instantaneous BPM values of the consecutive inter-tap intervals,
/// in hundredths; intervals with a zero time-delta are skipped, never
/// divided by.
pub open spec fn intervals_centibpm(taps: Seq<u64>) -> Seq<int>
    decreases taps.len(),
{
    if taps.len() < 2 {
        Seq::empty()
    } else {
        let dt = taps.last() - taps[taps.len() - 2];
        intervals_centibpm(taps.drop_last()) + if dt > 0 {
            seq![interval_centibpm(dt)]
        } else {
            Seq::empty()
        }
    }
}

/// The sum of a sequence of integers.
pub open spec fn seq_sum(s: Seq<int>) -> int
    decreases s.len(),
{
    if s.len() == 0 {
        0
    } else {
        seq_sum(s.drop_last()) + s.last()
    }
}

/// The sum of the most recent intervals, stopping after at most
/// `BPM_PRECISION` contributions. The average is this sum divided by the
/// constant 5, so it is carried here as a numerator in hundredths-of-BPM
/// times five-hundredths: `recent_sum / 500` is the averaged BPM.
pub open spec fn recent_sum(s: Seq<int>) -> int {
    seq_sum(
        s.subrange(
            if s.len() <= BPM_PRECISION {
                0
            } else {
                s.len() - BPM_PRECISION
            },
            s.len() as int,
        ),
    )
}

/// The averaged BPM numerator of a tap window, clamped so the average
/// stays within `[0, 600]` BPM (`300000 / 500 == 600`).
pub open spec fn clamped_average_numer(taps: Seq<u64>) -> int {
    let a = recent_sum(intervals_centibpm(taps));
    if a > 300_000 {
        300_000
    } else if a < 0 {
        0
    } else {
        a
    }
}

/// The BPM as displayed: the clamped average rounded to the nearest whole
/// number.
pub open spec fn spec_display_bpm(taps: Seq<u64>) -> int {
    (clamped_average_numer(taps) + 250) / 500
}

/// The environment factor of the speed conversion, scaled by 10000:
/// `(blood_moon || coal ? 1.15 : 1.0) * (forest_minion ? 1.05 : 1.0)`.
pub open spec fn em_factor(blood_moon: bool, forest_minion: bool, coal: bool) -> int {
    (if blood_moon || coal {
        115int
    } else {
        100int
    }) * (if forest_minion {
        105int
    } else {
        100int
    })
}

/// The speed multiplier in hundredths for a tap window under the given
/// modifiers: with `b` the averaged BPM adjusted by the percentage offset
/// (`b = avg / (1 + offset/100)`) and `e` the environment factor, this is
/// `round2(b / (e * (60 + b * 0.075)))` scaled by 100 and clamped to
/// `[0.01, 5.00]`.
pub open spec fn spec_speed_centi(taps: Seq<u64>, m: SpeedModifiers) -> int {
    let a = clamped_average_numer(taps);
    let d = 5 * (100 + m.offset_pct);
    let e = em_factor(m.blood_moon, m.forest_minion, m.coal);
    let raw = round_div(40_000_000 * a, e * (2400 * d + 3 * a));
    if raw < 1 {
        1
    } else if raw > 500 {
        500
    } else {
        raw
    }
}

/// A tap's effective timestamp: timestamps come from a monotonic clock,
/// so one reading earlier than the last recorded tap is treated as
/// simultaneous with it.
pub open spec fn eff_now(taps: Seq<u64>, now: u64) -> u64 {
    if taps.len() > 0 && now < taps.last() {
        taps.last()
    } else {
        now
    }
}

/// Whether a tap at `now` starts a fresh sequence: the gap since the last
/// recorded tap exceeds the idle timeout.
pub open spec fn tap_reset(taps: Seq<u64>, now: u64) -> bool {
    taps.len() > 0 && now > taps.last() + RESET_GAP_MS
}

/// The tap window after recording a tap at `now`: cleared first on an
/// idle-timeout gap, the new timestamp appended, and the oldest entry
/// evicted once the window would reach its bound.
pub open spec fn taps_after_tap(taps: Seq<u64>, now: u64) -> Seq<u64> {
    let base = if tap_reset(taps, now) {
        Seq::empty()
    } else {
        taps
    };
    let pushed = base.push(now);
    if pushed.len() >= MAX_TAPS {
        pushed.drop_first()
    } else {
        pushed
    }
}

/// The window-start marker after recording a tap at `now`: set to the tap
/// that makes the window exactly five long since the last reset, cleared
/// by an idle-timeout gap, kept otherwise. Callers use it only as a
/// display anchor.
pub open spec fn start_after_tap(taps: Seq<u64>, start: Option<u64>, now: u64) -> Option<u64> {
    let base = if tap_reset(taps, now) {
        Seq::empty()
    } else {
        taps
    };
    if base.len() + 1 == 5 {
        Some(now)
    } else if tap_reset(taps, now) {
        None
    } else {
        start
    }
}

/// The bounded sliding window of tap timestamps, oldest first, with the
/// window-start marker.
pub struct TapState {
    taps: Vec<u64>,
    start_ts: Option<u64>,
}

impl TapState {
    /// The recorded taps, oldest first.
    pub closed spec fn spec_taps(&self) -> Seq<u64> {
        self.taps@
    }

    /// The window-start marker.
    pub closed spec fn spec_start(&self) -> Option<u64> {
        self.start_ts
    }

    /// Window invariant: below the bound, timestamps non-decreasing, and
    /// no recorded gap above the idle timeout (a larger gap would have
    /// reset the window).
    pub closed spec fn wf(&self) -> bool {
        &&& self.taps@.len() < MAX_TAPS
        &&& forall|i: int|
            0 <= i < self.taps@.len() - 1 ==> #[trigger] self.taps@[i] <= self.taps@[i + 1]
                && self.taps@[i + 1] - self.taps@[i] <= RESET_GAP_MS
    }

    /// An empty window: no taps recorded, no start marker.
    pub fn new() -> (s: TapState)
        ensures
            s.wf(),
            s.spec_taps() == Seq::<u64>::empty(),
            s.spec_start() is None,
    {
        TapState { taps: Vec::new(), start_ts: None }
    }

    /// The window-start marker, for callers that anchor a display on
    /// it.
    pub fn start_marker(&self) -> (r: Option<u64>)
        ensures
            r == self.spec_start(),
    {
        self.start_ts
    }

    /// Clears all recorded taps and the start marker.
    pub fn reset(&mut self)
        ensures
            final(self).wf(),
            final(self).spec_taps() == Seq::<u64>::empty(),
            final(self).spec_start() is None,
    {
        self.taps.clear();
        self.start_ts = None;
    }

    /// Records a tap at `now` and computes the current estimate, if one
    /// exists.
    ///
    /// The window is cleared first when the gap since the last tap exceeds
    /// the idle timeout, the tap is appended, the start marker updated,
    /// and the oldest tap evicted at the window bound. An estimate is
    /// produced exactly when at least two positive inter-tap intervals
    /// remain in the window; it carries the displayed BPM and the speed
    /// multiplier in hundredths.
    ///
    /// Timestamps come from a monotonic clock; should one read earlier
    /// than the last recorded tap, it is treated as simultaneous with
    /// it.
    pub fn tap_and_compute(&mut self, now: u64, m: &SpeedModifiers) -> (r: Option<TapEstimate>)
        requires
            old(self).wf(),
            -99 <= m.offset_pct <= 10000,
        ensures
            final(self).wf(),
            final(self).spec_taps() == taps_after_tap(
                old(self).spec_taps(),
                eff_now(old(self).spec_taps(), now),
            ),
            final(self).spec_start() == start_after_tap(
                old(self).spec_taps(),
                old(self).spec_start(),
                eff_now(old(self).spec_taps(), now),
            ),
            match r {
                None => intervals_centibpm(final(self).spec_taps()).len() < 2,
                Some(e) => intervals_centibpm(final(self).spec_taps()).len() >= 2 && e.bpm as int
                    == spec_display_bpm(final(self).spec_taps()) && e.speed_centi as int
                    == spec_speed_centi(final(self).spec_taps(), *m),
            },
    {
        let ghost taps0 = self.taps@;
        let ghost start0 = self.start_ts;
        let ghost now0 = now;

        let now = if self.taps.len() > 0 {
            let last = self.taps[self.taps.len() - 1];
            if now < last {
                last
            } else {
                now
            }
        } else {
            now
        };
        assert(now == eff_now(taps0, now0));

        if self.taps.len() > 0 {
            let last = self.taps[self.taps.len() - 1];
            if now - last > RESET_GAP_MS {
                self.taps.clear();
                self.start_ts = None;
            }
        }

        self.taps.push(now);

        if self.taps.len() == 5 {
            self.start_ts = Some(now);
        }

        if self.taps.len() >= MAX_TAPS {
            self.taps.remove(0);
            proof {
                assert(taps0.push(now).drop_first() =~= self.taps@);
            }
        }

        proof {
            assert(final(self).spec_taps() == taps_after_tap(taps0, now)) by {
                if tap_reset(taps0, now) {
                    assert(Seq::<u64>::empty().push(now) =~= self.taps@);
                }
            }
        }
        assert(self.taps@ == taps_after_tap(taps0, now));
        assert(self.start_ts == start_after_tap(taps0, start0, now));
        assert(self.wf()) by {
            if !tap_reset(taps0, now) && taps0.len() + 1 < MAX_TAPS {
                assert forall|i: int|
                    0 <= i < self.taps@.len() - 1 implies #[trigger] self.taps@[i] <= self.taps@[i
                    + 1] && self.taps@[i + 1] - self.taps@[i] <= RESET_GAP_MS by {
                    if i < taps0.len() - 1 {
                        assert(self.taps@[i] == taps0[i] && self.taps@[i + 1] == taps0[i + 1]);
                    }
                }
            } else if !tap_reset(taps0, now) {
                let pushed = taps0.push(now);
                assert forall|i: int|
                    0 <= i < self.taps@.len() - 1 implies #[trigger] self.taps@[i] <= self.taps@[i
                    + 1] && self.taps@[i + 1] - self.taps@[i] <= RESET_GAP_MS by {
                    assert(self.taps@[i] == pushed[i + 1] && self.taps@[i + 1] == pushed[i + 2]);
                }
            }
        }

        let ghost taps = self.taps@;
        let n = self.taps.len();
        let mut ivs: Vec<u64> = Vec::new();
        let mut i: usize = 1;
        proof {
            assert(taps.take(1).len() < 2);
        }
        while i < n
            invariant
                1 <= i <= n || n == 0,
                n == taps.len(),
                taps == self.taps@,
                self.wf(),
                ivs@.len() == intervals_centibpm(taps.take(i as int)).len(),
                forall|j: int|
                    0 <= j < ivs@.len() ==> ivs@[j] as int == intervals_centibpm(
                        taps.take(i as int),
                    )[j],
                forall|j: int| 0 <= j < ivs@.len() ==> #[trigger] ivs@[j] <= 12_005_000,
            decreases n - i,
        {
            let prev = self.taps[i - 1];
            let cur = self.taps[i];
            proof {
                assert(taps[i - 1] <= taps[i as int] && taps[i as int] - taps[i - 1]
                    <= RESET_GAP_MS);
            }
            let dt = cur - prev;
            if dt > 0 {
                let icb = (12_000_000 + dt) / (2 * dt);
                proof {
                    assert((12_000_000 + dt) / (2 * dt) <= 12_005_000) by (nonlinear_arith)
                        requires
                            1 <= dt <= 5000,
                    ;
                }
                ivs.push(icb);
            }
            proof {
                let t1 = taps.take(i + 1);
                assert(t1.drop_last() =~= taps.take(i as int));
                assert(t1.last() == taps[i as int] && t1[t1.len() - 2] == taps[i - 1]);
            }
            i = i + 1;
        }
        proof {
            assert(taps.take(n as int) =~= taps);
        }

        if ivs.len() < 2 {
            return None;
        }

        Some(Self::finish_estimate(&ivs, Ghost(taps), m))
    }

    /// Sums the most recent intervals (at most `BPM_PRECISION` of them).
    fn sum_recent(ivs: &Vec<u64>, Ghost(sivs): Ghost<Seq<int>>) -> (sum: u64)
        requires
            ivs@.len() == sivs.len(),
            forall|k: int| 0 <= k < ivs@.len() ==> ivs@[k] as int == sivs[k],
            forall|k: int| 0 <= k < ivs@.len() ==> #[trigger] ivs@[k] <= 12_005_000,
        ensures
            sum == recent_sum(sivs),
            sum <= 5 * 12_005_000,
    {
        let m_len = ivs.len();
        let from: usize = if m_len > BPM_PRECISION {
            m_len - BPM_PRECISION
        } else {
            0
        };
        let mut sum: u64 = 0;
        let mut j: usize = from;
        proof {
            assert(sivs.subrange(from as int, from as int) =~= Seq::<int>::empty());
        }
        while j < m_len
            invariant
                from <= j <= m_len,
                m_len == ivs@.len(),
                m_len - from <= BPM_PRECISION,
                ivs@.len() == sivs.len(),
                forall|k: int| 0 <= k < ivs@.len() ==> ivs@[k] as int == sivs[k],
                forall|k: int| 0 <= k < ivs@.len() ==> #[trigger] ivs@[k] <= 12_005_000,
                sum == seq_sum(sivs.subrange(from as int, j as int)),
                sum <= (j - from) * 12_005_000,
            decreases m_len - j,
        {
            sum = sum + ivs[j];
            proof {
                let s1 = sivs.subrange(from as int, j + 1);
                assert(s1.drop_last() =~= sivs.subrange(from as int, j as int));
                assert(s1.last() == sivs[j as int]);
            }
            j = j + 1;
        }
        proof {
            if sivs.len() <= BPM_PRECISION {
                assert(from == 0);
            }
            assert(sivs.subrange(from as int, m_len as int) == sivs.subrange(
                if sivs.len() <= BPM_PRECISION {
                    0
                } else {
                    sivs.len() - BPM_PRECISION
                },
                sivs.len() as int,
            ));
        }
        sum
    }

    /// The speed multiplier in hundredths for a clamped average numerator.
    fn speed_from(a: u64, m: &SpeedModifiers) -> (speed_centi: u32)
        requires
            a <= 300_000,
            -99 <= m.offset_pct <= 10000,
        ensures
            speed_centi as int == ({
                let d = 5 * (100 + m.offset_pct);
                let e = em_factor(m.blood_moon, m.forest_minion, m.coal);
                let raw = round_div(40_000_000 * a, e * (2400 * d + 3 * a));
                if raw < 1 {
                    1int
                } else if raw > 500 {
                    500int
                } else {
                    raw
                }
            }),
    {
        let d: u64 = (5 * (100 + m.offset_pct)) as u64;
        assert(d as int == 5 * (100 + m.offset_pct));
        let e: u64 = (if m.blood_moon || m.coal {
            115u64
        } else {
            100u64
        }) * (if m.forest_minion {
            105u64
        } else {
            100u64
        });
        assert(e as int == em_factor(m.blood_moon, m.forest_minion, m.coal));
        proof {
            assert(e * (2400 * d + 3 * a) <= 12075 * (2400 * 50500 + 3 * 300_000))
                by (nonlinear_arith)
                requires
                    e <= 12075,
                    d <= 50500,
                    a <= 300_000,
            ;
            assert(e * (2400 * d + 3 * a) >= 1 * (2400 * 5 + 3 * 0)) by (nonlinear_arith)
                requires
                    e >= 1,
                    d >= 5,
                    a >= 0,
            ;
        }
        let den: u64 = e * (2400 * d + 3 * a);
        let num: u64 = 40_000_000 * a;
        let raw: u64 = (2 * num + den) / (2 * den);
        proof {
            assert((2 * num + den) / (2 * den) == round_div(40_000_000 * (a as int), den as int));
        }
        if raw < 1 {
            1
        } else if raw > 500 {
            500
        } else {
            raw as u32
        }
    }

    /// Clamps the average, rounds the displayed BPM and converts the
    /// speed, once at least two intervals exist.
    fn finish_estimate(ivs: &Vec<u64>, Ghost(taps): Ghost<Seq<u64>>, m: &SpeedModifiers) -> (e:
        TapEstimate)
        requires
            ivs@.len() == intervals_centibpm(taps).len(),
            forall|k: int| 0 <= k < ivs@.len() ==> ivs@[k] as int == intervals_centibpm(taps)[k],
            forall|k: int| 0 <= k < ivs@.len() ==> #[trigger] ivs@[k] <= 12_005_000,
            -99 <= m.offset_pct <= 10000,
        ensures
            e.bpm as int == spec_display_bpm(taps),
            e.speed_centi as int == spec_speed_centi(taps, *m),
    {
        let sum = Self::sum_recent(ivs, Ghost(intervals_centibpm(taps)));
        let a: u64 = if sum > 300_000 {
            300_000
        } else {
            sum
        };
        assert(a as int == clamped_average_numer(taps));
        let bpm: u32 = ((a + 250) / 500) as u32;
        assert(bpm as int == spec_display_bpm(taps));
        let speed_centi = Self::speed_from(a, m);
        assert(speed_centi as int == spec_speed_centi(taps, *m));
        TapEstimate { bpm, speed_centi }
    }
}

/// The window after recording each of `times` in turn, oldest first.
pub open spec fn tap_fold(taps: Seq<u64>, times: Seq<u64>) -> Seq<u64>
    decreases times.len(),
{
    if times.len() == 0 {
        taps
    } else {
        tap_fold(taps_after_tap(taps, times.first()), times.drop_first())
    }
}

/// `n` taps at a perfectly steady interval of `delta` milliseconds,
/// starting at `t0`.
pub open spec fn steady_taps(t0: u64, delta: u64, n: nat) -> Seq<u64> {
    Seq::new(n, |i: int| (t0 + i * delta) as u64)
}

/// The intervals of a steady window are all the same: each inter-tap
/// interval reads `delta`, so each instantaneous BPM is
/// `round2(60 / delta_seconds)`.
pub proof fn lemma_steady_intervals(t0: u64, delta: u64, n: nat)
    requires
        0 < delta <= RESET_GAP_MS,
        t0 + n * delta <= u64::MAX,
    ensures
        intervals_centibpm(steady_taps(t0, delta, n)) =~= Seq::new(
            if n < 2 {
                0
            } else {
                (n - 1) as nat
            },
            |i: int| interval_centibpm(delta as int),
        ),
    decreases n,
{
    let s = steady_taps(t0, delta, n);
    if n < 2 {
        assert(intervals_centibpm(s) =~= Seq::<int>::empty());
    } else {
        assert(t0 + (n - 1) * delta <= u64::MAX && t0 + (n - 2) * delta <= u64::MAX && t0 + (n - 2)
            * delta + delta == t0 + (n - 1) * delta && t0 + (n - 2) * delta >= t0)
            by (nonlinear_arith)
            requires
                t0 + n * delta <= u64::MAX,
                n >= 2,
                delta > 0,
        ;
        lemma_steady_intervals(t0, delta, (n - 1) as nat);
        assert(s.drop_last() =~= steady_taps(t0, delta, (n - 1) as nat));
        assert(s.last() == (t0 + (n - 1) * delta) as u64);
        assert(s[s.len() - 2] == (t0 + (n - 2) * delta) as u64);
        assert(s.last() - s[s.len() - 2] == delta);
    }
}

/// The sum of a constant sequence.
pub proof fn lemma_sum_const(c: int, k: nat)
    ensures
        seq_sum(Seq::new(k, |i: int| c)) == k * c,
    decreases k,
{
    let s = Seq::new(k, |i: int| c);
    if k > 0 {
        lemma_sum_const(c, (k - 1) as nat);
        assert(s.drop_last() =~= Seq::new((k - 1) as nat, |i: int| c));
        assert(s.last() == c);
        assert(seq_sum(s) == seq_sum(s.drop_last()) + c);
        assert(seq_sum(s.drop_last()) == (k - 1) * c);
        assert((k - 1) * c + c == k * c) by (nonlinear_arith);
    } else {
        assert(s =~= Seq::<int>::empty());
        assert(k * c == 0) by (nonlinear_arith)
            requires
                k == 0,
        ;
    }
}

/// Law: tapping at a perfectly steady interval of `delta` milliseconds
/// for six taps yields an averaged BPM equal to the per-interval value —
/// five intervals of `round2(60 / delta_seconds)` each, summed and
/// divided by the constant five. The average numerator is five times one
/// interval, so `recent_sum / 500`, the averaged BPM, equals
/// `interval_centibpm(delta) / 100`.
pub proof fn lemma_steady_taps_average(t0: u64, delta: u64)
    requires
        0 < delta <= RESET_GAP_MS,
        t0 + 6 * delta <= u64::MAX,
    ensures
        recent_sum(intervals_centibpm(steady_taps(t0, delta, 6))) == 5 * interval_centibpm(
            delta as int,
        ),
{
    lemma_steady_intervals(t0, delta, 6);
    let c = interval_centibpm(delta as int);
    let ivs = intervals_centibpm(steady_taps(t0, delta, 6));
    assert(ivs =~= Seq::new(5, |i: int| c));
    assert(ivs.subrange(0, 5) =~= ivs);
    lemma_sum_const(c, 5);
}

/// Law: tapping six times at a steady interval, starting from an empty
/// window, builds exactly the steady window — no idle-timeout reset fires
/// and the bound is never reached.
pub proof fn lemma_steady_tapping_builds_window(t0: u64, delta: u64)
    requires
        0 < delta <= RESET_GAP_MS,
        t0 + 6 * delta <= u64::MAX,
    ensures
        tap_fold(Seq::<u64>::empty(), steady_taps(t0, delta, 6)) == steady_taps(t0, delta, 6),
{
    lemma_steady_fold_from(t0, delta, 0);
    assert(steady_taps(t0, delta, 0) =~= Seq::<u64>::empty());
    assert(steady_taps(t0, delta, 6).skip(0) =~= steady_taps(t0, delta, 6));
}

/// Helper for `lemma_steady_tapping_builds_window`: folding the remaining
/// steady taps over the first `j` completes the window.
proof fn lemma_steady_fold_from(t0: u64, delta: u64, j: nat)
    requires
        0 < delta <= RESET_GAP_MS,
        t0 + 6 * delta <= u64::MAX,
        j <= 6,
    ensures
        tap_fold(steady_taps(t0, delta, j), steady_taps(t0, delta, 6).skip(j as int))
            == steady_taps(t0, delta, 6),
    decreases 6 - j,
{
    let full = steady_taps(t0, delta, 6);
    let cur = steady_taps(t0, delta, j);
    let rest = full.skip(j as int);
    if j == 6 {
        assert(rest.len() == 0);
        assert(cur =~= full);
    } else {
        assert(t0 + j * delta <= u64::MAX) by (nonlinear_arith)
            requires
                t0 + 6 * delta <= u64::MAX,
                j <= 6,
                delta > 0,
        ;
        let now = (t0 + j * delta) as u64;
        assert(rest.first() == full[j as int] == now);
        assert(!tap_reset(cur, now)) by {
            if cur.len() > 0 {
                assert(cur.last() == (t0 + (j - 1) * delta) as u64);
                assert(t0 + (j - 1) * delta + delta == t0 + j * delta && t0 + (j - 1) * delta
                    >= t0) by (nonlinear_arith)
                    requires
                        j >= 1,
                        delta > 0,
                ;
                assert(now - cur.last() == delta);
            }
        }
        assert(taps_after_tap(cur, now) =~= steady_taps(t0, delta, j + 1));
        lemma_steady_fold_from(t0, delta, j + 1);
        assert(rest.drop_first() =~= full.skip(j as int + 1));
    }
}

/// Law: two taps separated by more than the idle timeout behave as if the
/// second tap started a fresh sequence — the window holds only the new
/// tap, and that window yields no intervals, hence no estimate.
pub proof fn lemma_gap_starts_fresh_sequence(taps: Seq<u64>, now: u64)
    requires
        taps.len() > 0,
        now > taps.last() + RESET_GAP_MS,
    ensures
        taps_after_tap(taps, now) =~= seq![now],
        intervals_centibpm(taps_after_tap(taps, now)).len() == 0,
{
    assert(tap_reset(taps, now));
    assert(Seq::<u64>::empty().push(now) =~= seq![now]);
    assert(taps_after_tap(taps, now) =~= seq![now]);
}

/// Law: no estimate exists until at least three taps have accumulated —
/// fewer taps leave fewer than two intervals.
pub proof fn lemma_too_few_taps_no_estimate(taps: Seq<u64>)
    requires
        taps.len() < 3,
    ensures
        intervals_centibpm(taps).len() < 2,
{
    if taps.len() == 2 {
        assert(intervals_centibpm(taps.drop_last()).len() == 0);
    }
}

/// Three taps at strictly increasing times yield exactly two intervals,
/// so an estimate is produced.
pub proof fn lemma_three_taps_give_estimate(t1: u64, t2: u64, t3: u64)
    requires
        t1 < t2 < t3,
    ensures
        intervals_centibpm(seq![t1, t2, t3]).len() == 2,
{
    let s = seq![t1, t2, t3];
    assert(s.drop_last() =~= seq![t1, t2]);
    assert(seq![t1, t2].drop_last() =~= seq![t1]);
    assert(intervals_centibpm(seq![t1]).len() == 0);
    assert(intervals_centibpm(seq![t1, t2]).len() == 1);
}

} // verus!
