use smudge_timer::bpm::{SpeedModifiers, TapState};

fn neutral() -> SpeedModifiers {
    SpeedModifiers { offset_pct: 0, blood_moon: false, forest_minion: false, coal: false }
}

#[test]
fn tap_steady_half_second_gives_120_bpm() {
    // Six taps exactly 0.5 s apart: five intervals of 120 BPM each,
    // summed and divided by the constant 5, give exactly 120.
    let mut tap = TapState::new();
    let m = neutral();
    let mut last = None;
    for i in 0..6u64 {
        last = tap.tap_and_compute(10_000 + i * 500, &m);
    }
    let e = last.expect("six steady taps must yield an estimate");
    assert_eq!(e.bpm, 120);
    // 120 BPM converts to 120 / (60 + 120 * 0.075) = 1.7391..., which
    // reads 1.74 at two decimals.
    assert_eq!(e.speed_centi, 174);
}

#[test]
fn tap_divide_by_constant_five_quirk() {
    // Three taps 0.5 s apart leave two intervals of 120 BPM each, but
    // the average still divides by 5: (120 + 120) / 5 = 48.
    let mut tap = TapState::new();
    let m = neutral();
    assert!(tap.tap_and_compute(1000, &m).is_none());
    assert!(tap.tap_and_compute(1500, &m).is_none());
    let e = tap.tap_and_compute(2000, &m).expect("two intervals yield an estimate");
    assert_eq!(e.bpm, 48);
    // 48 BPM converts to 48 / (60 + 3.6) = 0.7547..., rounded 0.75.
    assert_eq!(e.speed_centi, 75);
}

#[test]
fn tap_no_estimate_before_three_taps() {
    let mut tap = TapState::new();
    let m = neutral();
    assert!(tap.tap_and_compute(100, &m).is_none());
    assert!(tap.tap_and_compute(600, &m).is_none());
}

#[test]
fn tap_gap_over_five_seconds_starts_fresh() {
    // A gap above 5000 ms resets: the second burst needs three taps of
    // its own before an estimate appears again.
    let mut tap = TapState::new();
    let m = neutral();
    for i in 0..6u64 {
        tap.tap_and_compute(1000 + i * 500, &m);
    }
    let first_after_gap = tap.tap_and_compute(20_000, &m);
    assert!(first_after_gap.is_none());
    assert!(tap.tap_and_compute(20_500, &m).is_none());
    let e = tap.tap_and_compute(21_000, &m).expect("three taps after the gap");
    assert_eq!(e.bpm, 48);
}

#[test]
fn tap_gap_of_exactly_five_seconds_does_not_reset() {
    let mut tap = TapState::new();
    let m = neutral();
    assert!(tap.tap_and_compute(1000, &m).is_none());
    assert!(tap.tap_and_compute(6000, &m).is_none());
    // 5000 ms gaps kept: two intervals now exist.
    assert!(tap.tap_and_compute(11_000, &m).is_some());
}

#[test]
fn tap_zero_delta_is_skipped_not_divided() {
    let mut tap = TapState::new();
    let m = neutral();
    assert!(tap.tap_and_compute(1000, &m).is_none());
    assert!(tap.tap_and_compute(1000, &m).is_none());
    // Only one positive interval so far: still no estimate.
    assert!(tap.tap_and_compute(1500, &m).is_none());
    let e = tap.tap_and_compute(2000, &m).expect("two positive intervals");
    assert_eq!(e.bpm, 48);
}

#[test]
fn tap_bpm_clamps_at_600_and_speed_at_5() {
    // 50 ms intervals read 1200 BPM each; five of them average to 1200,
    // clamped to 600, and the converted speed clamps at 5.00.
    let mut tap = TapState::new();
    let m = neutral();
    let mut last = None;
    for i in 0..6u64 {
        last = tap.tap_and_compute(1000 + i * 50, &m);
    }
    let e = last.unwrap();
    assert_eq!(e.bpm, 600);
    assert_eq!(e.speed_centi, 500);
}

#[test]
fn tap_blood_moon_scales_the_speed_down() {
    let mut tap = TapState::new();
    let m = SpeedModifiers { offset_pct: 0, blood_moon: true, forest_minion: false, coal: false };
    let mut last = None;
    for i in 0..6u64 {
        last = tap.tap_and_compute(10_000 + i * 500, &m);
    }
    let e = last.unwrap();
    assert_eq!(e.bpm, 120);
    // 120 / (1.15 * 69) = 1.5122..., rounded 1.51.
    assert_eq!(e.speed_centi, 151);
}

#[test]
fn tap_start_marker_set_on_fifth_tap() {
    let mut tap = TapState::new();
    let m = neutral();
    for i in 0..4u64 {
        tap.tap_and_compute(1000 + i * 500, &m);
        assert_eq!(tap.start_marker(), None);
    }
    tap.tap_and_compute(3000, &m);
    assert_eq!(tap.start_marker(), Some(3000));
    // Later taps keep the marker.
    tap.tap_and_compute(3500, &m);
    assert_eq!(tap.start_marker(), Some(3000));
    // An idle-timeout gap clears it.
    tap.tap_and_compute(20_000, &m);
    assert_eq!(tap.start_marker(), None);
}

#[test]
fn tap_reset_clears_everything() {
    let mut tap = TapState::new();
    let m = neutral();
    for i in 0..6u64 {
        tap.tap_and_compute(1000 + i * 500, &m);
    }
    tap.reset();
    assert_eq!(tap.start_marker(), None);
    assert!(tap.tap_and_compute(4000, &m).is_none());
    assert!(tap.tap_and_compute(4500, &m).is_none());
}

#[test]
fn tap_window_is_bounded() {
    // Far more taps than the window holds: the estimate still comes
    // from the most recent intervals only.
    let mut tap = TapState::new();
    let m = neutral();
    let mut last = None;
    for i in 0..200u64 {
        last = tap.tap_and_compute(1000 + i * 500, &m);
    }
    let e = last.unwrap();
    assert_eq!(e.bpm, 120);
}
