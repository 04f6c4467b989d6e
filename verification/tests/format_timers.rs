use smudge_timer::time_format::{ms_to_hms, ms_to_msc};
use smudge_timer::timers::{ElapsedTimer, Phase, PhaseIndicator, TimeFormat};

#[test]
fn format_hms_values() {
    assert_eq!(ms_to_hms(0).as_str(), "00:00:00");
    assert_eq!(ms_to_hms(999).as_str(), "00:00:00");
    assert_eq!(ms_to_hms(1000).as_str(), "00:00:01");
    assert_eq!(ms_to_hms(61_000).as_str(), "00:01:01");
    assert_eq!(ms_to_hms(3_661_000).as_str(), "01:01:01");
    // Hours grow past two digits instead of wrapping.
    assert_eq!(ms_to_hms(360_000_000).as_str(), "100:00:00");
}

#[test]
fn format_msc_values() {
    assert_eq!(ms_to_msc(0).as_str(), "00:00.00");
    assert_eq!(ms_to_msc(5000).as_str(), "00:05.00");
    assert_eq!(ms_to_msc(125_500).as_str(), "02:05.50");
}

#[test]
fn format_msc_rounds_half_up_with_carry() {
    // 4 ms rounds down, 5 ms rounds up.
    assert_eq!(ms_to_msc(4).as_str(), "00:00.00");
    assert_eq!(ms_to_msc(5).as_str(), "00:00.01");
    // The carry runs through centiseconds into seconds and minutes.
    assert_eq!(ms_to_msc(59_995).as_str(), "01:00.00");
    assert_eq!(ms_to_msc(59_994).as_str(), "00:59.99");
}

#[test]
fn elapsed_timer_centi_display() {
    // Start at t0; a tick at t0+5000 reads "00:05.00" and one at
    // t0+125500 reads "02:05.50".
    let mut t = ElapsedTimer::new(TimeFormat::MinutesSecondsCentis);
    let t0 = 7_000u64;
    assert!(t.on_tick(t0).is_none());
    t.start(t0);
    assert_eq!(t.on_tick(t0 + 5000).unwrap().as_str(), "00:05.00");
    assert_eq!(t.on_tick(t0 + 125_500).unwrap().as_str(), "02:05.50");
}

#[test]
fn elapsed_timer_hms_display_and_reset() {
    let mut t = ElapsedTimer::new(TimeFormat::HoursMinutesSeconds);
    t.start(1000);
    assert_eq!(t.on_tick(6000).unwrap().as_str(), "00:00:05");
    t.reset();
    assert!(t.on_tick(7000).is_none());
    assert_eq!(t.zero_display().as_str(), "00:00:00");
    // Reset is idempotent.
    t.reset();
    assert!(t.on_tick(8000).is_none());
}

#[test]
fn elapsed_timer_start_while_running_keeps_anchor() {
    let mut t = ElapsedTimer::new(TimeFormat::HoursMinutesSeconds);
    t.start(1000);
    t.start(50_000);
    assert_eq!(t.on_tick(61_000).unwrap().as_str(), "00:01:00");
}

#[test]
fn elapsed_timer_saturates_on_early_tick() {
    let mut t = ElapsedTimer::new(TimeFormat::HoursMinutesSeconds);
    t.start(10_000);
    assert_eq!(t.on_tick(9_000).unwrap().as_str(), "00:00:00");
}

#[test]
fn phase_indicator_square_wave() {
    let mut p = PhaseIndicator::new();
    let t0 = 5_000u64;
    assert_eq!(p.on_tick(t0), Phase::Idle);
    p.start(t0);
    // Calm for the first 60 s.
    assert_eq!(p.on_tick(t0), Phase::Calm);
    assert_eq!(p.on_tick(t0 + 59_999), Phase::Calm);
    // Then flipping every 120 s.
    assert_eq!(p.on_tick(t0 + 60_000), Phase::Aggro);
    assert_eq!(p.on_tick(t0 + 179_999), Phase::Aggro);
    assert_eq!(p.on_tick(t0 + 180_000), Phase::Calm);
    assert_eq!(p.on_tick(t0 + 299_999), Phase::Calm);
    assert_eq!(p.on_tick(t0 + 300_000), Phase::Aggro);
    p.reset();
    assert_eq!(p.on_tick(t0 + 300_000), Phase::Idle);
}
