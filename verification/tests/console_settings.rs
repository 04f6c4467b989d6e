use smudge_timer::console_view::{
    location_label, location_x, speed_label, BindTarget, CaptureOutcome, ConsoleView,
};
use smudge_timer::events::{KEY_NUM0, KEY_NUM1, KEY_NUM5, KEY_UNKNOWN};
use smudge_timer::settings::{verify_key_bind, Settings};

#[test]
fn settings_defaults() {
    let s = Settings::new();
    assert_eq!(s.key_timer_start, KEY_NUM1);
    assert_eq!(s.key_reset, KEY_NUM0);
    assert_eq!(s.ghost_speed, 2);
    assert!(!s.blood_moon);
    assert_eq!(s.location, 0);
    assert_eq!(Settings::default(), s);
}

#[test]
fn settings_setters_clamp() {
    let mut s = Settings::new();
    s.set_ghost_speed(7);
    assert_eq!(s.ghost_speed, 4);
    s.set_ghost_speed(1);
    assert_eq!(s.ghost_speed, 1);
    s.set_location(9);
    assert_eq!(s.location, 2);
    s.set_location(1);
    assert_eq!(s.location, 1);
}

#[test]
fn verify_key_bind_rejects_unknown_and_bound_keys() {
    let s = Settings::new();
    assert!(!verify_key_bind(KEY_UNKNOWN, &s));
    assert!(!verify_key_bind(s.key_timer_start, &s));
    assert!(!verify_key_bind(s.key_timer_reset, &s));
    assert!(!verify_key_bind(s.key_obambo_start, &s));
    assert!(!verify_key_bind(s.key_obambo_reset, &s));
    assert!(!verify_key_bind(s.key_ms, &s));
    assert!(!verify_key_bind(s.key_reset, &s));
    assert!(verify_key_bind(77, &s));
}

#[test]
fn console_capture_binds_a_free_key() {
    let mut v = ConsoleView::new();
    let mut s = Settings::new();
    v.request_capture(BindTarget::Tap);
    assert_eq!(v.on_key_pressed(77, &mut s), CaptureOutcome::Bound);
    assert_eq!(s.key_ms, 77);
    // The capture is disarmed: the next key propagates.
    assert_eq!(v.on_key_pressed(78, &mut s), CaptureOutcome::NotCapturing);
    assert_eq!(s.key_ms, 77);
}

#[test]
fn console_capture_rejects_bound_key_silently() {
    let mut v = ConsoleView::new();
    let mut s = Settings::new();
    let before = s;
    v.request_capture(BindTarget::TimerReset);
    // Already bound elsewhere: the capture is discarded, nothing
    // changes.
    assert_eq!(v.on_key_pressed(KEY_NUM5, &mut s), CaptureOutcome::Rejected);
    assert_eq!(s, before);
    assert_eq!(v.on_key_pressed(99, &mut s), CaptureOutcome::NotCapturing);
    assert_eq!(s, before);
}

#[test]
fn console_capture_rejects_unknown_key() {
    let mut v = ConsoleView::new();
    let mut s = Settings::new();
    v.request_capture(BindTarget::CompleteReset);
    assert_eq!(v.on_key_pressed(KEY_UNKNOWN, &mut s), CaptureOutcome::Rejected);
    assert_eq!(s, Settings::new());
}

#[test]
fn console_capture_targets_each_binding() {
    let mut v = ConsoleView::new();
    let mut s = Settings::new();
    let cases = [
        (BindTarget::TimerStart, 70u32),
        (BindTarget::TimerReset, 71),
        (BindTarget::ObamboStart, 72),
        (BindTarget::ObamboReset, 73),
        (BindTarget::Tap, 74),
        (BindTarget::CompleteReset, 75),
    ];
    for (t, key) in cases {
        v.request_capture(t);
        assert_eq!(v.on_key_pressed(key, &mut s), CaptureOutcome::Bound);
    }
    assert_eq!(s.key_timer_start, 70);
    assert_eq!(s.key_timer_reset, 71);
    assert_eq!(s.key_obambo_start, 72);
    assert_eq!(s.key_obambo_reset, 73);
    assert_eq!(s.key_ms, 74);
    assert_eq!(s.key_reset, 75);
}

#[test]
fn console_retarget_before_key_press() {
    let mut v = ConsoleView::new();
    let mut s = Settings::new();
    v.request_capture(BindTarget::TimerStart);
    v.request_capture(BindTarget::Tap);
    assert_eq!(v.on_key_pressed(80, &mut s), CaptureOutcome::Bound);
    assert_eq!(s.key_ms, 80);
    assert_eq!(s.key_timer_start, KEY_NUM1);
}

#[test]
fn console_labels() {
    assert_eq!(speed_label(0), "50%");
    assert_eq!(speed_label(1), "75%");
    assert_eq!(speed_label(2), "100%");
    assert_eq!(speed_label(3), "125%");
    assert_eq!(speed_label(4), "150%");
    assert_eq!(location_label(0), "Left");
    assert_eq!(location_label(1), "Top");
    assert_eq!(location_label(2), "Right");
}

#[test]
fn console_location_positions() {
    assert_eq!(location_x(0, 1920, 400), 0);
    assert_eq!(location_x(1, 1920, 400), 760);
    assert_eq!(location_x(2, 1920, 400), 1520);
}

#[test]
fn console_window_starts_disarmed() {
    let w = smudge_timer::console_window::ConsoleWindow::new();
    let mut view = w.view;
    let mut s = Settings::new();
    assert_eq!(view.on_key_pressed(50, &mut s), CaptureOutcome::NotCapturing);
}
