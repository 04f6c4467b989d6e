use smudge_timer::app::App;
use smudge_timer::events::{Event, KEY_NUM1, KEY_NUM2, KEY_NUM5, KEY_NUM0};
use smudge_timer::grid::{BulkConfig, Preset, TriState};
use smudge_timer::timers::Phase;

fn demo_app() -> App {
    let cfg = BulkConfig { expiry_entity: 1, keep_a: 0, keep_b: 3, resolved_entity: 2 };
    let presets = vec![Preset { key: 40, defaults: vec![2, 7] }];
    App::new(5, cfg, presets)
}

fn grid_states(app: &App) -> Vec<TriState> {
    let view = app.window.first_view().expect("the main view is stacked");
    (0..view.grid.len()).map(|i| view.grid.get(i)).collect()
}

#[test]
fn app_timer_key_then_tick_shows_elapsed_time() {
    let mut app = demo_app();
    let t0 = 50_000u64;
    app.handle_event(&Event::KeyReleased { key: KEY_NUM1, at: t0 });
    let u = app.handle_event(&Event::Tick { at: t0 + 5000 });
    let tick = u.tick.expect("the tick reaches the view");
    assert_eq!(tick.time_text.unwrap().as_str(), "00:00:05");
}

#[test]
fn app_tick_before_start_shows_nothing() {
    let mut app = demo_app();
    let u = app.handle_event(&Event::Tick { at: 1000 });
    let tick = u.tick.expect("the tick reaches the view");
    assert!(tick.time_text.is_none());
    assert_eq!(tick.phase, Phase::Idle);
}

#[test]
fn app_timer_reset_key_stops_the_display() {
    let mut app = demo_app();
    app.handle_event(&Event::KeyReleased { key: KEY_NUM1, at: 1000 });
    app.handle_event(&Event::KeyReleased { key: KEY_NUM2, at: 2000 });
    let u = app.handle_event(&Event::Tick { at: 3000 });
    assert!(u.tick.unwrap().time_text.is_none());
}

#[test]
fn app_obambo_key_drives_the_phase() {
    let mut app = demo_app();
    let t0 = 9_000u64;
    app.handle_event(&Event::KeyReleased { key: smudge_timer::events::KEY_NUM3, at: t0 });
    let u = app.handle_event(&Event::Tick { at: t0 + 1000 });
    assert_eq!(u.tick.unwrap().phase, Phase::Calm);
    let u = app.handle_event(&Event::Tick { at: t0 + 61_000 });
    assert_eq!(u.tick.unwrap().phase, Phase::Aggro);
}

#[test]
fn app_tap_key_yields_estimate_through_the_bus() {
    let mut app = demo_app();
    let mut estimate = None;
    for i in 0..6u64 {
        let u = app.handle_event(&Event::KeyReleased { key: KEY_NUM5, at: 1000 + i * 500 });
        estimate = u.estimate;
    }
    let e = estimate.expect("six steady taps");
    assert_eq!(e.bpm, 120);
    assert_eq!(e.speed_centi, 174);
}

#[test]
fn app_unmapped_key_is_ignored() {
    let mut app = demo_app();
    let u = app.handle_event(&Event::KeyReleased { key: 999, at: 1000 });
    assert!(u.estimate.is_none());
    assert!(u.tick.is_none());
}

#[test]
fn app_preset_key_rewrites_the_grid() {
    let mut app = demo_app();
    app.handle_event(&Event::KeyReleased { key: 40, at: 1000 });
    assert_eq!(
        grid_states(&app),
        vec![TriState::Off, TriState::Off, TriState::Default, TriState::Off, TriState::Off],
    );
}

#[test]
fn app_bulk_expiry_through_tick_events() {
    let mut app = demo_app();
    let t0 = 1_000u64;
    app.handle_event(&Event::KeyReleased { key: KEY_NUM1, at: t0 });
    app.handle_event(&Event::Tick { at: t0 + 119_999 });
    assert_eq!(grid_states(&app)[1], TriState::Default);
    app.handle_event(&Event::Tick { at: t0 + 120_001 });
    assert_eq!(grid_states(&app)[1], TriState::Off);
    app.handle_event(&Event::Tick { at: t0 + 240_001 });
    assert_eq!(
        grid_states(&app),
        vec![TriState::Default, TriState::Off, TriState::Off, TriState::Default, TriState::Off],
    );
}

#[test]
fn app_complete_reset_key() {
    let mut app = demo_app();
    app.handle_event(&Event::KeyReleased { key: KEY_NUM1, at: 1000 });
    app.handle_event(&Event::KeyReleased { key: 40, at: 2000 });
    app.handle_event(&Event::KeyReleased { key: KEY_NUM0, at: 3000 });
    assert_eq!(grid_states(&app), vec![TriState::Default; 5]);
    let u = app.handle_event(&Event::Tick { at: 4000 });
    assert!(u.tick.unwrap().time_text.is_none());
}

#[test]
fn app_paused_view_receives_no_deliveries() {
    let mut app = demo_app();
    app.handle_event(&Event::KeyReleased { key: KEY_NUM1, at: 1000 });
    // The view's pause hook stops deliveries from reaching it.
    app.window.first_view().unwrap().on_pause(&mut app.bus);
    let u = app.handle_event(&Event::Tick { at: 2000 });
    assert!(u.tick.is_none());
    let u = app.handle_event(&Event::KeyReleased { key: KEY_NUM2, at: 2500 });
    assert!(u.estimate.is_none());
    // The view's resume hook restores delivery for subsequent
    // publishes.
    app.window.first_view().unwrap().on_resume(&mut app.bus);
    let u = app.handle_event(&Event::Tick { at: 3000 });
    assert!(u.tick.is_some());
}

#[test]
fn app_visible_switch_pauses_previous_and_resumes_shown() {
    let mut app = demo_app();
    // A switch pauses the previously visible page and resumes the page
    // it shows; re-selecting the only page therefore leaves it
    // delivering.
    app.window.set_visible(&mut app.bus, 0);
    let u = app.handle_event(&Event::Tick { at: 2000 });
    assert!(u.tick.is_some());
    // A page paused by other means is resumed by being shown.
    app.window.first_view().unwrap().on_pause(&mut app.bus);
    let u = app.handle_event(&Event::Tick { at: 2500 });
    assert!(u.tick.is_none());
    app.window.set_visible(&mut app.bus, 0);
    let u = app.handle_event(&Event::Tick { at: 3000 });
    assert!(u.tick.is_some());
}

#[test]
fn app_resume_via_bus_id_restores_delivery() {
    let mut app = demo_app();
    app.window.first_view().unwrap().on_pause(&mut app.bus);
    let u = app.handle_event(&Event::Tick { at: 2000 });
    assert!(u.tick.is_none());
    // The main view's subscription ids are handed out first, starting
    // at zero; resuming the tick subscription alone restores ticks.
    app.bus.resume_event("timer_event", 0);
    let u = app.handle_event(&Event::Tick { at: 3000 });
    assert!(u.tick.is_some());
    let u = app.handle_event(&Event::KeyReleased { key: 999, at: 3500 });
    assert!(u.estimate.is_none());
}
