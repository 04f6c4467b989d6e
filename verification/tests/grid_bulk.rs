use smudge_timer::grid::{BulkConfig, BulkTimer, Preset, ToggleGrid, TriState};

fn cfg() -> BulkConfig {
    BulkConfig { expiry_entity: 1, keep_a: 0, keep_b: 3, resolved_entity: 2 }
}

fn states(g: &ToggleGrid) -> Vec<TriState> {
    (0..g.len()).map(|i| g.get(i)).collect()
}

#[test]
fn grid_starts_all_default() {
    let g = ToggleGrid::new(4);
    assert_eq!(states(&g), vec![TriState::Default; 4]);
}

#[test]
fn grid_click_cycles_default_off_on_default() {
    let mut g = ToggleGrid::new(3);
    g.click(1);
    assert_eq!(g.get(1), TriState::Off);
    g.click(1);
    assert_eq!(g.get(1), TriState::On);
    g.click(1);
    assert_eq!(g.get(1), TriState::Default);
    // Other entities untouched; clicks outside the grid are no-ops.
    assert_eq!(g.get(0), TriState::Default);
    g.click(17);
    assert_eq!(states(&g), vec![TriState::Default; 3]);
}

#[test]
fn grid_preset_maps_subset_to_default_rest_off() {
    // The preset names entities 2 and 7 over a 5-entity grid: 2 stays
    // Default, 7 lies outside, everything else goes Off.
    let mut g = ToggleGrid::new(5);
    let p = Preset { key: 40, defaults: vec![2, 7] };
    g.apply_preset(&p);
    assert_eq!(
        states(&g),
        vec![TriState::Off, TriState::Off, TriState::Default, TriState::Off, TriState::Off],
    );
}

#[test]
fn grid_preset_overwrites_clicked_states() {
    let mut g = ToggleGrid::new(3);
    g.click(0);
    g.click(0);
    let p = Preset { key: 40, defaults: vec![0] };
    g.apply_preset(&p);
    assert_eq!(states(&g), vec![TriState::Default, TriState::Off, TriState::Off]);
}

#[test]
fn bulk_timer_thresholds() {
    // Ticks at +119999 leave the designated entity unchanged, at
    // +120001 force it Off, and at +240001 reset the grid per the
    // second-threshold rule.
    let mut g = ToggleGrid::new(5);
    let mut b = BulkTimer::new();
    let c = cfg();
    let t0 = 1_000u64;
    b.start(t0);
    b.on_tick(t0 + 119_999, &mut g, &c);
    assert_eq!(states(&g), vec![TriState::Default; 5]);
    b.on_tick(t0 + 120_001, &mut g, &c);
    assert_eq!(
        states(&g),
        vec![
            TriState::Default,
            TriState::Off,
            TriState::Default,
            TriState::Default,
            TriState::Default,
        ],
    );
    b.on_tick(t0 + 240_001, &mut g, &c);
    assert_eq!(
        states(&g),
        vec![TriState::Default, TriState::Off, TriState::Off, TriState::Default, TriState::Off],
    );
    // The timer expired: later ticks change nothing.
    b.on_tick(t0 + 400_000, &mut g, &c);
    assert_eq!(
        states(&g),
        vec![TriState::Default, TriState::Off, TriState::Off, TriState::Default, TriState::Off],
    );
}

#[test]
fn bulk_timer_stop_before_first_threshold_resolves() {
    let mut g = ToggleGrid::new(4);
    let mut b = BulkTimer::new();
    let c = cfg();
    b.start(1_000);
    b.stop(90_000, &mut g, &c);
    assert_eq!(
        states(&g),
        vec![TriState::Off, TriState::Off, TriState::On, TriState::Off],
    );
}

#[test]
fn bulk_timer_stop_after_first_threshold_keeps_grid() {
    let mut g = ToggleGrid::new(4);
    let mut b = BulkTimer::new();
    let c = cfg();
    let t0 = 1_000u64;
    b.start(t0);
    b.on_tick(t0 + 130_000, &mut g, &c);
    let before = states(&g);
    b.stop(t0 + 130_500, &mut g, &c);
    assert_eq!(states(&g), before);
}

#[test]
fn bulk_timer_stop_when_stopped_is_no_op() {
    let mut g = ToggleGrid::new(4);
    let mut b = BulkTimer::new();
    let c = cfg();
    b.stop(500, &mut g, &c);
    assert_eq!(states(&g), vec![TriState::Default; 4]);
}

#[test]
fn grid_reset_all_returns_to_default() {
    let mut g = ToggleGrid::new(3);
    g.click(0);
    g.click(1);
    g.click(1);
    g.reset_all();
    assert_eq!(states(&g), vec![TriState::Default; 3]);
}
