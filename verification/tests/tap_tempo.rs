use midi_controller::tap_tempo::TapTempo;

#[test]
fn first_tap_returns_none() {
    let mut tt = TapTempo::new();
    assert_eq!(tt.tap(0), None);
}

#[test]
fn three_taps_returns_none() {
    let mut tt = TapTempo::new();
    tt.tap(0);
    assert_eq!(tt.tap(500), None);
    assert_eq!(tt.tap(1000), None);
}

#[test]
fn four_taps_at_120bpm() {
    let mut tt = TapTempo::new();
    tt.tap(0);
    tt.tap(500);
    tt.tap(1000);
    // Fourth tap: total span = 1500ms, 3 intervals, avg = 500ms = 120 BPM
    assert_eq!(tt.tap(1500), Some(120));
}

#[test]
fn uneven_taps_averages() {
    let mut tt = TapTempo::new();
    tt.tap(0);
    tt.tap(400);
    tt.tap(900);
    // 4th tap at 1400: span = 1400ms, 3 intervals, avg = 466ms = 128 BPM
    assert_eq!(tt.tap(1400), Some(128));
}

#[test]
fn timeout_resets() {
    let mut tt = TapTempo::new();
    tt.tap(0);
    tt.tap(500);
    tt.tap(1000);
    tt.tap(1500); // stable at 120
    // 3 seconds later — should reset
    assert_eq!(tt.tap(5500), None); // first tap after reset
    assert_eq!(tt.tap(6000), None);
    assert_eq!(tt.tap(6500), None);
    assert_eq!(tt.tap(7000), Some(120)); // fourth tap after reset
}

#[test]
fn clamps_at_max_bpm() {
    let mut tt = TapTempo::new();
    tt.tap(0);
    tt.tap(300);
    tt.tap(600);
    // 300ms interval = 200 BPM → clamped to 200
    assert_eq!(tt.tap(900), Some(200));
}

#[test]
fn clamps_at_min_bpm() {
    let mut tt = TapTempo::new();
    tt.tap(0);
    tt.tap(1900);
    tt.tap(3800);
    // ~1900ms intervals = 31 BPM → clamped to 30
    assert_eq!(tt.tap(5700), Some(31));
}

#[test]
fn more_than_max_taps_shifts_window() {
    let mut tt = TapTempo::new();
    tt.tap(0);
    tt.tap(500);
    tt.tap(1000);
    tt.tap(1500);
    // 5th tap shifts window: [500, 1000, 1500, 2000], avg = 500ms
    assert_eq!(tt.tap(2000), Some(120));
}

#[test]
fn reset_clears_state() {
    let mut tt = TapTempo::new();
    tt.tap(0);
    tt.tap(500);
    tt.tap(1000);
    tt.tap(1500);
    tt.reset();
    assert_eq!(tt.tap(2000), None); // first tap after reset
}

#[test]
fn ignores_bounce_tap() {
    let mut tt = TapTempo::new();
    tt.tap(0);
    // Bounce at 50ms — should be ignored
    assert_eq!(tt.tap(50), None);
    tt.tap(500);
    tt.tap(1000);
    // Fourth real tap at 1500ms
    assert_eq!(tt.tap(1500), Some(120));
}

#[test]
fn ignores_bounce_mid_sequence() {
    let mut tt = TapTempo::new();
    tt.tap(0);
    tt.tap(500);
    tt.tap(1000);
    // Bounce at 1050ms — ignored
    assert_eq!(tt.tap(1050), None);
    // Real 4th tap at 1500ms
    assert_eq!(tt.tap(1500), Some(120));
}

#[test]
fn steady_taps_report_tempo_after_four() {
    let mut tt = TapTempo::default();
    assert_eq!(tt.tap(10_000), None);
    assert_eq!(tt.tap(10_750), None);
    assert_eq!(tt.tap(11_500), None);
    // 750ms = 80 BPM
    assert_eq!(tt.tap(12_250), Some(80));
}

#[test]
fn slow_taps_below_min_are_clamped() {
    let mut tt = TapTempo::new();
    tt.tap(0);
    tt.tap(2000);
    tt.tap(4000);
    // 2000ms intervals = 30 BPM exactly
    assert_eq!(tt.tap(6000), Some(30));
}

#[test]
fn tempo_across_clock_wraparound() {
    let mut tt = TapTempo::new();
    let start = u32::MAX - 999;
    tt.tap(start);
    tt.tap(start.wrapping_add(500));
    tt.tap(start.wrapping_add(1000));
    assert_eq!(tt.tap(start.wrapping_add(1500)), Some(120));
}

#[test]
fn fast_full_window_clamps_high() {
    let mut tt = TapTempo::new();
    tt.tap(0);
    tt.tap(300);
    tt.tap(600);
    tt.tap(900);
    // window [300, 600, 900, 1200] after a fifth tap at 300ms = 200 BPM
    assert_eq!(tt.tap(1200), Some(200));
}
