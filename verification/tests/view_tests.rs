use audionoise::view::ViewWindow;

fn in_bounds(v: &ViewWindow) {
    assert!(v.start() + v.width() <= v.duration_samples());
    assert!(v.min_width() <= v.width());
    assert!(v.width() <= v.max_width());
    assert!(v.max_width() <= v.duration_samples());
}

#[test]
fn initial_window_is_clamped_to_configured_max() {
    // Ten seconds at 48 kHz, max width two seconds, min zoom 100 samples:
    // the initial window is the full two seconds starting at zero.
    let v = ViewWindow::new(48000, 480000, 100, 2 * 48000);
    assert_eq!(v.width(), 96000);
    assert_eq!(v.start(), 0);
    assert_eq!(v.min_width(), 100);
    assert_eq!(v.max_width(), 96000);
    in_bounds(&v);
}

#[test]
fn zoom_out_cannot_exceed_configured_max() {
    let mut v = ViewWindow::new(48000, 480000, 100, 2 * 48000);
    v.zoom(2, 1);
    assert_eq!(v.width(), 96000);
    in_bounds(&v);
}

#[test]
fn zoom_in_preserves_center() {
    let mut v = ViewWindow::new(48000, 480000, 100, 2 * 48000);
    v.zoom(1, 2);
    // Center was at 48000; the half-width window around it is [24000, 72000).
    assert_eq!(v.width(), 48000);
    assert_eq!(v.start(), 24000);
    v.zoom(4, 1);
    // Clamped back to the maximum width, still centered at 48000.
    assert_eq!(v.width(), 96000);
    assert_eq!(v.start(), 0);
    in_bounds(&v);
}

#[test]
fn zoom_unit_factor_is_noop() {
    let mut v = ViewWindow::new(48000, 480000, 100, 2 * 48000);
    v.pan(1, 3);
    let (s, w) = (v.start(), v.width());
    v.zoom(1, 1);
    assert_eq!(v.start(), s);
    assert_eq!(v.width(), w);
    v.zoom(7, 7);
    assert_eq!(v.start(), s);
    assert_eq!(v.width(), w);
}

#[test]
fn zoom_in_is_clamped_to_min_width() {
    let mut v = ViewWindow::new(48000, 480000, 100, 2 * 48000);
    v.zoom(1, 1000000);
    assert_eq!(v.width(), 100);
    in_bounds(&v);
}

#[test]
fn pan_moves_by_fraction_of_width() {
    let mut v = ViewWindow::new(48000, 480000, 100, 2 * 48000);
    v.pan(1, 4);
    assert_eq!(v.start(), 24000);
    v.pan(-1, 4);
    assert_eq!(v.start(), 0);
}

#[test]
fn pan_clamps_at_both_ends() {
    let mut v = ViewWindow::new(48000, 480000, 100, 2 * 48000);
    v.pan(-1, 2);
    assert_eq!(v.start(), 0);
    v.jump_end();
    assert_eq!(v.start(), 480000 - 96000);
    v.pan(1, 1);
    assert_eq!(v.start(), 480000 - 96000);
    in_bounds(&v);
}

#[test]
fn jumps_hit_the_ends() {
    let mut v = ViewWindow::new(48000, 480000, 100, 2 * 48000);
    v.jump_end();
    assert_eq!(v.start(), 384000);
    v.jump_start();
    assert_eq!(v.start(), 0);
    assert_eq!(v.sample_range(), (0, 96000));
}

#[test]
fn navigation_stays_in_bounds() {
    // Any mix of operations keeps the window inside the timeline and the
    // width inside the zoom bounds.
    let mut v = ViewWindow::new(44100, 1_000_000, 256, 500_000);
    in_bounds(&v);
    v.pan(3, 4);
    in_bounds(&v);
    v.zoom(2, 1);
    in_bounds(&v);
    v.pan(-7, 2);
    in_bounds(&v);
    v.zoom(1, 100);
    in_bounds(&v);
    v.jump_end();
    in_bounds(&v);
    v.zoom(1000, 1);
    in_bounds(&v);
    v.pan(1, 1);
    in_bounds(&v);
    v.jump_start();
    in_bounds(&v);
}

#[test]
fn zero_duration_makes_all_operations_noops() {
    let mut v = ViewWindow::new(48000, 0, 100, 96000);
    assert_eq!(v.width(), 0);
    assert_eq!(v.start(), 0);
    v.pan(1, 2);
    v.zoom(2, 1);
    v.jump_end();
    assert_eq!(v.width(), 0);
    assert_eq!(v.start(), 0);
    assert_eq!(v.sample_range(), (0, 0));
}

#[test]
fn max_start_is_duration_minus_width() {
    let v = ViewWindow::new(48000, 480000, 100, 2 * 48000);
    assert_eq!(v.max_start(), 384000);
}
