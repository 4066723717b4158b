use leptos_struct_table::{ReloadController, Window};

#[test]
fn window_counts_its_positions() {
    let w = Window::new(15, 45);
    assert_eq!(w.start, 15);
    assert_eq!(w.end, 45);
    assert_eq!(w.len(), 30);
    assert!(!w.is_empty());
    assert!(w.contains(15));
    assert!(w.contains(44));
    assert!(!w.contains(45));
    assert!(!w.contains(14));
}

#[test]
fn window_with_end_before_start_is_empty() {
    let w = Window::new(7, 3);
    assert_eq!(w.len(), 0);
    assert!(w.is_empty());
    assert!(!w.contains(5));
    assert!(Window::new(4, 4).is_empty());
}

#[test]
fn window_expand_widens_both_sides() {
    assert_eq!(Window::new(20, 40).expand(5), Window::new(15, 45));
    assert_eq!(Window::new(20, 40).expand(0), Window::new(20, 40));
}

#[test]
fn window_expand_stops_at_the_ends_of_the_range() {
    assert_eq!(Window::new(3, 10).expand(5), Window::new(0, 15));
    assert_eq!(
        Window::new(10, u64::MAX - 2).expand(5),
        Window::new(5, u64::MAX)
    );
    assert_eq!(
        Window::new(0, u64::MAX).expand(u64::MAX),
        Window::new(0, u64::MAX)
    );
}

#[test]
fn window_clamp_cuts_off_at_the_limit() {
    assert_eq!(Window::new(50, 75).clamp_to(53), Window::new(50, 53));
    assert_eq!(Window::new(50, 75).clamp_to(100), Window::new(50, 75));
    assert_eq!(Window::new(50, 75).clamp_to(10), Window::new(10, 10));
    assert!(Window::new(50, 75).clamp_to(10).is_empty());
}

#[test]
fn reload_controller_starts_at_zero_and_advances_by_one() {
    let mut c = ReloadController::new();
    assert_eq!(c.current_version(), 0);
    assert!(c.can_invalidate());
    c.invalidate();
    assert_eq!(c.current_version(), 1);
    c.invalidate();
    assert_eq!(c.current_version(), 2);
}

#[test]
fn reload_controller_tells_stale_versions() {
    let mut c = ReloadController::new();
    let issued = c.current_version();
    assert!(!c.is_stale(issued));
    c.invalidate();
    assert!(c.is_stale(issued));
    assert!(!c.is_stale(c.current_version()));
    assert!(c.is_stale(7));
}
