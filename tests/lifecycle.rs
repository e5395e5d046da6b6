use rounded_corners::{pixel_color, CornerState, Quadrant, State, DEFAULT_RADIUS};

#[test]
fn first_configure_draws_once() {
    let mut c = CornerState::new(Quadrant::TopRight, DEFAULT_RADIUS, 7);
    assert!(c.awaits_first_configure());
    assert!(c.on_configure(24));
    assert!(!c.awaits_first_configure());
    assert!(!c.on_configure(24));
    assert!(!c.on_configure(30));
}

#[test]
fn configure_updates_radius_without_redraw() {
    let mut c = CornerState::new(Quadrant::BottomLeft, DEFAULT_RADIUS, 7);
    assert!(c.on_configure(32));
    assert_eq!(c.radius(), 32);
    assert!(!c.on_configure(40));
    assert_eq!(c.radius(), 40);
}

#[test]
fn zero_height_falls_back_to_default() {
    let mut c = CornerState::new(Quadrant::TopLeft, 5, 1);
    assert_eq!(c.radius(), 5);
    assert!(c.on_configure(0));
    assert_eq!(c.radius(), DEFAULT_RADIUS);
    assert_eq!(DEFAULT_RADIUS, 24);
}

#[test]
fn closed_corner_ignores_configure() {
    let mut c = CornerState::new(Quadrant::TopLeft, 24, 1);
    c.on_closed();
    assert!(c.is_closed());
    assert!(!c.on_configure(12));
    assert_eq!(c.radius(), 24);
    assert!(c.awaits_first_configure());
}

#[test]
fn draw_fills_buffer_at_current_radius() {
    let mut c = CornerState::new(Quadrant::BottomRight, 24, 1);
    c.on_configure(3);
    assert_eq!(c.buffer_len(), Some(36));
    let mut canvas = vec![0x55u8; 36];
    c.draw(&mut canvas);
    for i in 0..9usize {
        let want = pixel_color(3, Quadrant::BottomRight, (i % 3) as u32, (i / 3) as u32);
        assert_eq!(&canvas[4 * i..4 * i + 4], &want.to_le_bytes()[..]);
    }
    // (2, 2) maps to (2, 2): 8 <= 9, so the whole 3x3 bottom-right tile is clear
    assert_eq!(canvas, vec![0u8; 36]);
}

#[test]
fn buffer_len_of_default_tile() {
    let c = CornerState::new(Quadrant::TopLeft, DEFAULT_RADIUS, 1);
    assert_eq!(c.buffer_len(), Some(24 * 24 * 4));
}

#[test]
fn new_state_holds_four_fresh_corners() {
    let s = State::new([10, 11, 12, 13], 24);
    assert!(!s.should_exit());
    for (i, q) in Quadrant::all().into_iter().enumerate() {
        let c = s.corner(q);
        assert_eq!(c.quadrant(), q);
        assert_eq!(c.surface(), 10 + i as u32);
        assert_eq!(c.radius(), 24);
        assert!(c.awaits_first_configure());
        assert!(!c.is_closed());
    }
}

#[test]
fn configure_is_routed_by_surface() {
    let mut s = State::new([10, 11, 12, 13], 24);
    assert_eq!(s.dispatch_configure(12, 30), Some(Quadrant::BottomLeft));
    assert_eq!(s.corner(Quadrant::BottomLeft).radius(), 30);
    assert_eq!(s.corner(Quadrant::TopLeft).radius(), 24);
    assert_eq!(s.dispatch_configure(12, 31), None);
    assert_eq!(s.corner(Quadrant::BottomLeft).radius(), 31);
    assert_eq!(s.dispatch_configure(10, 24), Some(Quadrant::TopLeft));
    assert_eq!(s.dispatch_configure(13, 24), Some(Quadrant::BottomRight));
    assert_eq!(s.dispatch_configure(11, 24), Some(Quadrant::TopRight));
}

#[test]
fn unknown_surface_is_ignored() {
    let mut s = State::new([10, 11, 12, 13], 24);
    assert_eq!(s.dispatch_configure(99, 50), None);
    s.dispatch_closed(99);
    assert!(!s.should_exit());
    for q in Quadrant::all() {
        assert_eq!(s.corner(q).radius(), 24);
        assert!(s.corner(q).awaits_first_configure());
    }
}

#[test]
fn closing_any_corner_stops() {
    for id in 10..14u32 {
        let mut s = State::new([10, 11, 12, 13], 24);
        s.dispatch_closed(id);
        assert!(s.should_exit());
        s.dispatch_closed(id);
        assert!(s.should_exit());
    }
}

#[test]
fn closed_corner_is_not_redrawn() {
    let mut s = State::new([10, 11, 12, 13], 24);
    s.dispatch_closed(11);
    assert!(s.corner(Quadrant::TopRight).is_closed());
    assert_eq!(s.dispatch_configure(11, 24), None);
    assert_eq!(s.dispatch_configure(10, 24), Some(Quadrant::TopLeft));
}
