use orbital::{Event, OrbitalScheme, Rect, EVENT_KEY, EVENT_MOUSE, EVENT_QUIT, K_F1};

fn ids(s: &OrbitalScheme) -> Vec<u64> {
    s.windows.iter().map(|w| w.id).collect()
}

fn mouse(x: i64, y: i64, held: bool) -> Event {
    Event::new(EVENT_MOUSE, x, y, if held { 1 } else { 0 })
}

fn covered(list: &[Rect], r: Rect) -> bool {
    list.iter().any(|d| d.contains(&r))
}

#[test]
fn hotkey_is_reported_not_forwarded() {
    let mut s = OrbitalScheme::new(640, 480, 8, 8);
    s.open("/0/100/10/10/a").unwrap();
    assert!(s.event(Event::new(EVENT_KEY, 0, K_F1 as i64, 1)));
    assert!(s.windows[0].events.is_empty());
}

#[test]
fn key_goes_to_focused_window() {
    let mut s = OrbitalScheme::new(640, 480, 8, 8);
    s.open("/0/100/10/10/a").unwrap();
    s.open("/0/300/10/10/b").unwrap();
    let k = Event::new(EVENT_KEY, 0, 0x1E, 1);
    assert!(!s.event(k));
    assert_eq!(s.windows[0].events, vec![k]);
    assert!(s.windows[1].events.is_empty());
    // a released hotkey is an ordinary key
    let up = Event::new(EVENT_KEY, 0, K_F1 as i64, 0);
    assert!(!s.event(up));
    assert_eq!(s.windows[0].events, vec![k, up]);
}

#[test]
fn key_without_windows_is_dropped() {
    let mut s = OrbitalScheme::new(640, 480, 8, 8);
    assert!(!s.event(Event::new(EVENT_KEY, 0, 0x1E, 1)));
    assert_eq!(s.redraws, vec![Rect::new(0, 0, 640, 480)]);
}

#[test]
fn cursor_move_damages_old_and_new() {
    let mut s = OrbitalScheme::new(640, 480, 8, 8);
    s.redraws.clear();
    s.event(mouse(100, 100, false));
    assert_eq!((s.cursor_x, s.cursor_y), (100, 100));
    assert_eq!(s.redraws, vec![Rect::new(0, 0, 8, 8), Rect::new(100, 100, 8, 8)]);
    s.redraws.clear();
    s.event(mouse(100, 100, false));
    assert!(s.redraws.is_empty());
}

#[test]
fn press_on_title_bar_of_back_window_raises_it() {
    let mut s = OrbitalScheme::new(640, 480, 8, 8);
    let b = s.open("/10/100/50/50/b").unwrap();
    let a = s.open("/300/300/50/50/a").unwrap();
    assert_eq!(ids(&s), vec![a, b]);
    s.event(mouse(20, 90, true));
    assert_eq!(ids(&s), vec![b, a]);
    assert!(s.dragging);
}

#[test]
fn hover_does_not_reorder() {
    let mut s = OrbitalScheme::new(640, 480, 8, 8);
    let b = s.open("/10/100/50/50/b").unwrap();
    let a = s.open("/300/300/50/50/a").unwrap();
    s.event(mouse(20, 90, false));
    s.event(mouse(20, 120, false));
    assert_eq!(ids(&s), vec![a, b]);
    assert!(!s.dragging);
    // the content hover is forwarded in window-local coordinates
    assert_eq!(s.windows[1].events, vec![Event::new(EVENT_MOUSE, 10, 20, 0)]);
}

#[test]
fn press_in_content_focuses_and_forwards() {
    let mut s = OrbitalScheme::new(640, 480, 8, 8);
    let b = s.open("/10/100/50/50/b").unwrap();
    let a = s.open("/300/300/50/50/a").unwrap();
    s.event(mouse(15, 105, true));
    assert_eq!(ids(&s), vec![b, a]);
    assert_eq!(s.windows[0].events, vec![Event::new(EVENT_MOUSE, 5, 5, 1)]);
    assert!(!s.dragging);
}

#[test]
fn front_window_wins_overlap() {
    let mut s = OrbitalScheme::new(640, 480, 8, 8);
    let b = s.open("/0/100/100/100/b").unwrap();
    let a = s.open("/50/150/100/100/a").unwrap();
    s.event(mouse(60, 160, true));
    assert_eq!(ids(&s), vec![a, b]);
    assert_eq!(s.windows[0].events, vec![Event::new(EVENT_MOUSE, 10, 10, 1)]);
    assert!(s.windows[1].events.is_empty());
}

#[test]
fn press_on_close_control_sends_quit() {
    let mut s = OrbitalScheme::new(640, 480, 8, 8);
    let b = s.open("/10/100/50/50/b").unwrap();
    let a = s.open("/300/300/50/50/a").unwrap();
    s.event(mouse(55, 90, true));
    assert_eq!(ids(&s), vec![b, a]);
    assert_eq!(s.windows[0].events, vec![Event::new(EVENT_QUIT, 0, 0, 0)]);
    assert!(!s.dragging);
}

#[test]
fn drag_moves_window_and_damages_both_frames() {
    let mut s = OrbitalScheme::new(640, 480, 8, 8);
    let id = s.open("/0/60/100/100/w").unwrap();
    s.event(mouse(50, 50, true));
    assert!(s.dragging);
    assert_eq!((s.drag_x, s.drag_y), (50, 50));
    s.redraws.clear();
    s.event(mouse(60, 65, true));
    let w = &s.windows[0];
    assert_eq!(w.id, id);
    assert_eq!((w.x, w.y), (10, 75));
    assert!(covered(&s.redraws, Rect::new(0, 42, 100, 118)));
    assert!(covered(&s.redraws, Rect::new(10, 57, 100, 118)));
    assert_eq!((s.drag_x, s.drag_y), (60, 65));
}

#[test]
fn release_ends_drag() {
    let mut s = OrbitalScheme::new(640, 480, 8, 8);
    s.open("/0/60/100/100/w").unwrap();
    s.event(mouse(50, 50, true));
    s.event(mouse(70, 70, false));
    assert!(!s.dragging);
    assert_eq!((s.windows[0].x, s.windows[0].y), (0, 60));
}

#[test]
fn drag_ends_when_window_is_gone() {
    let mut s = OrbitalScheme::new(640, 480, 8, 8);
    let id = s.open("/0/60/100/100/w").unwrap();
    s.event(mouse(50, 50, true));
    s.close(id).unwrap();
    s.event(mouse(60, 60, true));
    assert!(!s.dragging);
}

#[test]
fn drag_position_is_clamped() {
    let mut s = OrbitalScheme::new(640, 480, 8, 8);
    s.open("/0/60/100/100/w").unwrap();
    s.event(mouse(50, 50, true));
    s.windows[0].y = i32::MIN + 20;
    s.event(mouse(50, -1000, true));
    assert_eq!(s.windows[0].y, i32::MIN + 18);
}

#[test]
fn other_event_kinds_are_ignored() {
    let mut s = OrbitalScheme::new(640, 480, 8, 8);
    s.open("/0/60/100/100/w").unwrap();
    assert!(!s.event(Event::new(7, 1, 2, 3)));
    assert!(s.windows[0].events.is_empty());
}
