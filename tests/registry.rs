use orbital::{OrbitalScheme, Rect, SchemeError};

fn ids(s: &OrbitalScheme) -> Vec<u64> {
    s.windows.iter().map(|w| w.id).collect()
}

fn pos(s: &OrbitalScheme, id: u64) -> (i32, i32) {
    let w = s.windows.iter().find(|w| w.id == id).unwrap();
    (w.x, w.y)
}

#[test]
fn fresh_server_damages_whole_screen() {
    let s = OrbitalScheme::new(640, 480, 8, 8);
    assert_eq!(s.redraws, vec![Rect::new(0, 0, 640, 480)]);
    assert!(s.windows.is_empty());
    assert_eq!(s.next_id, 1);
}

#[test]
fn cascade_on_short_screen() {
    let mut s = OrbitalScheme::new(100, 50, 8, 8);
    let a = s.open("/-1/-1/10/10/a").unwrap();
    let b = s.open("/-1/-1/10/10/b").unwrap();
    let c = s.open("/-1/-1/10/10/c").unwrap();
    let d = s.open("/-1/-1/10/10/d").unwrap();
    assert_eq!(pos(&s, a), (20, 20));
    assert_eq!(pos(&s, b), (40, 20));
    assert_eq!(pos(&s, c), (60, 20));
    assert_eq!(pos(&s, d), (20, 20));
}

#[test]
fn cascade_counters_wrap_independently() {
    let mut s = OrbitalScheme::new(100, 1000, 8, 8);
    let a = s.open("/-1/-1/10/10/a").unwrap();
    let b = s.open("/-1/-1/10/10/b").unwrap();
    let c = s.open("/-1/-1/10/10/c").unwrap();
    let d = s.open("/-1/-1/10/10/d").unwrap();
    assert_eq!(pos(&s, a), (20, 20));
    assert_eq!(pos(&s, b), (40, 40));
    assert_eq!(pos(&s, c), (60, 60));
    assert_eq!(pos(&s, d), (20, 80));
}

#[test]
fn cascade_advances_on_explicit_position_too() {
    let mut s = OrbitalScheme::new(1000, 1000, 8, 8);
    let a = s.open("/300/400/10/10/a").unwrap();
    let b = s.open("/-1/-1/10/10/b").unwrap();
    assert_eq!(pos(&s, a), (300, 400));
    assert_eq!(pos(&s, b), (40, 40));
}

#[test]
fn only_both_negative_asks_for_cascade() {
    let mut s = OrbitalScheme::new(1000, 1000, 8, 8);
    let a = s.open("/-5/7/10/10/a").unwrap();
    assert_eq!(pos(&s, a), (-5, 7));
}

#[test]
fn open_puts_new_window_in_front() {
    let mut s = OrbitalScheme::new(640, 480, 8, 8);
    let a = s.open("/0/100/10/10/a").unwrap();
    assert_eq!(ids(&s), vec![a]);
    let b = s.open("/0/200/10/10/b").unwrap();
    assert_eq!(ids(&s), vec![b, a]);
    assert_eq!((a, b), (1, 2));
}

#[test]
fn open_damages_frame_with_title_bar() {
    let mut s = OrbitalScheme::new(640, 480, 8, 8);
    s.redraws.clear();
    s.open("/700/500/30/40/t").unwrap();
    assert_eq!(s.redraws, vec![Rect::new(700, 482, 30, 58)]);
    let w = &s.windows[0];
    assert_eq!((w.w, w.h), (30, 40));
    assert_eq!(w.title, "t".chars().collect::<Vec<char>>());
}

#[test]
fn ids_wrap_to_one() {
    let mut s = OrbitalScheme::new(640, 480, 8, 8);
    s.next_id = orbital::MAX_ID;
    let a = s.open("/0/0/1/1/a").unwrap();
    assert_eq!(a, orbital::MAX_ID);
    assert_eq!(s.next_id, 1);
    let b = s.open("/0/0/1/1/b").unwrap();
    assert_eq!(b, 1);
}

#[test]
fn open_skips_ids_in_use() {
    let mut s = OrbitalScheme::new(640, 480, 8, 8);
    let a = s.open("/0/100/1/1/a").unwrap();
    let b = s.open("/0/100/1/1/b").unwrap();
    s.next_id = a;
    let c = s.open("/0/100/1/1/c").unwrap();
    assert_eq!((a, b, c), (1, 2, 3));
    assert_eq!(ids(&s), vec![c, b, a]);
    assert_eq!(s.next_id, 4);
    assert_eq!(s.windows[2].title, vec!['a']);
}

#[test]
fn open_skips_ids_in_use_across_wrap() {
    let mut s = OrbitalScheme::new(640, 480, 8, 8);
    let a = s.open("/0/100/1/1/a").unwrap();
    s.next_id = orbital::MAX_ID;
    let m = s.open("/0/100/1/1/m").unwrap();
    let c = s.open("/0/100/1/1/c").unwrap();
    assert_eq!((a, m, c), (1, orbital::MAX_ID, 2));
}

#[test]
fn close_unknown_id_changes_nothing() {
    let mut s = OrbitalScheme::new(640, 480, 8, 8);
    let a = s.open("/0/100/10/10/a").unwrap();
    let before_redraws = s.redraws.clone();
    assert_eq!(s.close(a + 100), Err(SchemeError::NotFound));
    assert_eq!(s.redraws, before_redraws);
    assert_eq!(ids(&s), vec![a]);
}

#[test]
fn close_removes_and_damages() {
    let mut s = OrbitalScheme::new(640, 480, 8, 8);
    let a = s.open("/0/100/10/10/a").unwrap();
    let b = s.open("/300/300/10/10/b").unwrap();
    s.redraws.clear();
    assert_eq!(s.close(a), Ok(0));
    assert_eq!(ids(&s), vec![b]);
    assert_eq!(s.redraws, vec![Rect::new(0, 82, 10, 28)]);
    assert_eq!(s.close(a), Err(SchemeError::NotFound));
}

#[test]
fn read_unknown_id_is_not_found() {
    let mut s = OrbitalScheme::new(640, 480, 8, 8);
    assert!(matches!(s.read(5, 10), Err(SchemeError::NotFound)));
}

#[test]
fn write_damages_and_stores_content() {
    let mut s = OrbitalScheme::new(640, 480, 8, 8);
    let a = s.open("/10/100/20/20/a").unwrap();
    s.redraws.clear();
    assert_eq!(s.write(a, vec![1, 2, 3]), Ok(3));
    assert_eq!(s.windows[0].data, vec![1, 2, 3]);
    assert_eq!(s.redraws, vec![Rect::new(10, 82, 20, 38)]);
    assert_eq!(s.write(a + 1, vec![9]), Err(SchemeError::NotFound));
}

#[test]
fn fpath_names_window() {
    let mut s = OrbitalScheme::new(640, 480, 8, 8);
    let a = s.open("/10/-20/30/40/hi/there").unwrap();
    let p: String = s.fpath(a).unwrap().into_iter().collect();
    assert_eq!(p, "orbital:/10/-20/30/40/hi/there");
    assert_eq!(s.fpath(a + 1), Err(SchemeError::NotFound));
}
