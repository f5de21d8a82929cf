use orbital::{schedule, Rect};

#[test]
fn rect_new_keeps_fields() {
    let r = Rect::new(1, -2, 3, 4);
    assert_eq!((r.x, r.y, r.w, r.h), (1, -2, 3, 4));
}

#[test]
fn area_is_widened() {
    assert_eq!(Rect::new(0, 0, 7, 6).area(), 42);
    assert_eq!(Rect::new(0, 0, 100_000, 100_000).area(), 10_000_000_000i64);
}

#[test]
fn container_is_bounding_union() {
    let a = Rect::new(0, 0, 10, 10);
    let b = Rect::new(5, 5, 10, 10);
    assert_eq!(a.container(&b), Rect::new(0, 0, 15, 15));
    assert_eq!(b.container(&a), Rect::new(0, 0, 15, 15));
}

#[test]
fn contains_checks_all_edges() {
    let a = Rect::new(0, 0, 10, 10);
    assert!(a.contains(&Rect::new(2, 2, 8, 8)));
    assert!(a.contains(&a));
    assert!(!a.contains(&Rect::new(2, 2, 9, 8)));
    assert!(!a.contains(&Rect::new(-1, 0, 5, 5)));
}

#[test]
fn is_empty_on_zero_side() {
    assert!(Rect::new(5, 5, 0, 10).is_empty());
    assert!(Rect::new(5, 5, 10, 0).is_empty());
    assert!(!Rect::new(5, 5, 1, 1).is_empty());
}

#[test]
fn intersects_excludes_touching_edges() {
    let a = Rect::new(0, 0, 10, 10);
    assert!(a.intersects(&Rect::new(9, 9, 5, 5)));
    assert!(!a.intersects(&Rect::new(10, 0, 5, 5)));
    assert!(!a.intersects(&Rect::new(0, 10, 5, 5)));
}

#[test]
fn intersection_is_common_part() {
    let a = Rect::new(0, 0, 10, 10);
    let b = Rect::new(5, 5, 10, 10);
    assert_eq!(a.intersection(&b), Rect::new(5, 5, 5, 5));
}

#[test]
fn intersection_of_disjoint_has_no_area() {
    let a = Rect::new(0, 0, 10, 10);
    let b = Rect::new(20, 0, 10, 10);
    let c = a.intersection(&b);
    assert_eq!(c, Rect::new(20, 0, -10, 10));
}

#[test]
fn schedule_on_empty_appends() {
    let mut list = Vec::new();
    schedule(&mut list, 1, 2, 3, 4);
    assert_eq!(list, vec![Rect::new(1, 2, 3, 4)]);
}

#[test]
fn schedule_contained_request_leaves_list_unchanged() {
    let mut list = Vec::new();
    schedule(&mut list, 0, 0, 100, 100);
    schedule(&mut list, 10, 10, 5, 5);
    assert_eq!(list, vec![Rect::new(0, 0, 100, 100)]);
    schedule(&mut list, 0, 0, 100, 100);
    assert_eq!(list, vec![Rect::new(0, 0, 100, 100)]);
}

#[test]
fn schedule_cheaper_union_replaces_entry() {
    let mut list = Vec::new();
    schedule(&mut list, 0, 0, 10, 10);
    schedule(&mut list, 5, 0, 10, 10);
    assert_eq!(list, vec![Rect::new(0, 0, 15, 10)]);
}

#[test]
fn schedule_distant_request_is_appended() {
    let mut list = Vec::new();
    schedule(&mut list, 0, 0, 10, 10);
    schedule(&mut list, 100, 100, 10, 10);
    assert_eq!(list, vec![Rect::new(0, 0, 10, 10), Rect::new(100, 100, 10, 10)]);
}

#[test]
fn schedule_equal_cost_union_is_appended() {
    // side by side: the union has exactly the area of the two
    let mut list = Vec::new();
    schedule(&mut list, 0, 0, 10, 10);
    schedule(&mut list, 10, 0, 10, 10);
    assert_eq!(list, vec![Rect::new(0, 0, 10, 10), Rect::new(10, 0, 10, 10)]);
}

#[test]
fn schedule_merges_into_first_match_only() {
    let mut list = vec![Rect::new(0, 0, 10, 10), Rect::new(4, 0, 10, 10)];
    schedule(&mut list, 5, 0, 10, 10);
    assert_eq!(list, vec![Rect::new(0, 0, 15, 10), Rect::new(4, 0, 10, 10)]);
}

#[test]
fn schedule_with_unrepresentable_union_appends() {
    let mut list = vec![Rect::new(i32::MIN, 0, 10, 10)];
    schedule(&mut list, i32::MAX - 10, 0, 10, 10);
    assert_eq!(list.len(), 2);
}
