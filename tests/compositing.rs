use orbital::{Layer, OrbitalScheme, Rect, Span};

#[test]
fn first_pass_covers_whole_screen() {
    let mut s = OrbitalScheme::new(100, 50, 8, 8);
    let passes = s.redraw();
    assert!(s.redraws.is_empty());
    assert_eq!(passes.len(), 1);
    let p = &passes[0];
    assert_eq!(p.rect, Rect::new(0, 0, 100, 50));
    assert!(p.layers.is_empty());
    assert!(p.cursor);
    assert_eq!(p.spans.len(), 50);
    assert_eq!(p.spans[0], Span { offset: 0, len: 400 });
    assert_eq!(p.spans[49], Span { offset: 49 * 400, len: 400 });
}

#[test]
fn layers_are_back_to_front_with_focus_last() {
    let mut s = OrbitalScheme::new(640, 480, 8, 8);
    let b = s.open("/0/100/100/100/b").unwrap();
    let a = s.open("/50/150/100/100/a").unwrap();
    let c = s.open("/500/400/10/10/c").unwrap();
    let p = s.plan(Rect::new(60, 160, 10, 10));
    assert_eq!(p.layers, vec![Layer { id: b, focused: false }, Layer { id: a, focused: false }]);
    let q = s.plan(Rect::new(0, 0, 640, 480));
    assert_eq!(
        q.layers,
        vec![Layer { id: b, focused: false }, Layer { id: a, focused: false }, Layer { id: c, focused: true }]
    );
}

#[test]
fn title_bar_counts_for_overlap() {
    let mut s = OrbitalScheme::new(640, 480, 8, 8);
    let a = s.open("/0/100/100/100/a").unwrap();
    let p = s.plan(Rect::new(10, 85, 5, 5));
    assert_eq!(p.layers, vec![Layer { id: a, focused: true }]);
    let q = s.plan(Rect::new(10, 70, 5, 5));
    assert!(q.layers.is_empty());
}

#[test]
fn spans_are_clipped_to_framebuffer() {
    let s = OrbitalScheme::new(100, 50, 8, 8);
    let p = s.plan(Rect::new(-10, 45, 30, 20));
    assert!(!p.cursor);
    assert_eq!(p.spans, vec![
        Span { offset: (45 * 100) * 4, len: 80 },
        Span { offset: (46 * 100) * 4, len: 80 },
        Span { offset: (47 * 100) * 4, len: 80 },
        Span { offset: (48 * 100) * 4, len: 80 },
        Span { offset: (49 * 100) * 4, len: 80 },
    ]);
    // clipped away sideways: the rows remain, each of no bytes
    let off = s.plan(Rect::new(200, 10, 5, 5));
    assert_eq!(off.spans.len(), 5);
    assert!(off.spans.iter().all(|sp| sp.len == 0));
}

#[test]
fn redraw_keeps_schedule_order() {
    let mut s = OrbitalScheme::new(100, 50, 8, 8);
    s.redraws.clear();
    s.redraws.push(Rect::new(1, 1, 2, 2));
    s.redraws.push(Rect::new(50, 20, 2, 2));
    let passes = s.redraw();
    assert_eq!(passes.len(), 2);
    assert_eq!(passes[0].rect, Rect::new(1, 1, 2, 2));
    assert_eq!(passes[1].rect, Rect::new(50, 20, 2, 2));
    assert_eq!(passes[1].spans[0], Span { offset: (20 * 100 + 50) * 4, len: 8 });
    assert!(s.redraw().is_empty());
}
