use vstd::prelude::*;

use crate::damage::{schedule, scheduled};
use crate::event::{quit_event, Event, EVENT_KEY, EVENT_MOUSE, K_F1};
use crate::rect::Rect;
use crate::scheme::{order_of, queued, OrbitalScheme};
use crate::window::{Window, TITLE_HEIGHT};

verus! {

/// A key press that asks for a process-list report.
pub open spec fn is_hotkey(ev: Event) -> bool {
    ev.code == EVENT_KEY && (ev.b as u8) == K_F1 && ev.c > 0
}

pub open spec fn hits(w: Window, px: int, py: int) -> bool {
    w.content_hit(px, py) || w.title_hit(px, py)
}

/// `i` is the front-most window whose content or title bar holds the point.
pub open spec fn first_target(ws: Seq<Window>, px: int, py: int, i: int) -> bool {
    0 <= i < ws.len() && hits(ws[i], px, py) && forall|j: int| 0 <= j < i ==> !hits(#[trigger] ws[j], px, py)
}

/// `v` clamped into `[lo, hi]`.
pub open spec fn clamp(v: int, lo: int, hi: int) -> int {
    if v < lo {
        lo
    } else if v > hi {
        hi
    } else {
        v
    }
}

/// The z-order `nws` holds the windows of `ows`, with the one at `i` moved
/// to the front where `front` holds, else in place; the window at `i` itself
/// is described apart.
pub open spec fn placed(ows: Seq<Window>, nws: Seq<Window>, i: int, front: bool) -> bool {
    &&& nws.len() == ows.len()
    &&& if front {
        nws.subrange(1, nws.len() as int) == ows.remove(i)
    } else {
        forall|j: int| 0 <= j < ows.len() && j != i ==> nws[j] == ows[j]
    }
}

/// Where the window at `i` stands after `placed`.
pub open spec fn slot(i: int, front: bool) -> int {
    if front {
        0
    } else {
        i
    }
}

/// The damage list after the pointer moved to `(px, py)`: the old and the
/// new cursor rectangles, where it moved at all.
pub open spec fn cursor_damage(o: OrbitalScheme, px: i32, py: i32) -> Seq<Rect> {
    if px != o.cursor_x || py != o.cursor_y {
        scheduled(
            scheduled(o.redraws@, Rect { x: o.cursor_x, y: o.cursor_y, w: o.cursor_w, h: o.cursor_h }),
            Rect { x: px, y: py, w: o.cursor_w, h: o.cursor_h },
        )
    } else {
        o.redraws@
    }
}

/// The state after a pointer event at `(px, py)` while a drag is on, from
/// the state `o` before it and the damage list `base` after the cursor moved.
pub open spec fn drag_result(o: OrbitalScheme, n: OrbitalScheme, base: Seq<Rect>, px: i32, py: i32, held: bool) -> bool {
    &&& n.cursor_x == px && n.cursor_y == py
    &&& if held && o.windows@.len() > 0 {
        let w = o.windows@[0];
        let m = n.windows@[0];
        &&& n.dragging
        &&& if o.drag_x != px || o.drag_y != py {
            &&& n.windows@.len() == o.windows@.len()
            &&& forall|j: int| 1 <= j < o.windows@.len() ==> n.windows@[j] == o.windows@[j]
            &&& m.id == w.id && m.w == w.w && m.h == w.h && m.title@ == w.title@
            &&& m.data@ == w.data@ && m.events@ == w.events@
            &&& m.x == clamp(w.x + (px - o.drag_x), i32::MIN as int, i32::MAX as int)
            &&& m.y == clamp(w.y + (py - o.drag_y), i32::MIN + TITLE_HEIGHT, i32::MAX as int)
            &&& n.drag_x == px && n.drag_y == py
            &&& n.redraws@ == scheduled(scheduled(base, w.frame()), m.frame())
        } else {
            &&& n.windows@ == o.windows@
            &&& n.drag_x == o.drag_x && n.drag_y == o.drag_y
            &&& n.redraws@ == base
        }
    } else {
        &&& !n.dragging
        &&& n.windows@ == o.windows@
        &&& n.drag_x == o.drag_x && n.drag_y == o.drag_y
        &&& n.redraws@ == base
    }
}

/// The state after a pointer event `ev` at `(px, py)` with no drag on: the
/// front-most window under the pointer takes it.
pub open spec fn scan_result(o: OrbitalScheme, n: OrbitalScheme, base: Seq<Rect>, ev: Event, px: i32, py: i32) -> bool {
    let ows = o.windows@;
    let nws = n.windows@;
    let pressed = ev.c > 0;
    &&& n.cursor_x == px && n.cursor_y == py
    &&& n.redraws@ == base
    &&& if exists|i: int| first_target(ows, px as int, py as int, i) {
        let i = choose|i: int| first_target(ows, px as int, py as int, i);
        let w = ows[i];
        if w.content_hit(px as int, py as int) {
            let local = Event { code: ev.code, a: (px - w.x) as i64, b: (py - w.y) as i64, c: ev.c };
            &&& placed(ows, nws, i, pressed)
            &&& queued(w, nws[slot(i, pressed)], local)
            &&& !n.dragging && n.drag_x == o.drag_x && n.drag_y == o.drag_y
        } else if !pressed {
            &&& nws == ows
            &&& !n.dragging && n.drag_x == o.drag_x && n.drag_y == o.drag_y
        } else if w.close_hit(px as int, py as int) {
            &&& placed(ows, nws, i, true)
            &&& queued(w, nws[0], quit_event())
            &&& !n.dragging && n.drag_x == o.drag_x && n.drag_y == o.drag_y
        } else {
            &&& placed(ows, nws, i, true)
            &&& nws[0] == w
            &&& n.dragging && n.drag_x == px && n.drag_y == py
        }
    } else {
        &&& nws == ows
        &&& !n.dragging && n.drag_x == o.drag_x && n.drag_y == o.drag_y
    }
}

/// The result of routing input event `ev` from state `o` to state `n`;
/// `r` tells whether the process-list hotkey came.
pub open spec fn routed(o: OrbitalScheme, n: OrbitalScheme, ev: Event, r: bool) -> bool {
    &&& r == is_hotkey(ev)
    &&& ev.code == EVENT_KEY ==> {
        if is_hotkey(ev) || o.windows@.len() == 0 {
            n == o
        } else {
            &&& placed(o.windows@, n.windows@, 0, false)
            &&& queued(o.windows@[0], n.windows@[0], ev)
            &&& n.redraws@ == o.redraws@
            &&& n.same_rest(&o)
        }
    }
    &&& ev.code == EVENT_MOUSE ==> {
        let px = ev.a as i32;
        let py = ev.b as i32;
        let base = cursor_damage(o, px, py);
        &&& o.dragging ==> drag_result(o, n, base, px, py, ev.c > 0)
        &&& !o.dragging ==> scan_result(o, n, base, ev, px, py)
        &&& n.width == o.width && n.height == o.height
        &&& n.cursor_w == o.cursor_w && n.cursor_h == o.cursor_h
        &&& n.next_id == o.next_id
        &&& n.next_x == o.next_x && n.next_y == o.next_y
        &&& n.todo@ == o.todo@
    }
    &&& ev.code != EVENT_KEY && ev.code != EVENT_MOUSE ==> n == o
}

impl OrbitalScheme {
    /// Moves the window at `i` to the front of the z-order.
    fn raise(&mut self, i: usize)
        requires
            old(self).wf(),
            i < old(self).windows@.len(),
        ensures
            final(self).wf(),
            final(self).windows@ == seq![old(self).windows@[i as int]] + old(self).windows@.remove(i as int),
            placed(old(self).windows@, final(self).windows@, i as int, true),
            final(self).windows@[0] == old(self).windows@[i as int],
            final(self).redraws@ == old(self).redraws@,
            final(self).same_rest(old(self)),
    {
        let ghost ows = self.windows@;
        let w = self.windows.remove(i);
        self.windows.insert(0, w);
        assert(self.windows@ =~= seq![ows[i as int]] + ows.remove(i as int));
        assert(self.windows@.subrange(1, self.windows@.len() as int) =~= ows.remove(i as int));
        assert forall|a: int, b: int|
            0 <= a < self.windows@.len() && 0 <= b < self.windows@.len() && a != b implies self.windows@[a].id
            != self.windows@[b].id by {
            let ia = if a == 0 { i as int } else if a - 1 < i { a - 1 } else { a };
            let ib = if b == 0 { i as int } else if b - 1 < i { b - 1 } else { b };
            assert(self.windows@[a] == ows[ia]);
            assert(self.windows@[b] == ows[ib]);
        }
        assert forall|a: int| 0 <= a < self.windows@.len() implies (#[trigger] self.windows@[a]).wf()
            && self.windows@[a].id >= 1 by {
            let ia = if a == 0 { i as int } else if a - 1 < i { a - 1 } else { a };
            assert(self.windows@[a] == ows[ia]);
        }
    }

    /// Damages the old and new cursor rectangles where the pointer moved.
    fn move_cursor(&mut self, px: i32, py: i32)
        requires
            old(self).wf(),
        ensures
            final(self).wf(),
            final(self).cursor_x == px && final(self).cursor_y == py,
            final(self).redraws@ == cursor_damage(*old(self), px, py),
            final(self).windows@ == old(self).windows@,
            final(self).width == old(self).width && final(self).height == old(self).height,
            final(self).cursor_w == old(self).cursor_w && final(self).cursor_h == old(self).cursor_h,
            final(self).dragging == old(self).dragging,
            final(self).drag_x == old(self).drag_x && final(self).drag_y == old(self).drag_y,
            final(self).next_id == old(self).next_id,
            final(self).next_x == old(self).next_x && final(self).next_y == old(self).next_y,
            final(self).todo@ == old(self).todo@,
    {
        if px != self.cursor_x || py != self.cursor_y {
            schedule(&mut self.redraws, self.cursor_x, self.cursor_y, self.cursor_w, self.cursor_h);
            self.cursor_x = px;
            self.cursor_y = py;
            schedule(&mut self.redraws, self.cursor_x, self.cursor_y, self.cursor_w, self.cursor_h);
        }
    }

    /// One step of a drag: the front window follows the pointer while the
    /// button is held; the drag ends otherwise.
    fn drag_step(&mut self, held: bool)
        requires
            old(self).wf(),
            old(self).dragging,
        ensures
            final(self).wf(),
            drag_result(*old(self), *final(self), old(self).redraws@, old(self).cursor_x, old(self).cursor_y, held),
            final(self).width == old(self).width && final(self).height == old(self).height,
            final(self).cursor_w == old(self).cursor_w && final(self).cursor_h == old(self).cursor_h,
            final(self).next_id == old(self).next_id,
            final(self).next_x == old(self).next_x && final(self).next_y == old(self).next_y,
            final(self).todo@ == old(self).todo@,
    {
        if held && self.windows.len() > 0 {
            if self.drag_x != self.cursor_x || self.drag_y != self.cursor_y {
                let ghost ows = self.windows@;
                let frame = self.windows[0].frame_rect();
                schedule(&mut self.redraws, frame.x, frame.y, frame.w, frame.h);
                let dx = self.cursor_x as i64 - self.drag_x as i64;
                let dy = self.cursor_y as i64 - self.drag_y as i64;
                let nx = self.windows[0].x as i64 + dx;
                let ny = self.windows[0].y as i64 + dy;
                let cx = if nx < i32::MIN as i64 { i32::MIN } else if nx > i32::MAX as i64 { i32::MAX } else { nx as i32 };
                let cy = if ny < (i32::MIN + TITLE_HEIGHT) as i64 {
                    i32::MIN + TITLE_HEIGHT
                } else if ny > i32::MAX as i64 {
                    i32::MAX
                } else {
                    ny as i32
                };
                self.windows[0].x = cx;
                self.windows[0].y = cy;
                self.drag_x = self.cursor_x;
                self.drag_y = self.cursor_y;
                let frame2 = self.windows[0].frame_rect();
                schedule(&mut self.redraws, frame2.x, frame2.y, frame2.w, frame2.h);
                assert(self.windows@.len() == ows.len());
                assert(forall|j: int| 1 <= j < ows.len() ==> self.windows@[j] == ows[j]);
                assert(self.windows@[0].title@ == ows[0].title@);
                assert(self.windows@[0].x == clamp(ows[0].x + (old(self).cursor_x - old(self).drag_x), i32::MIN as int, i32::MAX as int));
                assert(self.windows@[0].y == clamp(ows[0].y + (old(self).cursor_y - old(self).drag_y), i32::MIN + TITLE_HEIGHT, i32::MAX as int));
                assert(frame == ows[0].frame());
                assert forall|a: int, b: int|
                    0 <= a < self.windows@.len() && 0 <= b < self.windows@.len() && a != b implies self.windows@[a].id
                    != self.windows@[b].id by {
                    assert(self.windows@[a].id == ows[a].id);
                    assert(self.windows@[b].id == ows[b].id);
                }
                assert forall|a: int| 0 <= a < self.windows@.len() implies (#[trigger] self.windows@[a]).wf()
                    && self.windows@[a].id >= 1 by {
                    if a > 0 {
                        assert(self.windows@[a] == ows[a]);
                    }
                }
            }
        } else {
            self.dragging = false;
        }
    }

    /// Queues `e` for the client of the window at `i`.
    fn queue_event(&mut self, i: usize, e: Event)
        requires
            old(self).wf(),
            i < old(self).windows@.len(),
        ensures
            final(self).wf(),
            placed(old(self).windows@, final(self).windows@, i as int, false),
            queued(old(self).windows@[i as int], final(self).windows@[i as int], e),
            final(self).redraws@ == old(self).redraws@,
            final(self).same_rest(old(self)),
    {
        let ghost ows = self.windows@;
        self.windows[i].event(e);
        assert forall|a: int, b: int|
            0 <= a < self.windows@.len() && 0 <= b < self.windows@.len() && a != b implies self.windows@[a].id
            != self.windows@[b].id by {
            assert(self.windows@[a].id == ows[a].id);
            assert(self.windows@[b].id == ows[b].id);
        }
        assert forall|a: int| 0 <= a < self.windows@.len() implies (#[trigger] self.windows@[a]).wf()
            && self.windows@[a].id >= 1 by {
            if a != i {
                assert(self.windows@[a] == ows[a]);
            }
        }
    }

    /// A pointer event with no drag on: the front-most window under the
    /// pointer takes it, and a press raises that window.
    fn pointer_scan(&mut self, ev: Event, px: i32, py: i32)
        requires
            old(self).wf(),
            !old(self).dragging,
            old(self).cursor_x == px && old(self).cursor_y == py,
        ensures
            final(self).wf(),
            scan_result(*old(self), *final(self), old(self).redraws@, ev, px, py),
            final(self).width == old(self).width && final(self).height == old(self).height,
            final(self).cursor_w == old(self).cursor_w && final(self).cursor_h == old(self).cursor_h,
            final(self).next_id == old(self).next_id,
            final(self).next_x == old(self).next_x && final(self).next_y == old(self).next_y,
            final(self).todo@ == old(self).todo@,
    {
        match self.target(px, py) {
            None => {},
            Some(i) => {
                proof { lemma_first_target(self.windows@, px as int, py as int, i as int); }
                let pressed = ev.c > 0;
                if self.windows[i].contains(px, py) {
                    let local = Event::new(
                        ev.code,
                        px as i64 - self.windows[i].x as i64,
                        py as i64 - self.windows[i].y as i64,
                        ev.c,
                    );
                    self.queue_event(i, local);
                    if pressed {
                        let ghost mid = self.windows@;
                        self.raise(i);
                        assert(mid.remove(i as int) =~= old(self).windows@.remove(i as int));
                    }
                } else if pressed {
                    if self.windows[i].exit_contains(px, py) {
                        self.queue_event(i, Event::quit());
                        let ghost mid = self.windows@;
                        self.raise(i);
                        assert(mid.remove(i as int) =~= old(self).windows@.remove(i as int));
                    } else {
                        self.dragging = true;
                        self.drag_x = self.cursor_x;
                        self.drag_y = self.cursor_y;
                        self.raise(i);
                    }
                }
            },
        }
    }

    /// Routes one input event. A process-list hotkey is only reported
    /// (`true`); other keys go to the focused window; pointer events move
    /// the cursor, then continue a drag or go to the window under the
    /// pointer.
    pub fn event(&mut self, ev: Event) -> (r: bool)
        requires
            old(self).wf(),
        ensures
            final(self).wf(),
            routed(*old(self), *final(self), ev, r),
    {
        if ev.code == EVENT_KEY {
            if ev.b as u8 == K_F1 && ev.c > 0 {
                return true;
            }
            if self.windows.len() > 0 {
                self.queue_event(0, ev);
            }
            false
        } else if ev.code == EVENT_MOUSE {
            let px = ev.a as i32;
            let py = ev.b as i32;
            self.move_cursor(px, py);
            if self.dragging {
                self.drag_step(ev.c > 0);
            } else {
                self.pointer_scan(ev, px, py);
            }
            false
        } else {
            false
        }
    }

    /// The front-most window whose content or title bar holds `(px, py)`.
    fn target(&self, px: i32, py: i32) -> (r: Option<usize>)
        ensures
            r matches Some(i) ==> first_target(self.windows@, px as int, py as int, i as int),
            r is None ==> forall|j: int| 0 <= j < self.windows@.len() ==> !hits(#[trigger] self.windows@[j], px as int, py as int),
    {
        let mut i: usize = 0;
        while i < self.windows.len()
            invariant
                i <= self.windows@.len(),
                forall|j: int| 0 <= j < i ==> !hits(#[trigger] self.windows@[j], px as int, py as int),
            decreases self.windows@.len() - i,
        {
            if self.windows[i].contains(px, py) || self.windows[i].title_contains(px, py) {
                return Some(i);
            }
            i = i + 1;
        }
        None
    }
}

proof fn lemma_first_target(ws: Seq<Window>, px: int, py: int, i: int)
    requires
        first_target(ws, px, py, i),
    ensures
        (choose|k: int| first_target(ws, px, py, k)) == i,
{
    assert forall|k: int| first_target(ws, px, py, k) implies k == i by {
        if k < i {
            assert(!hits(ws[k], px, py));
        } else if k > i {
            assert(!hits(ws[i], px, py));
        }
    }
}

/// A pointer event with no button held and no drag on leaves the z-order
/// as it is.
pub proof fn lemma_hover_keeps_order(o: OrbitalScheme, n: OrbitalScheme, ev: Event, r: bool)
    requires
        routed(o, n, ev, r),
        ev.code == EVENT_MOUSE,
        ev.c <= 0,
        !o.dragging,
    ensures
        order_of(n.windows@) == order_of(o.windows@),
{
    let px = ev.a as i32;
    let py = ev.b as i32;
    if exists|i: int| first_target(o.windows@, px as int, py as int, i) {
        let i = choose|i: int| first_target(o.windows@, px as int, py as int, i);
        if o.windows@[i].content_hit(px as int, py as int) {
            assert forall|j: int| 0 <= j < o.windows@.len() implies n.windows@[j].id == o.windows@[j].id by {
                if j != i {
                    assert(n.windows@[j] == o.windows@[j]);
                }
            }
        }
    }
    assert(order_of(n.windows@) =~= order_of(o.windows@));
}

/// A press with no drag on brings the front-most window under the pointer,
/// by content or by title bar, to the front of the z-order.
pub proof fn lemma_press_raises(o: OrbitalScheme, n: OrbitalScheme, ev: Event, r: bool, i: int)
    requires
        routed(o, n, ev, r),
        ev.code == EVENT_MOUSE,
        ev.c > 0,
        !o.dragging,
        first_target(o.windows@, (ev.a as i32) as int, (ev.b as i32) as int, i),
    ensures
        order_of(n.windows@)[0] == o.windows@[i].id,
        order_of(n.windows@).len() == order_of(o.windows@).len(),
{
    lemma_first_target(o.windows@, (ev.a as i32) as int, (ev.b as i32) as int, i);
}

} // verus!
