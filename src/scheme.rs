use vstd::prelude::*;
use vstd::string::*;

use crate::damage::{schedule, scheduled};
use crate::event::Event;
use crate::path::{decimal, field_value, parse_open_path, push_decimal, segment, tail_from};
use crate::rect::Rect;
use crate::window::{taken, Window, TITLE_HEIGHT};

verus! {

/// Largest window id; ids wrap back to 1 after it.
pub const MAX_ID: u64 = 0x7fff_ffff_ffff_ffff;

/// Step of the cascade that places windows opened without a position.
pub const CASCADE_STEP: i32 = 20;

/// Why a request on a window failed.
#[derive(Copy, Clone, Debug, PartialEq, Eq, Structural)]
pub enum SchemeError {
    /// No window has the given id.
    NotFound,
    /// Every window id is taken by an open window.
    NoFreeId,
}

/// The shared state of the display server: the windows in z-order (front,
/// the focused window, first), the damage list, the pointer and drag state,
/// the counters for new windows and the deferred client requests.
pub struct OrbitalScheme {
    pub width: i32,
    pub height: i32,
    pub cursor_x: i32,
    pub cursor_y: i32,
    pub cursor_w: i32,
    pub cursor_h: i32,
    pub dragging: bool,
    pub drag_x: i32,
    pub drag_y: i32,
    pub next_id: u64,
    pub next_x: i32,
    pub next_y: i32,
    pub windows: Vec<Window>,
    pub redraws: Vec<Rect>,
    pub todo: Vec<crate::dispatch::Request>,
}

pub open spec fn ids_unique(ws: Seq<Window>) -> bool {
    forall|i: int, j: int| 0 <= i < ws.len() && 0 <= j < ws.len() && i != j ==> ws[i].id != ws[j].id
}

pub open spec fn has_id(ws: Seq<Window>, id: u64) -> bool {
    exists|i: int| 0 <= i < ws.len() && ws[i].id == id
}

/// The z-order position of the window `id`.
pub open spec fn index_of(ws: Seq<Window>, id: u64) -> int {
    choose|i: int| 0 <= i < ws.len() && ws[i].id == id
}

/// The `k`-th id after `start` in the cycle `1, 2, ..., MAX_ID, 1, ...`.
pub open spec fn cyc(start: u64, k: int) -> u64 {
    (((start - 1 + k) % (MAX_ID as int)) + 1) as u64
}

/// `id` is the first id, going round the cycle from `start`, that no window
/// of `ws` holds.
pub open spec fn first_free(ws: Seq<Window>, start: u64, id: u64) -> bool {
    &&& !has_id(ws, id)
    &&& exists|k: int|
        0 <= k < MAX_ID && #[trigger] cyc(start, k) == id && forall|j: int|
            0 <= j < k ==> has_id(ws, #[trigger] cyc(start, j))
}

/// Every id in `1..=MAX_ID` is held by a window of `ws`.
pub open spec fn ids_exhausted(ws: Seq<Window>) -> bool {
    forall|c: u64| 1 <= c <= MAX_ID ==> #[trigger] has_id(ws, c)
}

/// The ids in z-order, front first.
pub open spec fn order_of(ws: Seq<Window>) -> Seq<u64> {
    ws.map_values(|w: Window| w.id)
}

pub open spec fn id_after(id: u64) -> u64 {
    if id >= MAX_ID {
        1
    } else {
        (id + 1) as u64
    }
}

/// The next value of a cascade counter on a screen side of length `limit`.
pub open spec fn cascade(c: int, limit: int) -> int {
    if c + CASCADE_STEP + CASCADE_STEP >= limit {
        CASCADE_STEP as int
    } else {
        c + CASCADE_STEP
    }
}

/// A vertical position that leaves room for the title bar; any other reads
/// as zero.
pub open spec fn usable_y(y: int) -> int {
    if y >= i32::MIN + TITLE_HEIGHT {
        y
    } else {
        0
    }
}

/// A height that leaves room for the title bar; any other reads as zero.
pub open spec fn usable_h(h: int) -> int {
    if h <= i32::MAX - TITLE_HEIGHT {
        h
    } else {
        0
    }
}

/// `w2` is `w1` with `e` queued for its client.
pub open spec fn queued(w1: Window, w2: Window, e: Event) -> bool {
    &&& w2.events@ == w1.events@.push(e)
    &&& same_but_events(w1, w2)
    &&& w2.data@ == w1.data@
}

pub open spec fn same_but_events(w1: Window, w2: Window) -> bool {
    &&& w2.id == w1.id
    &&& w2.x == w1.x
    &&& w2.y == w1.y
    &&& w2.w == w1.w
    &&& w2.h == w1.h
    &&& w2.title@ == w1.title@
}

/// The text that names a window: `orbital:/<x>/<y>/<width>/<height>/<title>`.
pub open spec fn path_text(w: Window) -> Seq<char> {
    seq!['o', 'r', 'b', 'i', 't', 'a', 'l', ':', '/'] + decimal(w.x as int) + seq!['/'] + decimal(w.y as int)
        + seq!['/'] + decimal(w.w as int) + seq!['/'] + decimal(w.h as int) + seq!['/'] + w.title@
}

impl OrbitalScheme {
    /// The invariant of the shared state.
    pub open spec fn wf(&self) -> bool {
        &&& ids_unique(self.windows@)
        &&& forall|i: int| 0 <= i < self.windows@.len() ==> (#[trigger] self.windows@[i]).wf() && self.windows@[i].id >= 1
        &&& 1 <= self.next_id <= MAX_ID
        &&& CASCADE_STEP <= self.next_x <= i32::MAX - CASCADE_STEP
        &&& CASCADE_STEP <= self.next_y <= i32::MAX - CASCADE_STEP
        &&& self.width >= 0
        &&& self.height >= 0
    }

    /// Fields other than the windows and the damage list are equal.
    pub open spec fn same_rest(&self, o: &Self) -> bool {
        &&& self.width == o.width
        &&& self.height == o.height
        &&& self.cursor_x == o.cursor_x
        &&& self.cursor_y == o.cursor_y
        &&& self.cursor_w == o.cursor_w
        &&& self.cursor_h == o.cursor_h
        &&& self.dragging == o.dragging
        &&& self.drag_x == o.drag_x
        &&& self.drag_y == o.drag_y
        &&& self.next_id == o.next_id
        &&& self.next_x == o.next_x
        &&& self.next_y == o.next_y
        &&& self.todo@ == o.todo@
    }

    /// The result of opening a window: `o` is the state before, `id` the
    /// new window's id, the first free one from `o.next_id` on, `(x, y, w, h, title)` the requested geometry and title.
    pub open spec fn opened(o: Self, n: Self, x: int, y: int, w: int, h: int, title: Seq<char>, id: u64) -> bool {
        let auto = x < 0 && y < 0;
        let px = if auto { o.next_x as int } else { x };
        let py = if auto { o.next_y as int } else { usable_y(y) };
        let nw = n.windows@[0];
        &&& first_free(o.windows@, o.next_id, id)
        &&& n.next_id == id_after(id)
        &&& n.next_x == cascade(o.next_x as int, o.width as int)
        &&& n.next_y == cascade(o.next_y as int, o.height as int)
        &&& n.windows@.len() >= 1
        &&& nw.id == id && nw.x == px && nw.y == py && nw.w == w && nw.h == usable_h(h)
        &&& nw.title@ == title && nw.data@.len() == 0 && nw.events@.len() == 0
        &&& n.windows@.skip(1) == o.windows@
        &&& n.redraws@ == scheduled(o.redraws@, nw.frame())
        &&& n.width == o.width && n.height == o.height
        &&& n.cursor_x == o.cursor_x && n.cursor_y == o.cursor_y
        &&& n.cursor_w == o.cursor_w && n.cursor_h == o.cursor_h
        &&& n.dragging == o.dragging && n.drag_x == o.drag_x && n.drag_y == o.drag_y
        &&& n.todo@ == o.todo@
    }

    /// The result of a read of at most `max` events from window `id`.
    pub open spec fn read_done(o: Self, n: Self, id: u64, max: usize, r: Result<Vec<Event>, SchemeError>) -> bool {
        &&& (!has_id(o.windows@, id) ==> r == Err::<Vec<Event>, SchemeError>(SchemeError::NotFound)
            && n == o)
        &&& (has_id(o.windows@, id) ==> {
            let i = index_of(o.windows@, id);
            let w = o.windows@[i];
            let k = taken(w.events@.len() as int, max as int);
            &&& r matches Ok(v) && v@ == w.events@.take(k)
            &&& n.windows@.len() == o.windows@.len()
            &&& forall|j: int| 0 <= j < o.windows@.len() && j != i ==> n.windows@[j] == o.windows@[j]
            &&& same_but_events(w, n.windows@[i])
            &&& n.windows@[i].data@ == w.data@
            &&& n.windows@[i].events@ == w.events@.skip(k)
            &&& n.redraws@ == o.redraws@
            &&& n.same_rest(&o)
        })
    }

    /// The result of writing `buf` to window `id`.
    pub open spec fn write_done(o: Self, n: Self, id: u64, buf: Seq<u8>, r: Result<usize, SchemeError>) -> bool {
        &&& (!has_id(o.windows@, id) ==> r == Err::<usize, SchemeError>(SchemeError::NotFound)
            && n == o)
        &&& (has_id(o.windows@, id) ==> {
            let i = index_of(o.windows@, id);
            let w = o.windows@[i];
            &&& r == Ok::<usize, SchemeError>(buf.len() as usize)
            &&& n.windows@.len() == o.windows@.len()
            &&& forall|j: int| 0 <= j < o.windows@.len() && j != i ==> n.windows@[j] == o.windows@[j]
            &&& same_but_events(w, n.windows@[i])
            &&& n.windows@[i].events@ == w.events@
            &&& n.windows@[i].data@ == buf
            &&& n.redraws@ == scheduled(o.redraws@, w.frame())
            &&& n.same_rest(&o)
        })
    }

    /// The result of closing window `id`.
    pub open spec fn close_done(o: Self, n: Self, id: u64, r: Result<usize, SchemeError>) -> bool {
        &&& (!has_id(o.windows@, id) ==> r == Err::<usize, SchemeError>(SchemeError::NotFound)
            && n == o)
        &&& (has_id(o.windows@, id) ==> {
            let i = index_of(o.windows@, id);
            &&& r == Ok::<usize, SchemeError>(0)
            &&& n.windows@ == o.windows@.remove(i)
            &&& n.redraws@ == scheduled(o.redraws@, o.windows@[i].frame())
            &&& n.same_rest(&o)
        })
    }

    /// A fresh server on a `width` x `height` screen with a cursor image of
    /// `cursor_w` x `cursor_h`; the whole screen is damaged.
    pub fn new(width: i32, height: i32, cursor_w: i32, cursor_h: i32) -> (r: OrbitalScheme)
        requires
            width >= 0,
            height >= 0,
        ensures
            r.wf(),
            r.width == width && r.height == height,
            r.cursor_x == 0 && r.cursor_y == 0 && r.cursor_w == cursor_w && r.cursor_h == cursor_h,
            !r.dragging && r.drag_x == 0 && r.drag_y == 0,
            r.next_id == 1 && r.next_x == CASCADE_STEP && r.next_y == CASCADE_STEP,
            r.windows@.len() == 0,
            r.redraws@ == seq![Rect { x: 0, y: 0, w: width, h: height }],
            r.todo@.len() == 0,
    {
        let mut redraws = Vec::new();
        redraws.push(Rect::new(0, 0, width, height));
        OrbitalScheme {
            width,
            height,
            cursor_x: 0,
            cursor_y: 0,
            cursor_w,
            cursor_h,
            dragging: false,
            drag_x: 0,
            drag_y: 0,
            next_id: 1,
            next_x: CASCADE_STEP,
            next_y: CASCADE_STEP,
            windows: Vec::new(),
            redraws,
            todo: Vec::new(),
        }
    }

    /// The z-order position of the window `id`, if it is open.
    pub fn find(&self, id: u64) -> (r: Option<usize>)
        requires
            self.wf(),
        ensures
            r is None <==> !has_id(self.windows@, id),
            r matches Some(i) ==> i == index_of(self.windows@, id) && i < self.windows@.len()
                && self.windows@[i as int].id == id,
    {
        let mut i: usize = 0;
        while i < self.windows.len()
            invariant
                self.wf(),
                i <= self.windows@.len(),
                forall|j: int| 0 <= j < i ==> self.windows@[j].id != id,
            decreases self.windows@.len() - i,
        {
            if self.windows[i].id == id {
                let ghost k = index_of(self.windows@, id);
                assert(0 <= k < self.windows@.len() && self.windows@[k].id == id);
                assert(self.windows@[i as int].id == id);
                proof {
                    if k != i as int {
                        assert(self.windows@[k].id != self.windows@[i as int].id);
                    }
                }
                return Some(i);
            }
            i = i + 1;
        }
        None
    }

    /// The first id, going round the cycle from `next_id`, that no open
    /// window holds.
    pub fn free_id(&self) -> (r: Option<u64>)
        requires
            self.wf(),
        ensures
            r matches Some(id) ==> first_free(self.windows@, self.next_id, id),
            r is None ==> ids_exhausted(self.windows@),
    {
        let ghost ws = self.windows@;
        let start = self.next_id;
        let mut cand = start;
        let mut k: u64 = 0;
        while k < MAX_ID
            invariant
                self.wf(),
                ws == self.windows@,
                start == self.next_id,
                k <= MAX_ID,
                k < MAX_ID ==> cand == cyc(start, k as int),
                forall|j: int| 0 <= j < k ==> has_id(ws, #[trigger] cyc(start, j)),
            decreases MAX_ID - k,
        {
            if self.find(cand).is_none() {
                return Some(cand);
            }
            assert(has_id(ws, cyc(start, k as int)));
            cand = if cand >= MAX_ID { 1 } else { cand + 1 };
            k = k + 1;
        }
        assert forall|c: u64| 1 <= c <= MAX_ID implies #[trigger] has_id(ws, c) by {
            let j: int = if c >= start { c - start } else { c - start + MAX_ID };
            assert(cyc(start, j) == c);
        }
        None
    }

    /// Opens a window with the given geometry and title and returns its id,
    /// the first free one from `next_id` on; fails only where every id is
    /// taken. A negative `x` and `y` together ask for the cascade position;
    /// the cascade counters advance on every open. The new window goes to
    /// the front of the z-order and its frame is damaged.
    pub fn open_window(&mut self, x: i32, y: i32, w: i32, h: i32, title: Vec<char>) -> (r: Result<u64, SchemeError>)
        requires
            old(self).wf(),
        ensures
            final(self).wf(),
            r matches Ok(id) ==> Self::opened(*old(self), *final(self), x as int, y as int, w as int, h as int, title@, id),
            r is Err ==> r == Err::<u64, SchemeError>(SchemeError::NoFreeId) && *final(self) == *old(self)
                && ids_exhausted(old(self).windows@),
    {
        let id = match self.free_id() {
            Some(id) => id,
            None => return Err(SchemeError::NoFreeId),
        };
        self.next_id = if id >= MAX_ID { 1 } else { id + 1 };
        let auto = x < 0 && y < 0;
        let px = if auto { self.next_x } else { x };
        let py = if auto { self.next_y } else if y >= i32::MIN + TITLE_HEIGHT { y } else { 0 };
        let ph = if h <= i32::MAX - TITLE_HEIGHT { h } else { 0 };

        let nx = self.next_x + CASCADE_STEP;
        self.next_x = if nx as i64 + CASCADE_STEP as i64 >= self.width as i64 { CASCADE_STEP } else { nx };
        let ny = self.next_y + CASCADE_STEP;
        self.next_y = if ny as i64 + CASCADE_STEP as i64 >= self.height as i64 { CASCADE_STEP } else { ny };

        let ghost before = self.windows@;
        let win = Window::new(id, px, py, w, ph, title);
        let frame = win.frame_rect();
        self.windows.insert(0, win);
        assert(self.windows@.skip(1) =~= before);
        assert forall|i: int, j: int|
            0 <= i < self.windows@.len() && 0 <= j < self.windows@.len() && i != j implies self.windows@[i].id
            != self.windows@[j].id by {
            if i > 0 && j > 0 {
                assert(self.windows@[i] == before[i - 1]);
                assert(self.windows@[j] == before[j - 1]);
            } else if i > 0 {
                assert(self.windows@[i] == before[i - 1]);
            } else {
                assert(self.windows@[j] == before[j - 1]);
            }
        }
        assert forall|i: int| 0 <= i < self.windows@.len() implies (#[trigger] self.windows@[i]).wf()
            && self.windows@[i].id >= 1 by {
            if i > 0 {
                assert(self.windows@[i] == before[i - 1]);
            }
        }
        schedule(&mut self.redraws, frame.x, frame.y, frame.w, frame.h);
        Ok(id)
    }

    /// Opens a window from a path `/<x>/<y>/<width>/<height>/<title...>`.
    pub fn open(&mut self, path: &str) -> (r: Result<u64, SchemeError>)
        requires
            old(self).wf(),
        ensures
            final(self).wf(),
            r is Err ==> r == Err::<u64, SchemeError>(SchemeError::NoFreeId) && *final(self) == *old(self)
                && ids_exhausted(old(self).windows@),
            r matches Ok(id) ==> Self::opened(
                *old(self),
                *final(self),
                field_value(segment(path@, 1)),
                field_value(segment(path@, 2)),
                field_value(segment(path@, 3)),
                field_value(segment(path@, 4)),
                tail_from(path@, 5),
                id,
            ),
    {
        let n = path.unicode_len();
        let mut chars: Vec<char> = Vec::new();
        let mut i: usize = 0;
        while i < n
            invariant
                n == path@.len(),
                i <= n,
                chars@ == path@.subrange(0, i as int),
            decreases n - i,
        {
            chars.push(path.get_char(i));
            i = i + 1;
        }
        assert(chars@ =~= path@);
        let p = parse_open_path(&chars);
        self.open_window(p.x, p.y, p.w, p.h, p.title)
    }

    /// Delivers up to `max` of the events queued for window `id`, oldest
    /// first.
    pub fn read(&mut self, id: u64, max: usize) -> (r: Result<Vec<Event>, SchemeError>)
        requires
            old(self).wf(),
        ensures
            final(self).wf(),
            Self::read_done(*old(self), *final(self), id, max, r),
    {
        match self.find(id) {
            Some(i) => {
                let v = self.windows[i].read(max);
                Ok(v)
            },
            None => Err(SchemeError::NotFound),
        }
    }

    /// Takes new content for window `id`, damaging its frame first; answers
    /// the number of bytes taken.
    pub fn write(&mut self, id: u64, buf: Vec<u8>) -> (r: Result<usize, SchemeError>)
        requires
            old(self).wf(),
        ensures
            final(self).wf(),
            Self::write_done(*old(self), *final(self), id, buf@, r),
    {
        match self.find(id) {
            Some(i) => {
                let frame = self.windows[i].frame_rect();
                schedule(&mut self.redraws, frame.x, frame.y, frame.w, frame.h);
                let n = self.windows[i].write(buf);
                Ok(n)
            },
            None => Err(SchemeError::NotFound),
        }
    }

    /// The path text that names window `id`.
    pub fn fpath(&self, id: u64) -> (r: Result<Vec<char>, SchemeError>)
        requires
            self.wf(),
        ensures
            !has_id(self.windows@, id) ==> r is Err,
            has_id(self.windows@, id) ==> (r matches Ok(v) && v@ == path_text(self.windows@[index_of(self.windows@, id)])),
            r matches Err(e) ==> e == SchemeError::NotFound,
    {
        match self.find(id) {
            Some(i) => {
                let w = &self.windows[i];
                let mut out: Vec<char> = Vec::new();
                out.push('o');
                out.push('r');
                out.push('b');
                out.push('i');
                out.push('t');
                out.push('a');
                out.push('l');
                out.push(':');
                out.push('/');
                push_decimal(&mut out, w.x);
                out.push('/');
                push_decimal(&mut out, w.y);
                out.push('/');
                push_decimal(&mut out, w.w);
                out.push('/');
                push_decimal(&mut out, w.h);
                out.push('/');
                let mut j: usize = 0;
                let ghost head = out@;
                while j < w.title.len()
                    invariant
                        j <= w.title@.len(),
                        out@ == head + w.title@.subrange(0, j as int),
                    decreases w.title@.len() - j,
                {
                    out.push(w.title[j]);
                    j = j + 1;
                }
                assert(out@ =~= path_text(self.windows@[index_of(self.windows@, id)]));
                Ok(out)
            },
            None => Err(SchemeError::NotFound),
        }
    }

    /// Closes window `id`: it leaves the z-order and its last frame is
    /// damaged. An unknown id changes nothing.
    pub fn close(&mut self, id: u64) -> (r: Result<usize, SchemeError>)
        requires
            old(self).wf(),
        ensures
            final(self).wf(),
            Self::close_done(*old(self), *final(self), id, r),
    {
        match self.find(id) {
            Some(i) => {
                let w = self.windows.remove(i);
                let frame = w.frame_rect();
                schedule(&mut self.redraws, frame.x, frame.y, frame.w, frame.h);
                Ok(0)
            },
            None => Err(SchemeError::NotFound),
        }
    }
}

/// Opening puts the new window, under an id that no open window held, at
/// the front of the z-order; after a second open, the window of the first
/// stands right behind it.
pub proof fn lemma_open_order(
    s0: OrbitalScheme,
    s1: OrbitalScheme,
    s2: OrbitalScheme,
    x1: int,
    y1: int,
    w1: int,
    h1: int,
    t1: Seq<char>,
    r1: u64,
    x2: int,
    y2: int,
    w2: int,
    h2: int,
    t2: Seq<char>,
    r2: u64,
)
    requires
        s0.wf(),
        OrbitalScheme::opened(s0, s1, x1, y1, w1, h1, t1, r1),
        OrbitalScheme::opened(s1, s2, x2, y2, w2, h2, t2, r2),
    ensures
        !order_of(s0.windows@).contains(r1),
        order_of(s1.windows@) == seq![r1] + order_of(s0.windows@),
        order_of(s1.windows@)[0] == r1,
        order_of(s2.windows@)[0] == r2,
        order_of(s2.windows@)[1] == r1,
{
    let w0 = s0.windows@;
    let w1 = s1.windows@;
    if order_of(w0).contains(r1) {
        let i = choose|i: int| 0 <= i < order_of(w0).len() && order_of(w0)[i] == r1;
        assert(w0[i].id == r1);
        assert(has_id(w0, r1));
    }
    assert forall|i: int| 1 <= i < w1.len() implies w1[i] == w0[i - 1] by {
        assert(w1.skip(1)[i - 1] == w1[i]);
    }
    assert(order_of(w1) =~= seq![r1] + order_of(w0));
    assert(s2.windows@[1] == s2.windows@.skip(1)[0]);
}

} // verus!
