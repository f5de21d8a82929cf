use vstd::prelude::*;

use crate::event::Event;
use crate::rect::{rect_of, Rect};

verus! {

/// Height of the title bar drawn above a window's content area.
pub const TITLE_HEIGHT: i32 = 18;

/// Width of the close control at the right end of the title bar.
pub const CLOSE_WIDTH: i32 = 10;

/// One client's visible surface.
pub struct Window {
    pub id: u64,
    pub x: i32,
    pub y: i32,
    pub w: i32,
    pub h: i32,
    pub title: Vec<char>,
    /// Raw content bytes last written by the client.
    pub data: Vec<u8>,
    /// Input awaiting delivery on the client's next read.
    pub events: Vec<Event>,
}

impl Window {
    /// The geometry leaves room for the title bar in `i32` arithmetic.
    pub open spec fn wf(&self) -> bool {
        self.y >= i32::MIN + TITLE_HEIGHT && self.h <= i32::MAX - TITLE_HEIGHT
    }

    /// The window's screen rectangle, title bar included.
    pub open spec fn frame(&self) -> Rect {
        rect_of(self.x as int, self.y - TITLE_HEIGHT, self.w as int, self.h + TITLE_HEIGHT)
    }

    pub open spec fn content_hit(&self, px: int, py: int) -> bool {
        self.x <= px < self.x + self.w && self.y <= py < self.y + self.h
    }

    pub open spec fn title_hit(&self, px: int, py: int) -> bool {
        self.x <= px < self.x + self.w && self.y - TITLE_HEIGHT <= py < self.y
    }

    pub open spec fn close_hit(&self, px: int, py: int) -> bool {
        self.title_hit(px, py) && px >= self.x + self.w - CLOSE_WIDTH
    }

    pub fn new(id: u64, x: i32, y: i32, w: i32, h: i32, title: Vec<char>) -> (r: Window)
        ensures
            r.id == id && r.x == x && r.y == y && r.w == w && r.h == h,
            r.title@ == title@,
            r.data@.len() == 0,
            r.events@.len() == 0,
    {
        Window { id, x, y, w, h, title, data: Vec::new(), events: Vec::new() }
    }

    /// The screen rectangle with the title bar, as scheduled for redraw.
    pub fn frame_rect(&self) -> (r: Rect)
        requires
            self.wf(),
        ensures
            r == self.frame(),
            r == (Rect { x: self.x, y: (self.y - TITLE_HEIGHT) as i32, w: self.w, h: (self.h + TITLE_HEIGHT) as i32 }),
    {
        Rect { x: self.x, y: self.y - TITLE_HEIGHT, w: self.w, h: self.h + TITLE_HEIGHT }
    }

    /// Whether `(px, py)` lies in the content area.
    pub fn contains(&self, px: i32, py: i32) -> (r: bool)
        ensures
            r == self.content_hit(px as int, py as int),
    {
        self.x <= px && (px as i64) < self.x as i64 + self.w as i64 && self.y <= py && (py as i64)
            < self.y as i64 + self.h as i64
    }

    /// Whether `(px, py)` lies in the title bar.
    pub fn title_contains(&self, px: i32, py: i32) -> (r: bool)
        ensures
            r == self.title_hit(px as int, py as int),
    {
        self.x <= px && (px as i64) < self.x as i64 + self.w as i64 && self.y as i64
            - TITLE_HEIGHT as i64 <= py as i64 && py < self.y
    }

    /// Whether `(px, py)` lies on the close control of the title bar.
    pub fn exit_contains(&self, px: i32, py: i32) -> (r: bool)
        ensures
            r == self.close_hit(px as int, py as int),
    {
        self.title_contains(px, py) && px as i64 >= self.x as i64 + self.w as i64 - CLOSE_WIDTH as i64
    }

    /// Queues an input event for the client.
    pub fn event(&mut self, ev: Event)
        ensures
            final(self).events@ == old(self).events@.push(ev),
            final(self).id == old(self).id && final(self).x == old(self).x && final(self).y == old(self).y,
            final(self).w == old(self).w && final(self).h == old(self).h,
            final(self).title@ == old(self).title@ && final(self).data@ == old(self).data@,
    {
        self.events.push(ev);
    }

    /// Hands out the oldest `min(max, pending)` queued events.
    pub fn read(&mut self, max: usize) -> (r: Vec<Event>)
        ensures
            r@ == old(self).events@.take(taken(old(self).events@.len() as int, max as int)),
            final(self).events@ == old(self).events@.skip(taken(old(self).events@.len() as int, max as int)),
            final(self).id == old(self).id && final(self).x == old(self).x && final(self).y == old(self).y,
            final(self).w == old(self).w && final(self).h == old(self).h,
            final(self).title@ == old(self).title@ && final(self).data@ == old(self).data@,
    {
        let k = if max < self.events.len() { max } else { self.events.len() };
        let mut out = self.events.split_off(k);
        std::mem::swap(&mut self.events, &mut out);
        out
    }

    /// Takes new content from the client; answers the number of bytes taken.
    pub fn write(&mut self, buf: Vec<u8>) -> (r: usize)
        ensures
            r == buf@.len(),
            final(self).data@ == buf@,
            final(self).id == old(self).id && final(self).x == old(self).x && final(self).y == old(self).y,
            final(self).w == old(self).w && final(self).h == old(self).h,
            final(self).title@ == old(self).title@ && final(self).events@ == old(self).events@,
    {
        let n = buf.len();
        self.data = buf;
        n
    }
}

/// How many of `pending` queued events a read of at most `max` delivers.
pub open spec fn taken(pending: int, max: int) -> int {
    if max < pending {
        max
    } else {
        pending
    }
}

} // verus!
