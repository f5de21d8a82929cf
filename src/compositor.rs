use vstd::math::{max, min};
use vstd::prelude::*;

use crate::rect::Rect;
use crate::scheme::OrbitalScheme;
use crate::window::Window;

verus! {

/// Bytes per framebuffer pixel.
pub const BYTES_PER_PIXEL: u64 = 4;

/// A window to draw in a pass, with whether it is the focused one.
#[derive(Copy, Clone, Debug, PartialEq, Eq, Structural)]
pub struct Layer {
    pub id: u64,
    pub focused: bool,
}

/// A row-contiguous run of framebuffer bytes to send to the display.
#[derive(Copy, Clone, Debug, PartialEq, Eq, Structural)]
pub struct Span {
    pub offset: u64,
    pub len: u64,
}

/// What recompositing one damaged rectangle takes: the windows to draw,
/// back to front, whether the cursor goes on top, and the framebuffer spans
/// to send.
pub struct Pass {
    pub rect: Rect,
    pub layers: Vec<Layer>,
    pub cursor: bool,
    pub spans: Vec<Span>,
}

/// The windows from z-order position `lo` on whose frames meet `rect`,
/// back to front.
pub open spec fn layers_from(ws: Seq<Window>, rect: Rect, lo: int) -> Seq<Layer>
    decreases ws.len() - lo,
{
    if lo < 0 || lo >= ws.len() {
        Seq::empty()
    } else {
        layers_from(ws, rect, lo + 1) + if ws[lo].frame().overlaps(rect) {
            seq![Layer { id: ws[lo].id, focused: lo == 0 }]
        } else {
            Seq::empty()
        }
    }
}

/// `v` clipped into `[lo, hi]` the way the framebuffer clip does it.
pub open spec fn clip(v: int, lo: int, hi: int) -> int {
    max(lo, min(hi, v))
}

/// The spans of `rect` clipped to a `width` x `height` framebuffer: one
/// per row, addressed by `(row * width + col) * BYTES_PER_PIXEL`.
pub open spec fn spans_ok(spans: Seq<Span>, rect: Rect, width: int, height: int) -> bool {
    let x1 = clip(rect.x as int, 0, width);
    let x2 = clip(rect.right(), x1, width);
    let y1 = clip(rect.y as int, 0, height);
    let y2 = clip(rect.bottom(), y1, height);
    &&& spans.len() == y2 - y1
    &&& forall|k: int|
        0 <= k < spans.len() ==> #[trigger] spans[k] == (Span {
            offset: (((y1 + k) * width + x1) * BYTES_PER_PIXEL) as u64,
            len: ((x2 - x1) * BYTES_PER_PIXEL) as u64,
        })
}

/// `p` is the pass that recomposites `rect` in state `s`.
pub open spec fn pass_of(s: OrbitalScheme, rect: Rect, p: Pass) -> bool {
    &&& p.rect == rect
    &&& p.layers@ == layers_from(s.windows@, rect, 0)
    &&& p.cursor == (Rect { x: s.cursor_x, y: s.cursor_y, w: s.cursor_w, h: s.cursor_h }).overlaps(rect)
    &&& spans_ok(p.spans@, rect, s.width as int, s.height as int)
}

impl OrbitalScheme {
    /// The pass that recomposites `rect`.
    pub fn plan(&self, rect: Rect) -> (p: Pass)
        requires
            self.wf(),
        ensures
            pass_of(*self, rect, p),
    {
        let n = self.windows.len();
        let mut layers: Vec<Layer> = Vec::new();
        let mut j = n;
        while j > 0
            invariant
                j <= n == self.windows@.len(),
                self.wf(),
                layers@ == layers_from(self.windows@, rect, j as int),
            decreases j,
        {
            j = j - 1;
            let frame = self.windows[j].frame_rect();
            if frame.intersects(&rect) {
                layers.push(Layer { id: self.windows[j].id, focused: j == 0 });
            }
            assert(layers@ =~= layers_from(self.windows@, rect, j as int));
        }
        let cursor_rect = Rect::new(self.cursor_x, self.cursor_y, self.cursor_w, self.cursor_h);
        let cursor = cursor_rect.intersects(&rect);

        let w = self.width as i64;
        let h = self.height as i64;
        let right = rect.x as i64 + rect.w as i64;
        let bottom = rect.y as i64 + rect.h as i64;
        let x1 = if (rect.x as i64) < w { if rect.x < 0 { 0 } else { rect.x as i64 } } else { w };
        let x2 = if right < w { if right < x1 { x1 } else { right } } else { w };
        let y1 = if (rect.y as i64) < h { if rect.y < 0 { 0 } else { rect.y as i64 } } else { h };
        let y2 = if bottom < h { if bottom < y1 { y1 } else { bottom } } else { h };
        let mut spans: Vec<Span> = Vec::new();
        let mut row = y1;
        while row < y2
            invariant
                0 <= x1 <= x2 <= w,
                0 <= y1 <= row <= y2 <= h,
                w == self.width,
                h == self.height,
                w <= i32::MAX,
                h <= i32::MAX,
                x1 == clip(rect.x as int, 0, w as int),
                x2 == clip(rect.right(), x1 as int, w as int),
                spans@.len() == row - y1,
                forall|k: int|
                    0 <= k < spans@.len() ==> #[trigger] spans@[k] == (Span {
                        offset: (((y1 + k) * w + x1) * BYTES_PER_PIXEL) as u64,
                        len: ((x2 - x1) * BYTES_PER_PIXEL) as u64,
                    }),
            decreases y2 - row,
        {
            assert(0 <= row * w + x1 <= 0x3fff_ffff_0000_0001) by (nonlinear_arith)
                requires
                    0 <= row < h <= i32::MAX,
                    0 <= x1 <= w <= i32::MAX,
            ;
            let off = ((row * w + x1) as u64) * BYTES_PER_PIXEL;
            let len = ((x2 - x1) as u64) * BYTES_PER_PIXEL;
            spans.push(Span { offset: off, len });
            row = row + 1;
        }
        Pass { rect, layers, cursor, spans }
    }

    /// A compositor pass: drains the damage list and plans one pass per
    /// rectangle, in the order they were scheduled.
    pub fn redraw(&mut self) -> (r: Vec<Pass>)
        requires
            old(self).wf(),
        ensures
            final(self).wf(),
            final(self).redraws@.len() == 0,
            final(self).windows@ == old(self).windows@,
            final(self).same_rest(old(self)),
            r@.len() == old(self).redraws@.len(),
            forall|k: int| 0 <= k < r@.len() ==> pass_of(*old(self), old(self).redraws@[k], #[trigger] r@[k]),
    {
        let mut rects: Vec<Rect> = Vec::new();
        std::mem::swap(&mut self.redraws, &mut rects);
        let mut passes: Vec<Pass> = Vec::new();
        let mut i: usize = 0;
        while i < rects.len()
            invariant
                self.wf(),
                self.redraws@.len() == 0,
                self.windows@ == old(self).windows@,
                self.same_rest(old(self)),
                rects@ == old(self).redraws@,
                i <= rects@.len(),
                passes@.len() == i,
                forall|k: int| 0 <= k < i ==> pass_of(*old(self), old(self).redraws@[k], #[trigger] passes@[k]),
            decreases rects@.len() - i,
        {
            let p = self.plan(rects[i]);
            passes.push(p);
            i = i + 1;
        }
        passes
    }
}

} // verus!
