use vstd::math::{max, min};
use vstd::prelude::*;

verus! {

/// An integer screen region with its top-left corner at `(x, y)`.
/// A rectangle with `w == 0 || h == 0` is empty and carries no pixels.
#[derive(Copy, Clone, Debug, Default, PartialEq, Eq, Structural)]
pub struct Rect {
    pub x: i32,
    pub y: i32,
    pub w: i32,
    pub h: i32,
}

/// The rectangle with the given corner and size, as a spec value.
pub open spec fn rect_of(x: int, y: int, w: int, h: int) -> Rect {
    Rect { x: x as i32, y: y as i32, w: w as i32, h: h as i32 }
}

/// Whether a mathematical integer fits in an `i32`.
pub open spec fn fits_i32(v: int) -> bool {
    i32::MIN <= v <= i32::MAX
}

impl Rect {
    pub open spec fn right(self) -> int {
        self.x + self.w
    }

    pub open spec fn bottom(self) -> int {
        self.y + self.h
    }

    pub open spec fn spec_area(self) -> int {
        self.w * self.h
    }

    /// `self` encloses every point of `o`.
    pub open spec fn covers(self, o: Rect) -> bool {
        self.x <= o.x && self.right() >= o.right() && self.y <= o.y && self.bottom() >= o.bottom()
    }

    /// The two regions share at least one pixel.
    pub open spec fn overlaps(self, o: Rect) -> bool {
        min(self.right(), o.right()) > max(self.x as int, o.x as int) && min(self.bottom(), o.bottom())
            > max(self.y as int, o.y as int)
    }

    pub open spec fn union_w(self, o: Rect) -> int {
        max(self.right(), o.right()) - min(self.x as int, o.x as int)
    }

    pub open spec fn union_h(self, o: Rect) -> int {
        max(self.bottom(), o.bottom()) - min(self.y as int, o.y as int)
    }

    /// The bounding union of the two regions is representable.
    pub open spec fn union_fits(self, o: Rect) -> bool {
        fits_i32(self.union_w(o)) && fits_i32(self.union_h(o))
    }

    /// The smallest rectangle enclosing both regions.
    pub open spec fn spec_container(self, o: Rect) -> Rect {
        rect_of(min(self.x as int, o.x as int), min(self.y as int, o.y as int), self.union_w(o), self.union_h(o))
    }

    pub open spec fn inter_w(self, o: Rect) -> int {
        min(self.right(), o.right()) - max(self.x as int, o.x as int)
    }

    pub open spec fn inter_h(self, o: Rect) -> int {
        min(self.bottom(), o.bottom()) - max(self.y as int, o.y as int)
    }

    /// The common part of the two regions is representable.
    pub open spec fn inter_fits(self, o: Rect) -> bool {
        fits_i32(self.inter_w(o)) && fits_i32(self.inter_h(o))
    }

    /// The common part of the two regions; its size is negative or zero
    /// where they do not overlap.
    pub open spec fn spec_intersection(self, o: Rect) -> Rect {
        rect_of(max(self.x as int, o.x as int), max(self.y as int, o.y as int), self.inter_w(o), self.inter_h(o))
    }

    pub fn new(x: i32, y: i32, w: i32, h: i32) -> (r: Rect)
        ensures
            r == (Rect { x, y, w, h }),
    {
        Rect { x: x, y: y, w: w, h: h }
    }

    /// The area `w * h`, widened so that it cannot overflow.
    pub fn area(&self) -> (r: i64)
        ensures
            r == self.spec_area(),
    {
        assert(-0x8000_0000_0000_0000 <= self.w * self.h <= 0x7fff_ffff_ffff_ffff) by (nonlinear_arith)
            requires
                i32::MIN <= self.w <= i32::MAX,
                i32::MIN <= self.h <= i32::MAX,
        ;
        (self.w as i64) * (self.h as i64)
    }

    /// Whether the union of the two regions is representable.
    pub fn container_fits(&self, other: &Rect) -> (r: bool)
        ensures
            r == self.union_fits(*other),
    {
        let x = if self.x < other.x { self.x as i64 } else { other.x as i64 };
        let y = if self.y < other.y { self.y as i64 } else { other.y as i64 };
        let r1 = self.x as i64 + self.w as i64;
        let r2 = other.x as i64 + other.w as i64;
        let b1 = self.y as i64 + self.h as i64;
        let b2 = other.y as i64 + other.h as i64;
        let w = (if r1 > r2 { r1 } else { r2 }) - x;
        let h = (if b1 > b2 { b1 } else { b2 }) - y;
        i32::MIN as i64 <= w && w <= i32::MAX as i64 && i32::MIN as i64 <= h && h <= i32::MAX as i64
    }

    /// The bounding union ("container") of the two regions.
    pub fn container(&self, other: &Rect) -> (r: Rect)
        requires
            self.union_fits(*other),
        ensures
            r == self.spec_container(*other),
    {
        let x = if self.x < other.x { self.x } else { other.x };
        let y = if self.y < other.y { self.y } else { other.y };
        let r1 = self.x as i64 + self.w as i64;
        let r2 = other.x as i64 + other.w as i64;
        let b1 = self.y as i64 + self.h as i64;
        let b2 = other.y as i64 + other.h as i64;
        let w = (if r1 > r2 { r1 } else { r2 }) - x as i64;
        let h = (if b1 > b2 { b1 } else { b2 }) - y as i64;
        Rect { x: x, y: y, w: w as i32, h: h as i32 }
    }

    /// Whether `other` lies wholly inside `self`.
    pub fn contains(&self, other: &Rect) -> (r: bool)
        ensures
            r == self.covers(*other),
    {
        self.x <= other.x && self.x as i64 + self.w as i64 >= other.x as i64 + other.w as i64
            && self.y <= other.y && self.y as i64 + self.h as i64 >= other.y as i64
            + other.h as i64
    }

    pub fn is_empty(&self) -> (r: bool)
        ensures
            r == (self.w == 0 || self.h == 0),
    {
        self.w == 0 || self.h == 0
    }

    /// Whether the two regions share at least one pixel.
    pub fn intersects(&self, other: &Rect) -> (r: bool)
        ensures
            r == self.overlaps(*other),
    {
        let x = if self.x > other.x { self.x } else { other.x };
        let y = if self.y > other.y { self.y } else { other.y };
        let r1 = self.x as i64 + self.w as i64;
        let r2 = other.x as i64 + other.w as i64;
        let b1 = self.y as i64 + self.h as i64;
        let b2 = other.y as i64 + other.h as i64;
        (if r1 < r2 { r1 } else { r2 }) > x as i64 && (if b1 < b2 { b1 } else { b2 }) > y as i64
    }

    /// The common part of the two regions.
    pub fn intersection(&self, other: &Rect) -> (r: Rect)
        requires
            self.inter_fits(*other),
        ensures
            r == self.spec_intersection(*other),
    {
        let x = if self.x > other.x { self.x } else { other.x };
        let y = if self.y > other.y { self.y } else { other.y };
        let r1 = self.x as i64 + self.w as i64;
        let r2 = other.x as i64 + other.w as i64;
        let b1 = self.y as i64 + self.h as i64;
        let b2 = other.y as i64 + other.h as i64;
        let w = (if r1 < r2 { r1 } else { r2 }) - x as i64;
        let h = (if b1 < b2 { b1 } else { b2 }) - y as i64;
        Rect { x: x, y: y, w: w as i32, h: h as i32 }
    }
}

} // verus!
