use vstd::prelude::*;

use crate::model::primitive::pti;
use crate::model::primitive::point::PtI;

verus! {

/// An integer rectangle given by its bottom-left corner `(x, y)` and its
/// size; the top edge is `y + h` and the right edge is `x + w`.
#[derive(PartialEq, Eq, Structural, Debug, Default, Copy, Clone)]
pub struct RtI {
    x: i64,
    y: i64,
    w: i64,
    h: i64,
}

/// The four numbers that make a rectangle: corner, width and height.
pub struct RectModel {
    pub x: int,
    pub y: int,
    pub w: int,
    pub h: int,
}

impl View for RtI {
    type V = RectModel;

    closed spec fn view(&self) -> RectModel {
        RectModel { x: self.x as int, y: self.y as int, w: self.w as int, h: self.h as int }
    }
}

impl RtI {
    /// True iff the right and top edges are representable.
    pub open spec fn edges_fit(&self) -> bool {
        &&& i64::MIN <= self@.x + self@.w <= i64::MAX
        &&& i64::MIN <= self@.y + self@.h <= i64::MAX
    }

    /// True iff the right edge is representable.
    pub open spec fn right_fits(&self) -> bool {
        i64::MIN <= self@.x + self@.w <= i64::MAX
    }

    /// True iff the top edge is representable.
    pub open spec fn top_fits(&self) -> bool {
        i64::MIN <= self@.y + self@.h <= i64::MAX
    }

    pub fn new(x: i64, y: i64, w: i64, h: i64) -> (r: Self)
        ensures
            r@ == (RectModel { x: x as int, y: y as int, w: w as int, h: h as int }),
    {
        Self { x, y, w, h }
    }

    pub fn w(&self) -> (r: i64)
        ensures
            r == self@.w,
    {
        self.w
    }

    pub fn h(&self) -> (r: i64)
        ensures
            r == self@.h,
    {
        self.h
    }

    /// The left edge.
    pub fn l(&self) -> (r: i64)
        ensures
            r == self@.x,
    {
        self.x
    }

    /// The top edge.
    pub fn t(&self) -> (r: i64)
        requires
            self.top_fits(),
        ensures
            r == self@.y + self@.h,
    {
        self.y + self.h
    }

    /// The right edge.
    pub fn r(&self) -> (r: i64)
        requires
            self.right_fits(),
        ensures
            r == self@.x + self@.w,
    {
        self.x + self.w
    }

    /// The bottom edge.
    pub fn b(&self) -> (r: i64)
        ensures
            r == self@.y,
    {
        self.y
    }

    pub fn bl(&self) -> (p: PtI)
        ensures
            p == (PtI { x: self@.x as i64, y: self@.y as i64 }),
    {
        pti(self.l(), self.b())
    }

    pub fn br(&self) -> (p: PtI)
        requires
            self.right_fits(),
        ensures
            p.x == self@.x + self@.w,
            p.y == self@.y,
    {
        pti(self.r(), self.b())
    }

    pub fn tl(&self) -> (p: PtI)
        requires
            self.top_fits(),
        ensures
            p.x == self@.x,
            p.y == self@.y + self@.h,
    {
        pti(self.l(), self.t())
    }

    pub fn tr(&self) -> (p: PtI)
        requires
            self.edges_fit(),
        ensures
            p.x == self@.x + self@.w,
            p.y == self@.y + self@.h,
    {
        pti(self.r(), self.t())
    }

    /// The smallest rectangle that holds both points.
    pub fn enclosing(pa: PtI, pb: PtI) -> (r: RtI)
        requires
            i64::MIN <= max_i(pa.x, pb.x) - min_i(pa.x, pb.x) <= i64::MAX,
            i64::MIN <= max_i(pa.y, pb.y) - min_i(pa.y, pb.y) <= i64::MAX,
        ensures
            r@.x == min_i(pa.x, pb.x),
            r@.y == min_i(pa.y, pb.y),
            r@.x + r@.w == max_i(pa.x, pb.x),
            r@.y + r@.h == max_i(pa.y, pb.y),
    {
        let x = if pb.x < pa.x { pb.x } else { pa.x };
        let y = if pb.y < pa.y { pb.y } else { pa.y };
        let r = if pa.x < pb.x { pb.x } else { pa.x };
        let t = if pa.y < pb.y { pb.y } else { pa.y };
        RtI::new(x, y, r - x, t - y)
    }
}

/// The smaller of two integers.
pub open spec fn min_i(a: i64, b: i64) -> int {
    if a <= b { a as int } else { b as int }
}

/// The larger of two integers.
pub open spec fn max_i(a: i64, b: i64) -> int {
    if a >= b { a as int } else { b as int }
}

} // verus!
