use vstd::prelude::*;

use crate::model::geom::trunc_div;
use crate::model::primitive::rect::{max_i, min_i};
use crate::model::pt::PtI;

verus! {

/// An integer rectangle given by its top-left corner `(x, y)` and its size,
/// with `y` growing downwards: the bottom edge is `y + h` and the right edge
/// is `x + w`.
#[derive(PartialEq, Eq, Structural, Debug, Default, Copy, Clone)]
pub struct RtI {
    pub x: i64,
    pub y: i64,
    pub w: i64,
    pub h: i64,
}

impl RtI {
    /// True iff the right and bottom edges are representable.
    pub open spec fn edges_fit(&self) -> bool {
        &&& i64::MIN <= self.x + self.w <= i64::MAX
        &&& i64::MIN <= self.y + self.h <= i64::MAX
    }

    /// True iff the right edge is representable.
    pub open spec fn right_fits(&self) -> bool {
        i64::MIN <= self.x + self.w <= i64::MAX
    }

    /// True iff the bottom edge is representable.
    pub open spec fn bottom_fits(&self) -> bool {
        i64::MIN <= self.y + self.h <= i64::MAX
    }

    /// True iff `p` lies in the rectangle, edges included.
    pub open spec fn spec_contains(&self, p: PtI) -> bool {
        p.x >= self.x && p.y >= self.y && p.x <= self.x + self.w && p.y <= self.y + self.h
    }

    pub fn new(x: i64, y: i64, w: i64, h: i64) -> (r: Self)
        ensures
            r == (RtI { x, y, w, h }),
    {
        Self { x, y, w, h }
    }

    pub fn empty() -> (r: Self)
        ensures
            r == (RtI { x: 0, y: 0, w: 0, h: 0 }),
    {
        Self::new(0, 0, 0, 0)
    }

    /// The bottom edge.
    pub fn b(&self) -> (r: i64)
        requires
            self.bottom_fits(),
        ensures
            r == self.y + self.h,
    {
        self.y + self.h
    }

    /// The right edge.
    pub fn r(&self) -> (r: i64)
        requires
            self.right_fits(),
        ensures
            r == self.x + self.w,
    {
        self.x + self.w
    }

    pub fn bl(&self) -> (p: PtI)
        requires
            self.bottom_fits(),
        ensures
            p.x == self.x,
            p.y == self.y + self.h,
    {
        PtI::new(self.x, self.b())
    }

    pub fn br(&self) -> (p: PtI)
        requires
            self.edges_fit(),
        ensures
            p.x == self.x + self.w,
            p.y == self.y + self.h,
    {
        PtI::new(self.r(), self.b())
    }

    pub fn tl(&self) -> (p: PtI)
        ensures
            p.x == self.x,
            p.y == self.y,
    {
        PtI::new(self.x, self.y)
    }

    pub fn tr(&self) -> (p: PtI)
        requires
            self.right_fits(),
        ensures
            p.x == self.x + self.w,
            p.y == self.y,
    {
        PtI::new(self.r(), self.y)
    }

    /// The centre, each half-size rounded towards zero.
    pub fn center(&self) -> (p: PtI)
        requires
            self.edges_fit(),
        ensures
            p.x == self.x + trunc_div(self.w as int, 2),
            p.y == self.y + trunc_div(self.h as int, 2),
    {
        let hw = half(self.w);
        let hh = half(self.h);
        PtI::new(self.x + hw, self.y + hh)
    }

    pub fn area(&self) -> (a: i64)
        requires
            i64::MIN <= self.w * self.h <= i64::MAX,
        ensures
            a == self.w * self.h,
    {
        self.w * self.h
    }

    pub fn contains(&self, p: PtI) -> (r: bool)
        requires
            self.edges_fit(),
        ensures
            r == self.spec_contains(p),
    {
        p.x >= self.x && p.y >= self.y && p.x <= self.r() && p.y <= self.b()
    }

    pub fn is_empty(&self) -> (r: bool)
        ensures
            r == (self.w == 0 && self.h == 0),
    {
        self.w == 0 && self.h == 0
    }

    /// The smallest rectangle that holds both points.
    pub fn enclosing(pa: PtI, pb: PtI) -> (r: RtI)
        requires
            i64::MIN <= max_i(pa.x, pb.x) - min_i(pa.x, pb.x) <= i64::MAX,
            i64::MIN <= max_i(pa.y, pb.y) - min_i(pa.y, pb.y) <= i64::MAX,
        ensures
            r.x == min_i(pa.x, pb.x),
            r.y == min_i(pa.y, pb.y),
            r.x + r.w == max_i(pa.x, pb.x),
            r.y + r.h == max_i(pa.y, pb.y),
    {
        let x = if pb.x < pa.x { pb.x } else { pa.x };
        let y = if pb.y < pa.y { pb.y } else { pa.y };
        let r = if pa.x < pb.x { pb.x } else { pa.x };
        let b = if pa.y < pb.y { pb.y } else { pa.y };
        RtI::new(x, y, r - x, b - y)
    }
}

/// The enclosing rectangle of two points holds both of them.
pub proof fn lemma_enclosing_contains(r: RtI, pa: PtI, pb: PtI)
    requires
        r.x == min_i(pa.x, pb.x),
        r.y == min_i(pa.y, pb.y),
        r.x + r.w == max_i(pa.x, pb.x),
        r.y + r.h == max_i(pa.y, pb.y),
    ensures
        r.spec_contains(pa),
        r.spec_contains(pb),
{
}

/// Halves `v`, rounding towards zero.
fn half(v: i64) -> (r: i64)
    ensures
        r == trunc_div(v as int, 2),
{
    <i64 as crate::model::geom::Number>::quot(v, 2)
}

} // verus!
