pub mod qt;
use vstd::prelude::*;
use vstd::std_specs::convert::{FromSpec, FromSpecImpl};

verus! {

/// Rounds the quotient `a / b` towards zero, as integer division in Rust does.
pub open spec fn trunc_div(a: int, b: int) -> int {
    if a >= 0 || a % b == 0 {
        a / b
    } else if b > 0 {
        a / b + 1
    } else {
        a / b - 1
    }
}

/// The smaller of two integers.
pub open spec fn min_int(a: int, b: int) -> int {
    if a <= b { a } else { b }
}

/// The larger of two integers.
pub open spec fn max_int(a: int, b: int) -> int {
    if a >= b { a } else { b }
}

/// A numeric coordinate type: a set of integers, each given by its value,
/// with exact arithmetic wherever the result is representable.
pub trait Number: Copy + Sized {
    /// The integer that this value stands for.
    spec fn val(&self) -> int;

    /// True iff `v` is representable.
    spec fn fits(v: int) -> bool;

    /// Every value is representable.
    proof fn lemma_fits(x: Self)
        ensures
            Self::fits(x.val()),
    ;

    /// 0, 1 and 2 are representable.
    proof fn lemma_small_fits()
        ensures
            Self::fits(0),
            Self::fits(1),
            Self::fits(2),
    ;

    /// A value is given by the integer it stands for.
    proof fn lemma_val_injective(a: Self, b: Self)
        requires
            a.val() == b.val(),
        ensures
            a == b,
    ;

    /// The representable integers form an interval.
    proof fn lemma_fits_between(a: int, b: int, c: int)
        requires
            Self::fits(a),
            Self::fits(c),
            a <= b <= c,
        ensures
            Self::fits(b),
    ;

    fn zero() -> (r: Self)
        ensures
            r.val() == 0,
    ;

    fn one() -> (r: Self)
        ensures
            r.val() == 1,
    ;

    fn plus(self, o: Self) -> (r: Self)
        requires
            Self::fits(self.val() + o.val()),
        ensures
            r.val() == self.val() + o.val(),
    ;

    fn minus(self, o: Self) -> (r: Self)
        requires
            Self::fits(self.val() - o.val()),
        ensures
            r.val() == self.val() - o.val(),
    ;

    fn times(self, o: Self) -> (r: Self)
        requires
            Self::fits(self.val() * o.val()),
        ensures
            r.val() == self.val() * o.val(),
    ;

    /// Division rounded towards zero, by a positive divisor.
    fn quot(self, o: Self) -> (r: Self)
        requires
            o.val() > 0,
        ensures
            r.val() == trunc_div(self.val(), o.val()),
    ;

    fn less(&self, o: &Self) -> (r: bool)
        ensures
            r == (self.val() < o.val()),
    ;

    fn same(&self, o: &Self) -> (r: bool)
        ensures
            r == (self.val() == o.val()),
    ;
}

impl Number for i64 {
    open spec fn val(&self) -> int {
        *self as int
    }

    open spec fn fits(v: int) -> bool {
        i64::MIN <= v <= i64::MAX
    }

    proof fn lemma_fits(x: Self) {
    }

    proof fn lemma_small_fits() {
    }

    proof fn lemma_val_injective(a: Self, b: Self) {
    }

    proof fn lemma_fits_between(a: int, b: int, c: int) {
    }

    fn zero() -> (r: Self) {
        0
    }

    fn one() -> (r: Self) {
        1
    }

    fn plus(self, o: Self) -> (r: Self) {
        self + o
    }

    fn minus(self, o: Self) -> (r: Self) {
        self - o
    }

    fn times(self, o: Self) -> (r: Self) {
        self * o
    }

    fn quot(self, o: Self) -> (r: Self) {
        if self >= 0 {
            self / o
        } else {
            // |self| = m + 1 with m >= 0, which avoids negating i64::MIN.
            let m: i64 = -(self + 1);
            let q: i64 = m / o;
            let rem: i64 = m % o;
            proof {
                assert(m == o * q + rem) by (nonlinear_arith)
                    requires
                        o > 0,
                        m >= 0,
                        q == m / o,
                        rem == m % o,
                ;
            }
            if rem + 1 == o {
                proof {
                    lemma_trunc_neg(self as int, o as int, q as int, rem as int);
                }
                -q - 1
            } else {
                proof {
                    lemma_trunc_neg(self as int, o as int, q as int, rem as int);
                }
                -q
            }
        }
    }

    fn less(&self, o: &Self) -> (r: bool) {
        *self < *o
    }

    fn same(&self, o: &Self) -> (r: bool) {
        *self == *o
    }
}

/// For a negative `a = -(m + 1)` with `m = b * q + rem`, the quotient rounded
/// towards zero is `-(q + 1)` if `rem + 1 == b` and `-q` otherwise.
proof fn lemma_trunc_neg(a: int, b: int, q: int, rem: int)
    requires
        a < 0,
        b > 0,
        0 <= rem < b,
        -(a + 1) == b * q + rem,
    ensures
        trunc_div(a, b) == if rem + 1 == b { -(q + 1) } else { -q },
{
    if rem + 1 == b {
        assert(a == b * (-(q + 1)) + 0) by (nonlinear_arith)
            requires
                -(a + 1) == b * q + rem,
                rem + 1 == b,
        ;
        vstd::arithmetic::div_mod::lemma_fundamental_div_mod_converse(a, b, -(q + 1), 0);
    } else {
        assert(a == b * (-q - 1) + (b - rem - 1)) by (nonlinear_arith)
            requires
                -(a + 1) == b * q + rem,
        ;
        vstd::arithmetic::div_mod::lemma_fundamental_div_mod_converse(a, b, -q - 1, b - rem - 1);
    }
}

/// The smaller of two numbers.
fn num_min<T: Number>(a: T, b: T) -> (r: T)
    ensures
        r.val() == min_int(a.val(), b.val()),
{
    if b.less(&a) { b } else { a }
}

/// The larger of two numbers.
fn num_max<T: Number>(a: T, b: T) -> (r: T)
    ensures
        r.val() == max_int(a.val(), b.val()),
{
    if a.less(&b) { b } else { a }
}

/// The number 2.
fn num_two<T: Number>() -> (r: T)
    ensures
        r.val() == 2,
{
    proof {
        T::lemma_small_fits();
    }
    T::one().plus(T::one())
}

/// An axis-aligned rectangle given by its corner `(x, y)` and its size.
pub struct Rt2D<T: Number> {
    pub x: T,
    pub y: T,
    pub w: T,
    pub h: T,
}

/// A point.
pub struct Pt2D<T: Number> {
    pub x: T,
    pub y: T,
}

/// A size.
pub struct Sz2D<T: Number> {
    pub w: T,
    pub h: T,
}

impl<T: Number> Clone for Pt2D<T> {
    fn clone(&self) -> (r: Self)
        ensures
            r == *self,
    {
        Pt2D { x: self.x, y: self.y }
    }
}

impl<T: Number> Copy for Pt2D<T> {

}

impl<T: Number> Clone for Sz2D<T> {
    fn clone(&self) -> (r: Self)
        ensures
            r == *self,
    {
        Sz2D { w: self.w, h: self.h }
    }
}

impl<T: Number> Copy for Sz2D<T> {

}

impl<T: Number> Clone for Rt2D<T> {
    fn clone(&self) -> (r: Self)
        ensures
            r == *self,
    {
        Rt2D { x: self.x, y: self.y, w: self.w, h: self.h }
    }
}

impl<T: Number> Copy for Rt2D<T> {

}

impl<T: Number> Rt2D<T> {
    /// The right edge, `x + w`.
    pub open spec fn spec_r(&self) -> int {
        self.x.val() + self.w.val()
    }

    /// The bottom edge, `y + h`.
    pub open spec fn spec_b(&self) -> int {
        self.y.val() + self.h.val()
    }

    /// True iff the right and bottom edges are representable.
    pub open spec fn edges_fit(&self) -> bool {
        T::fits(self.spec_r()) && T::fits(self.spec_b())
    }

    /// True iff `p` lies in the rectangle, edges included.
    pub open spec fn spec_contains(&self, p: Pt2D<T>) -> bool {
        &&& p.x.val() >= self.x.val()
        &&& p.y.val() >= self.y.val()
        &&& p.x.val() <= self.spec_r()
        &&& p.y.val() <= self.spec_b()
    }

    pub fn new(x: T, y: T, w: T, h: T) -> (r: Self)
        ensures
            r.x == x,
            r.y == y,
            r.w == w,
            r.h == h,
    {
        Self { x, y, w, h }
    }

    pub fn zero() -> (r: Self)
        ensures
            r.x.val() == 0,
            r.y.val() == 0,
            r.w.val() == 0,
            r.h.val() == 0,
    {
        Self::new(T::zero(), T::zero(), T::zero(), T::zero())
    }

    pub fn is_zero(&self) -> (r: bool)
        ensures
            r == (self.x.val() == 0 && self.y.val() == 0 && self.w.val() == 0 && self.h.val() == 0),
    {
        let z = T::zero();
        self.x.same(&z) && self.y.same(&z) && self.w.same(&z) && self.h.same(&z)
    }

    pub fn ptsz(p: Pt2D<T>, sz: Sz2D<T>) -> (r: Self)
        ensures
            r.x == p.x,
            r.y == p.y,
            r.w == sz.w,
            r.h == sz.h,
    {
        Self { x: p.x, y: p.y, w: sz.w, h: sz.h }
    }

    pub fn from_sz(sz: Sz2D<T>) -> (r: Self)
        ensures
            r.x.val() == 0,
            r.y.val() == 0,
            r.w == sz.w,
            r.h == sz.h,
    {
        Self::ptsz(Pt2D::zero(), sz)
    }

    pub fn b(&self) -> (r: T)
        requires
            T::fits(self.spec_b()),
        ensures
            r.val() == self.spec_b(),
    {
        self.y.plus(self.h)
    }

    pub fn r(&self) -> (r: T)
        requires
            T::fits(self.spec_r()),
        ensures
            r.val() == self.spec_r(),
    {
        self.x.plus(self.w)
    }

    pub fn bl(&self) -> (p: Pt2D<T>)
        requires
            T::fits(self.spec_b()),
        ensures
            p.x == self.x,
            p.y.val() == self.spec_b(),
    {
        Pt2D::new(self.x, self.b())
    }

    pub fn br(&self) -> (p: Pt2D<T>)
        requires
            self.edges_fit(),
        ensures
            p.x.val() == self.spec_r(),
            p.y.val() == self.spec_b(),
    {
        Pt2D::new(self.r(), self.b())
    }

    pub fn tl(&self) -> (p: Pt2D<T>)
        ensures
            p.x == self.x,
            p.y == self.y,
    {
        Pt2D::new(self.x, self.y)
    }

    pub fn tr(&self) -> (p: Pt2D<T>)
        requires
            T::fits(self.spec_r()),
        ensures
            p.x.val() == self.spec_r(),
            p.y == self.y,
    {
        Pt2D::new(self.r(), self.y)
    }

    pub fn sz(&self) -> (s: Sz2D<T>)
        ensures
            s.w == self.w,
            s.h == self.h,
    {
        Sz2D::new(self.w, self.h)
    }

    /// The centre, each half-size rounded towards zero.
    pub fn center(&self) -> (p: Pt2D<T>)
        requires
            T::fits(self.x.val() + trunc_div(self.w.val(), 2)),
            T::fits(self.y.val() + trunc_div(self.h.val(), 2)),
        ensures
            p.x.val() == self.x.val() + trunc_div(self.w.val(), 2),
            p.y.val() == self.y.val() + trunc_div(self.h.val(), 2),
    {
        let v2 = num_two::<T>();
        Pt2D::new(self.x.plus(self.w.quot(v2)), self.y.plus(self.h.quot(v2)))
    }

    pub fn with_sz(&self, sz: Sz2D<T>) -> (r: Rt2D<T>)
        ensures
            r.x == self.x,
            r.y == self.y,
            r.w == sz.w,
            r.h == sz.h,
    {
        Rt2D::ptsz(self.tl(), sz)
    }

    pub fn inset(&self, d: Sz2D<T>) -> (r: Rt2D<T>)
        requires
            self.inset_fits(d.w.val(), d.h.val()),
        ensures
            r.is_inset_of(*self, d.w.val(), d.h.val()),
    {
        self.inset_xy(d.w, d.h)
    }

    /// How much of a side of length `len` an inset of `d` on each end takes
    /// away: `2 * d`, but no more than `len`.
    pub open spec fn spec_sub(len: int, d: int) -> int {
        if 2 * d < len { 2 * d } else { len }
    }

    /// True iff this is `o` shrunk by `dx` on the left and right and by `dy`
    /// on the top and bottom, each side by no more than its length, with the
    /// new corner rounded towards `o`'s corner.
    pub open spec fn is_inset_of(&self, o: Rt2D<T>, dx: int, dy: int) -> bool {
        &&& self.x.val() == o.x.val() + trunc_div(Self::spec_sub(o.w.val(), dx), 2)
        &&& self.y.val() == o.y.val() + trunc_div(Self::spec_sub(o.h.val(), dy), 2)
        &&& self.w.val() == o.w.val() - Self::spec_sub(o.w.val(), dx)
        &&& self.h.val() == o.h.val() - Self::spec_sub(o.h.val(), dy)
    }

    /// True iff insetting by `dx` and `dy` stays representable.
    pub open spec fn inset_fits(&self, dx: int, dy: int) -> bool {
        &&& T::fits(2 * dx)
        &&& T::fits(2 * dy)
        &&& T::fits(self.x.val() + trunc_div(Self::spec_sub(self.w.val(), dx), 2))
        &&& T::fits(self.y.val() + trunc_div(Self::spec_sub(self.h.val(), dy), 2))
        &&& T::fits(self.w.val() - Self::spec_sub(self.w.val(), dx))
        &&& T::fits(self.h.val() - Self::spec_sub(self.h.val(), dy))
    }

    /// Shrinks the rectangle by `dx` on the left and right and by `dy` on the
    /// top and bottom; a side shrinks to no less than zero.
    pub fn inset_xy(&self, dx: T, dy: T) -> (r: Rt2D<T>)
        requires
            self.inset_fits(dx.val(), dy.val()),
        ensures
            r.is_inset_of(*self, dx.val(), dy.val()),
    {
        let v2 = num_two::<T>();
        let wsub = if v2.times(dx).less(&self.w) { v2.times(dx) } else { self.w };
        let hsub = if v2.times(dy).less(&self.h) { v2.times(dy) } else { self.h };
        Rt2D::new(
            self.x.plus(wsub.quot(v2)),
            self.y.plus(hsub.quot(v2)),
            self.w.minus(wsub),
            self.h.minus(hsub),
        )
    }

    pub fn contains(&self, p: Pt2D<T>) -> (r: bool)
        requires
            self.edges_fit(),
        ensures
            r == self.spec_contains(p),
    {
        !p.x.less(&self.x) && !p.y.less(&self.y) && !self.r().less(&p.x) && !self.b().less(&p.y)
    }

    pub fn is_empty(&self) -> (r: bool)
        ensures
            r == (self.w.val() == 0 && self.h.val() == 0),
    {
        let z = T::zero();
        self.w.same(&z) && self.h.same(&z)
    }

    /// Combines two rectangles: an empty one gives way to the other;
    /// otherwise the corner is the smaller of the two corners and the far
    /// edges are the smaller of the two far edges.
    pub fn united(&self, rt: &Rt2D<T>) -> (r: Rt2D<T>)
        requires
            self.edges_fit(),
            rt.edges_fit(),
            T::fits(min_int(self.spec_r(), rt.spec_r()) - min_int(self.x.val(), rt.x.val())),
            T::fits(min_int(self.spec_b(), rt.spec_b()) - min_int(self.y.val(), rt.y.val())),
        ensures
            (rt.w.val() == 0 && rt.h.val() == 0) ==> r == *self,
            !(rt.w.val() == 0 && rt.h.val() == 0) && (self.w.val() == 0 && self.h.val() == 0)
                ==> r == *rt,
            !(rt.w.val() == 0 && rt.h.val() == 0) && !(self.w.val() == 0 && self.h.val() == 0)
                ==> {
                &&& r.x.val() == min_int(self.x.val(), rt.x.val())
                &&& r.y.val() == min_int(self.y.val(), rt.y.val())
                &&& r.spec_r() == min_int(self.spec_r(), rt.spec_r())
                &&& r.spec_b() == min_int(self.spec_b(), rt.spec_b())
            },
    {
        if rt.is_empty() {
            *self
        } else if self.is_empty() {
            *rt
        } else {
            let x = num_min(self.x, rt.x);
            let y = num_min(self.y, rt.y);
            let r = num_min(self.r(), rt.r());
            let b = num_min(self.b(), rt.b());
            Rt2D::new(x, y, r.minus(x), b.minus(y))
        }
    }

    /// True iff this is the smallest rectangle that holds both points.
    pub open spec fn is_enclosing(&self, pa: Pt2D<T>, pb: Pt2D<T>) -> bool {
        &&& self.x.val() == min_int(pa.x.val(), pb.x.val())
        &&& self.y.val() == min_int(pa.y.val(), pb.y.val())
        &&& self.w.val() == max_int(pa.x.val(), pb.x.val()) - min_int(pa.x.val(), pb.x.val())
        &&& self.h.val() == max_int(pa.y.val(), pb.y.val()) - min_int(pa.y.val(), pb.y.val())
    }

    /// The smallest rectangle that holds both points.
    pub fn enclosing(pa: &Pt2D<T>, pb: &Pt2D<T>) -> (r: Rt2D<T>)
        requires
            T::fits(max_int(pa.x.val(), pb.x.val()) - min_int(pa.x.val(), pb.x.val())),
            T::fits(max_int(pa.y.val(), pb.y.val()) - min_int(pa.y.val(), pb.y.val())),
        ensures
            r.is_enclosing(*pa, *pb),
    {
        let x = num_min(pa.x, pb.x);
        let y = num_min(pa.y, pb.y);
        let r = num_max(pa.x, pb.x);
        let b = num_max(pa.y, pb.y);
        Rt2D::new(x, y, r.minus(x), b.minus(y))
    }
}

impl<T: Number> Pt2D<T> {
    pub fn new(x: T, y: T) -> (p: Self)
        ensures
            p.x == x,
            p.y == y,
    {
        Self { x, y }
    }

    pub fn zero() -> (p: Self)
        ensures
            p.x.val() == 0,
            p.y.val() == 0,
    {
        Self::new(T::zero(), T::zero())
    }

    pub fn is_zero(&self) -> (r: bool)
        ensures
            r == (self.x.val() == 0 && self.y.val() == 0),
    {
        let z = T::zero();
        self.x.same(&z) && self.y.same(&z)
    }

    pub fn as_array(&self) -> (a: [T; 2])
        ensures
            a@ == seq![self.x, self.y],
    {
        let a = [self.x, self.y];
        assert(a@ =~= seq![self.x, self.y]);
        a
    }

    pub fn as_sz(&self) -> (s: Sz2D<T>)
        ensures
            s.w == self.x,
            s.h == self.y,
    {
        Sz2D::new(self.x, self.y)
    }

    pub fn offset(&self, dx: T, dy: T) -> (p: Pt2D<T>)
        requires
            T::fits(self.x.val() + dx.val()),
            T::fits(self.y.val() + dy.val()),
        ensures
            p.x.val() == self.x.val() + dx.val(),
            p.y.val() == self.y.val() + dy.val(),
    {
        Pt2D::new(self.x.plus(dx), self.y.plus(dy))
    }

    /// The cross product `x * p.y - y * p.x`.
    pub open spec fn spec_cross(&self, p: &Pt2D<T>) -> int {
        self.x.val() * p.y.val() - self.y.val() * p.x.val()
    }

    pub fn cross(&self, p: &Pt2D<T>) -> (r: T)
        requires
            T::fits(self.x.val() * p.y.val()),
            T::fits(self.y.val() * p.x.val()),
            T::fits(self.spec_cross(p)),
        ensures
            r.val() == self.spec_cross(p),
    {
        self.x.times(p.y).minus(self.y.times(p.x))
    }
}

impl<T: Number> Sz2D<T> {
    pub fn new(w: T, h: T) -> (s: Self)
        ensures
            s.w == w,
            s.h == h,
    {
        Self { w, h }
    }

    pub fn zero() -> (s: Self)
        ensures
            s.w.val() == 0,
            s.h.val() == 0,
    {
        Self::new(T::zero(), T::zero())
    }

    pub fn is_zero(&self) -> (r: bool)
        ensures
            r == (self.w.val() == 0 && self.h.val() == 0),
    {
        let z = T::zero();
        self.w.same(&z) && self.h.same(&z)
    }

    pub fn area(&self) -> (a: T)
        requires
            T::fits(self.w.val() * self.h.val()),
        ensures
            a.val() == self.w.val() * self.h.val(),
    {
        self.w.times(self.h)
    }

    /// The size whose sides are the smaller of the two sides.
    pub fn min(self, o: Sz2D<T>) -> (s: Self)
        ensures
            s.w.val() == min_int(self.w.val(), o.w.val()),
            s.h.val() == min_int(self.h.val(), o.h.val()),
    {
        Self::new(
            if self.w.less(&o.w) { self.w } else { o.w },
            if self.h.less(&o.h) { self.h } else { o.h },
        )
    }

    /// The size whose sides are the larger of the two sides.
    pub fn max(self, o: Sz2D<T>) -> (s: Self)
        ensures
            s.w.val() == max_int(self.w.val(), o.w.val()),
            s.h.val() == max_int(self.h.val(), o.h.val()),
    {
        Self::new(
            if o.w.less(&self.w) { self.w } else { o.w },
            if o.h.less(&self.h) { self.h } else { o.h },
        )
    }
}

/// The value of `T` that stands for 0.
pub open spec fn spec_zero<T: Number>() -> T {
    choose|z: T| z.val() == 0
}

impl<T: Number> From<Sz2D<T>> for Rt2D<T> {
    /// The rectangle of size `sz` at the origin.
    fn from(sz: Sz2D<T>) -> (r: Self) {
        let r = Rt2D::ptsz(Pt2D::zero(), sz);
        proof {
            T::lemma_val_injective(r.x, spec_zero::<T>());
            T::lemma_val_injective(r.y, spec_zero::<T>());
        }
        r
    }
}

impl<T: Number> FromSpecImpl<Sz2D<T>> for Rt2D<T> {
    open spec fn obeys_from_spec() -> bool {
        true
    }

    open spec fn from_spec(sz: Sz2D<T>) -> Self {
        Rt2D { x: spec_zero::<T>(), y: spec_zero::<T>(), w: sz.w, h: sz.h }
    }
}

impl<T: Number> From<[T; 2]> for Pt2D<T> {
    /// The point with coordinates `a[0]` and `a[1]`.
    fn from(a: [T; 2]) -> (p: Self) {
        Pt2D::new(a[0], a[1])
    }
}

impl<T: Number> FromSpecImpl<[T; 2]> for Pt2D<T> {
    open spec fn obeys_from_spec() -> bool {
        true
    }

    open spec fn from_spec(a: [T; 2]) -> Self {
        Pt2D { x: a@[0], y: a@[1] }
    }
}

impl<T: Number> From<(T, T)> for Pt2D<T> {
    /// The point with coordinates `v.0` and `v.1`.
    fn from(v: (T, T)) -> (p: Self) {
        Pt2D::new(v.0, v.1)
    }
}

impl<T: Number> FromSpecImpl<(T, T)> for Pt2D<T> {
    open spec fn obeys_from_spec() -> bool {
        true
    }

    open spec fn from_spec(v: (T, T)) -> Self {
        Pt2D { x: v.0, y: v.1 }
    }
}

impl<'a, T: Number> From<&'a (T, T)> for Pt2D<T> {
    /// The point with coordinates `v.0` and `v.1`.
    fn from(v: &'a (T, T)) -> (p: Self) {
        Pt2D::new(v.0, v.1)
    }
}

impl<'a, T: Number> FromSpecImpl<&'a (T, T)> for Pt2D<T> {
    open spec fn obeys_from_spec() -> bool {
        true
    }

    open spec fn from_spec(v: &'a (T, T)) -> Self {
        Pt2D { x: v.0, y: v.1 }
    }
}

impl<T: Number> From<Sz2D<T>> for (T, T) {
    /// The width and the height.
    fn from(sz: Sz2D<T>) -> (v: Self) {
        (sz.w, sz.h)
    }
}

impl<T: Number> FromSpecImpl<Sz2D<T>> for (T, T) {
    open spec fn obeys_from_spec() -> bool {
        true
    }

    open spec fn from_spec(sz: Sz2D<T>) -> Self {
        (sz.w, sz.h)
    }
}

impl<T: Number> From<[T; 2]> for Sz2D<T> {
    /// The size with width `a[0]` and height `a[1]`.
    fn from(a: [T; 2]) -> (s: Self) {
        Sz2D::new(a[0], a[1])
    }
}

impl<T: Number> FromSpecImpl<[T; 2]> for Sz2D<T> {
    open spec fn obeys_from_spec() -> bool {
        true
    }

    open spec fn from_spec(a: [T; 2]) -> Self {
        Sz2D { w: a@[0], h: a@[1] }
    }
}

impl<T: Number> From<(T, T)> for Sz2D<T> {
    /// The size with width `v.0` and height `v.1`.
    fn from(v: (T, T)) -> (s: Self) {
        Sz2D::new(v.0, v.1)
    }
}

impl<T: Number> FromSpecImpl<(T, T)> for Sz2D<T> {
    open spec fn obeys_from_spec() -> bool {
        true
    }

    open spec fn from_spec(v: (T, T)) -> Self {
        Sz2D { w: v.0, h: v.1 }
    }
}

/// A point made from its own array of coordinates is the point itself.
pub proof fn lemma_array_round_trip<T: Number>(p: Pt2D<T>, a: [T; 2])
    requires
        a@ == seq![p.x, p.y],
    ensures
        <Pt2D<T> as FromSpec<[T; 2]>>::from_spec(a) == p,
{
    assert(a@[0] == p.x);
    assert(a@[1] == p.y);
}

/// Insetting by a size is insetting by its width and height: whatever
/// `inset(d)` and `inset_xy(d.w, d.h)` give for one rectangle is the same
/// rectangle.
pub proof fn lemma_inset_is_inset_xy<T: Number>(o: Rt2D<T>, d: Sz2D<T>, a: Rt2D<T>, b: Rt2D<T>)
    requires
        a.is_inset_of(o, d.w.val(), d.h.val()),
        b.is_inset_of(o, d.w.val(), d.h.val()),
    ensures
        a == b,
{
    T::lemma_val_injective(a.x, b.x);
    T::lemma_val_injective(a.y, b.y);
    T::lemma_val_injective(a.w, b.w);
    T::lemma_val_injective(a.h, b.h);
}

/// The enclosing rectangle of two points holds both of them.
pub proof fn lemma_enclosing_contains<T: Number>(r: Rt2D<T>, pa: Pt2D<T>, pb: Pt2D<T>)
    requires
        r.is_enclosing(pa, pb),
    ensures
        r.spec_contains(pa),
        r.spec_contains(pb),
{
}

/// Insetting a rectangle of non-negative size by non-negative amounts gives a
/// rectangle of non-negative size that lies inside the first one.
pub proof fn lemma_inset_inside<T: Number>(r: Rt2D<T>, o: Rt2D<T>, dx: int, dy: int)
    requires
        r.is_inset_of(o, dx, dy),
        o.w.val() >= 0,
        o.h.val() >= 0,
        dx >= 0,
        dy >= 0,
    ensures
        r.w.val() >= 0,
        r.h.val() >= 0,
        o.x.val() <= r.x.val(),
        o.y.val() <= r.y.val(),
        r.spec_r() <= o.spec_r(),
        r.spec_b() <= o.spec_b(),
{
    let sw = Rt2D::<T>::spec_sub(o.w.val(), dx);
    let sh = Rt2D::<T>::spec_sub(o.h.val(), dy);
    assert(0 <= trunc_div(sw, 2) <= sw) by {
        vstd::arithmetic::div_mod::lemma_div_pos_is_pos(sw, 2);
        vstd::arithmetic::div_mod::lemma_div_is_ordered_by_denominator(sw, 1, 2);
    }
    assert(0 <= trunc_div(sh, 2) <= sh) by {
        vstd::arithmetic::div_mod::lemma_div_pos_is_pos(sh, 2);
        vstd::arithmetic::div_mod::lemma_div_is_ordered_by_denominator(sh, 1, 2);
    }
}

/// The smaller of two sizes is no larger, side by side, than the larger.
pub proof fn lemma_min_le_max<T: Number>(a: Sz2D<T>, b: Sz2D<T>, lo: Sz2D<T>, hi: Sz2D<T>)
    requires
        lo.w.val() == min_int(a.w.val(), b.w.val()),
        lo.h.val() == min_int(a.h.val(), b.h.val()),
        hi.w.val() == max_int(a.w.val(), b.w.val()),
        hi.h.val() == max_int(a.h.val(), b.h.val()),
    ensures
        lo.w.val() <= a.w.val() <= hi.w.val(),
        lo.w.val() <= b.w.val() <= hi.w.val(),
        lo.h.val() <= a.h.val() <= hi.h.val(),
        lo.h.val() <= b.h.val() <= hi.h.val(),
{
}

/// A rectangle with integer coordinates.
pub type Rt = Rt2D<i64>;

/// A point with integer coordinates.
pub type Pt = Pt2D<i64>;

/// A size with integer sides.
pub type Sz = Sz2D<i64>;

} // verus!
