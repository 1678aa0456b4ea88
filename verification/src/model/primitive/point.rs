use vstd::prelude::*;

verus! {

/// A point with integer coordinates.
#[derive(PartialEq, Eq, Structural, Debug, Default, Copy, Clone, Hash)]
pub struct PtI {
    pub x: i64,
    pub y: i64,
}

impl PtI {
    pub fn new(x: i64, y: i64) -> (p: Self)
        ensures
            p.x == x,
            p.y == y,
    {
        Self { x, y }
    }

    pub fn zero() -> (p: Self)
        ensures
            p.x == 0,
            p.y == 0,
    {
        Self::new(0, 0)
    }

    pub fn is_zero(&self) -> (r: bool)
        ensures
            r == (self.x == 0 && self.y == 0),
    {
        *self == Self::zero()
    }

    /// The squared length `x * x + y * y`.
    pub open spec fn spec_mag2(&self) -> int {
        self.x * self.x + self.y * self.y
    }

    /// The squared length of the vector from the origin to this point.
    pub fn mag2(&self) -> (r: i64)
        requires
            self.spec_mag2() <= i64::MAX,
        ensures
            r == self.spec_mag2(),
    {
        proof {
            assert(0 <= self.x * self.x) by (nonlinear_arith);
            assert(0 <= self.y * self.y) by (nonlinear_arith);
        }
        self.x * self.x + self.y * self.y
    }
}

} // verus!
