use vstd::prelude::*;

use crate::model::primitive::point::PtI;

pub mod point;
pub mod rect;
pub mod rt;

verus! {

/// Shorthand for `PtI::new(x, y)`.
pub fn pti(x: i64, y: i64) -> (p: PtI)
    ensures
        p.x == x,
        p.y == y,
{
    PtI::new(x, y)
}

} // verus!
