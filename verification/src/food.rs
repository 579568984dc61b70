//! Food items: a position on the torus, nothing more. A food is relocated,
//! never destroyed, when eaten.

use vstd::prelude::*;
use crate::geometry::Point;

verus! {

#[derive(Clone, Copy, PartialEq, Eq, Structural)]
pub struct Food {
    pub position: Point,
}

impl Food {
    pub fn new(position: Point) -> (r: Food)
        ensures
            r.position == position,
    {
        Food { position }
    }

    pub fn position(&self) -> (r: Point)
        ensures
            r == self.position,
    {
        self.position
    }
}

} // verus!
