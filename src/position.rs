use vstd::prelude::*;

use crate::Point;

verus! {

/// A square as a display counts it: (column, row), both from 0.
#[derive(Clone, Copy, PartialEq, Eq, Structural, Debug)]
pub struct Position(pub usize, pub usize);

impl Position {
    /// The board square shown at this position.
    pub fn translate(&mut self) -> (r: Point)
        requires
            old(self).0 < 127,
            old(self).1 < 127,
        ensures
            *final(self) == *old(self),
            r.0 == old(self).0 + 1,
            r.1 == old(self).1 + 1,
    {
        Point((self.0 + 1) as i8, (self.1 + 1) as i8)
    }

    /// The display position of a board square.
    pub fn new(pos: &Point) -> (r: Position)
        requires
            pos.0 >= 1,
            pos.1 >= 1,
        ensures
            r.0 == pos.0 - 1,
            r.1 == pos.1 - 1,
    {
        Position((pos.0 - 1) as usize, (pos.1 - 1) as usize)
    }
}

} // verus!
