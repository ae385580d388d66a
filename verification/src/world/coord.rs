//! Integer points of the grid and steps between them.

use std::ops::Add;
use vstd::prelude::*;
use vstd::std_specs::convert::FromSpecImpl;
use vstd::std_specs::ops::AddSpecImpl;

verus! {

/// A point of the grid, or a step from one point to another.
///
/// The components are signed so that a step off the grid can be held before it is
/// wrapped back onto it.
#[derive(Debug, PartialEq, Eq, Clone, Copy, Structural)]
pub struct Coord {
    pub x: i32,
    pub y: i32,
}

impl Coord {
    /// The point `(x, y)`.
    pub fn new(x: i32, y: i32) -> (coord: Coord)
        ensures
            coord == (Coord { x, y }),
    {
        Coord { x, y }
    }

    /// Whether both component sums of `self` and `rhs` fit in an `i32`.
    pub open spec fn can_add(self, rhs: Coord) -> bool {
        &&& i32::MIN <= self.x + rhs.x <= i32::MAX
        &&& i32::MIN <= self.y + rhs.y <= i32::MAX
    }

    /// The component-wise sum of `self` and `rhs`.
    pub open spec fn plus(self, rhs: Coord) -> Coord {
        Coord { x: (self.x + rhs.x) as i32, y: (self.y + rhs.y) as i32 }
    }
}

impl AddSpecImpl<Coord> for Coord {
    open spec fn obeys_add_spec() -> bool {
        true
    }

    open spec fn add_req(self, rhs: Coord) -> bool {
        self.can_add(rhs)
    }

    open spec fn add_spec(self, rhs: Coord) -> Coord {
        self.plus(rhs)
    }
}

impl Add<Coord> for Coord {
    type Output = Coord;

    /// Adds component by component. The sums must fit: see `can_add`.
    fn add(self, rhs: Coord) -> (sum: Coord) {
        Coord { x: self.x + rhs.x, y: self.y + rhs.y }
    }
}

impl FromSpecImpl<(i32, i32)> for Coord {
    open spec fn obeys_from_spec() -> bool {
        true
    }

    open spec fn from_spec(pair: (i32, i32)) -> Coord {
        Coord { x: pair.0, y: pair.1 }
    }
}

impl From<(i32, i32)> for Coord {
    /// The point whose components are those of the pair, in order.
    fn from(pair: (i32, i32)) -> (coord: Coord) {
        Coord::new(pair.0, pair.1)
    }
}

} // verus!
