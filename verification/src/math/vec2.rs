//! Two-dimensional points and extents.

use vstd::prelude::*;

verus! {

/// A point or an extent, in length units.
#[derive(Copy, Clone, Debug, PartialEq, Eq, Structural)]
pub struct Vec2 {
    pub x: i64,
    pub y: i64,
}

impl Vec2 {
    /// The origin.
    pub fn zero() -> (v: Vec2)
        ensures
            v.x == 0,
            v.y == 0,
    {
        Vec2 { x: 0, y: 0 }
    }

    /// The point with the given coordinates.
    pub fn new(x: i64, y: i64) -> (v: Vec2)
        ensures
            v.x == x,
            v.y == y,
    {
        Vec2 { x, y }
    }

    /// Whether the two points are closer than one length unit on both axes,
    /// which on the unit grid means that they coincide.
    pub fn almost_equal(&self, other: Vec2) -> (r: bool)
        ensures
            r == (*self == other),
    {
        self.x == other.x && self.y == other.y
    }
}

} // verus!
