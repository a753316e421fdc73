//! Points, rectangles and grid coordinates.

use vstd::prelude::*;
use crate::units::{cell_index, COORD_LIMIT};

verus! {

/// A point or a displacement, in raw units.
#[derive(Clone, Copy, Debug, PartialEq, Eq, Structural)]
pub struct Vec2 {
    pub x: i64,
    pub y: i64,
}

/// The coordinate of one grid cell.
#[derive(Clone, Copy, Debug, PartialEq, Eq, Structural)]
pub struct GridCoord {
    pub x: i64,
    pub y: i64,
}

/// An axis-aligned rectangle given by its lower-left and upper-right corners.
#[derive(Clone, Copy, Debug, PartialEq, Eq, Structural)]
pub struct Rect {
    pub min: Vec2,
    pub max: Vec2,
}

impl Vec2 {
    /// Both components lie within the coordinate limit.
    pub open spec fn bounded(self, limit: int) -> bool {
        &&& -limit <= self.x <= limit
        &&& -limit <= self.y <= limit
    }

    /// Component-wise sum.
    pub open spec fn plus(self, other: Vec2) -> Vec2 {
        Vec2 { x: (self.x + other.x) as i64, y: (self.y + other.y) as i64 }
    }

    /// Squared Euclidean length.
    pub open spec fn length_squared(self) -> int {
        self.x * self.x + self.y * self.y
    }

    /// Tests whether both components lie within `limit` of zero.
    pub fn within(self, limit: i64) -> (b: bool)
        requires
            0 <= limit,
        ensures
            b == self.bounded(limit as int),
    {
        -limit <= self.x && self.x <= limit && -limit <= self.y && self.y <= limit
    }

    /// The vector of the two components.
    pub fn new(x: i64, y: i64) -> (v: Vec2)
        ensures
            v == (Vec2 { x, y }),
    {
        Vec2 { x, y }
    }

    /// Adds two vectors whose sum stays within the machine range.
    pub fn add(self, other: Vec2) -> (v: Vec2)
        requires
            i64::MIN <= self.x + other.x <= i64::MAX,
            i64::MIN <= self.y + other.y <= i64::MAX,
        ensures
            v == self.plus(other),
            v.x == self.x + other.x,
            v.y == self.y + other.y,
    {
        Vec2 { x: self.x + other.x, y: self.y + other.y }
    }
}

impl Rect {
    /// The corners are ordered and within the coordinate limit.
    pub open spec fn wf(self) -> bool {
        &&& self.min.x <= self.max.x
        &&& self.min.y <= self.max.y
        &&& self.min.bounded(COORD_LIMIT as int)
        &&& self.max.bounded(COORD_LIMIT as int)
    }

    /// The rectangle moved by `by`.
    pub open spec fn translated(self, by: Vec2) -> Rect {
        Rect { min: self.min.plus(by), max: self.max.plus(by) }
    }

    /// Whether `p` lies in the rectangle, the upper and right edges excluded.
    pub open spec fn holds(self, p: Vec2) -> bool {
        &&& self.min.x <= p.x < self.max.x
        &&& self.min.y <= p.y < self.max.y
    }

    /// Column of the leftmost cell that the rectangle touches.
    pub open spec fn first_column(self) -> int {
        cell_index(self.min.x as int)
    }

    /// Column of the rightmost cell that the rectangle touches.
    pub open spec fn last_column(self) -> int {
        cell_index(self.max.x as int)
    }

    /// Row of the lowest cell that the rectangle touches.
    pub open spec fn first_row(self) -> int {
        cell_index(self.min.y as int)
    }

    /// Row of the highest cell that the rectangle touches.
    pub open spec fn last_row(self) -> int {
        cell_index(self.max.y as int)
    }

    /// The rectangle between the two corners.
    pub fn new(min: Vec2, max: Vec2) -> (r: Rect)
        ensures
            r == (Rect { min, max }),
    {
        Rect { min, max }
    }

    /// Moves the rectangle by `by`.
    pub fn translate(self, by: Vec2) -> (r: Rect)
        requires
            self.min.bounded(2 * COORD_LIMIT),
            self.max.bounded(2 * COORD_LIMIT),
            by.bounded(2 * COORD_LIMIT),
        ensures
            r == self.translated(by),
            r.min.x == self.min.x + by.x,
            r.min.y == self.min.y + by.y,
            r.max.x == self.max.x + by.x,
            r.max.y == self.max.y + by.y,
    {
        Rect { min: self.min.add(by), max: self.max.add(by) }
    }

    /// Tests whether `p` lies in the rectangle, the upper and right edges excluded.
    pub fn contains(self, p: Vec2) -> (b: bool)
        ensures
            b == self.holds(p),
    {
        self.min.x <= p.x && p.x < self.max.x && self.min.y <= p.y && p.y < self.max.y
    }
}

} // verus!
