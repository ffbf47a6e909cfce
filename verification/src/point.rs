//! Integer lattice points.

use vstd::prelude::*;

verus! {

/// A point on the integer lattice.
#[derive(Clone, Copy, PartialEq, Eq, Structural, Debug, Hash)]
pub struct Point {
    pub x: i32,
    pub y: i32,
}

impl Point {
    pub fn new(x: i32, y: i32) -> (r: Point)
        ensures
            r.x == x,
            r.y == y,
    {
        Point { x, y }
    }

    /// Index of this point in a row-major buffer of row width `max_x`.
    pub fn to_linear(&self, max_x: i32) -> (r: i32)
        requires
            self.y * max_x + self.x <= i32::MAX,
            self.y * max_x + self.x >= i32::MIN,
            self.y * max_x <= i32::MAX,
            self.y * max_x >= i32::MIN,
        ensures
            r == self.y * max_x + self.x,
    {
        self.y * max_x + self.x
    }

    /// Point whose [`Point::to_linear`] index is `value`, for points inside a
    /// buffer of row width `max_x`.
    pub fn from_linear(value: i32, max_x: i32) -> (r: Point)
        requires
            value >= 0,
            max_x > 0,
        ensures
            r.x == value % max_x,
            r.y == value / max_x,
    {
        Point { x: value % max_x, y: value / max_x }
    }

    /// Dot product of the two points read as vectors.
    pub fn dot(&self, other: &Point) -> (r: i32)
        requires
            i32::MIN <= self.x * other.x <= i32::MAX,
            i32::MIN <= self.y * other.y <= i32::MAX,
            i32::MIN <= self.x * other.x + self.y * other.y <= i32::MAX,
        ensures
            r == self.x * other.x + self.y * other.y,
    {
        self.x * other.x + self.y * other.y
    }

    /// Square of the Euclidean distance between the two points.
    pub fn distance_square(&self, other: &Point) -> (r: u32)
        requires
            abs_diff(self.x as int, other.x as int) * abs_diff(self.x as int, other.x as int)
                + abs_diff(self.y as int, other.y as int) * abs_diff(
                self.y as int,
                other.y as int,
            ) <= u32::MAX,
        ensures
            r == abs_diff(self.x as int, other.x as int) * abs_diff(self.x as int, other.x as int)
                + abs_diff(self.y as int, other.y as int) * abs_diff(
                self.y as int,
                other.y as int,
            ),
    {
        let dx = abs_diff_i32(self.x, other.x);
        let dy = abs_diff_i32(self.y, other.y);
        dx * dx + dy * dy
    }
}

/// Absolute difference of two integers.
pub open spec fn abs_diff(a: int, b: int) -> int {
    if a >= b {
        a - b
    } else {
        b - a
    }
}

/// Executable absolute difference on `i32`, exact on the whole range.
pub fn abs_diff_i32(a: i32, b: i32) -> (r: u32)
    ensures
        r == abs_diff(a as int, b as int),
{
    if a >= b {
        (a as i64 - b as i64) as u32
    } else {
        (b as i64 - a as i64) as u32
    }
}

} // verus!
