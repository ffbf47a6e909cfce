//! Point filters that restrict where a transformation applies.

use vstd::prelude::*;

use crate::point::Point;

verus! {

/// A predicate over lattice points.
pub trait RegionFilter {
    /// The set of points the filter admits.
    spec fn spec_contains(&self, point: Point) -> bool;

    /// Decide membership.
    fn contains(&self, point: &Point) -> (r: bool)
        ensures
            r == self.spec_contains(*point),
    ;
}

/// The filter that admits every point.
pub struct NoF {}

impl RegionFilter for NoF {
    open spec fn spec_contains(&self, point: Point) -> bool {
        true
    }

    fn contains(&self, point: &Point) -> (r: bool) {
        true
    }
}

/// A closed axis-aligned box: both edges belong to the box.
pub struct BBox {
    pub origin: Point,
    pub size: Point,
}

impl BBox {
    pub fn new(origin: Point, size: Point) -> (r: BBox)
        ensures
            r.origin == origin,
            r.size == size,
    {
        BBox { origin, size }
    }

    /// The box spanning the two given corners.
    pub fn from_bounds(bot_left: Point, top_right: Point) -> (r: BBox)
        requires
            i32::MIN <= top_right.x - bot_left.x <= i32::MAX,
            i32::MIN <= top_right.y - bot_left.y <= i32::MAX,
        ensures
            r.origin == bot_left,
            r.size.x == top_right.x - bot_left.x,
            r.size.y == top_right.y - bot_left.y,
    {
        BBox {
            origin: bot_left,
            size: Point { x: top_right.x - bot_left.x, y: top_right.y - bot_left.y },
        }
    }
}

impl RegionFilter for BBox {
    open spec fn spec_contains(&self, point: Point) -> bool {
        &&& self.origin.x <= point.x <= self.origin.x + self.size.x
        &&& self.origin.y <= point.y <= self.origin.y + self.size.y
    }

    fn contains(&self, point: &Point) -> (r: bool) {
        let x_in = point.x >= self.origin.x && (point.x as i64) <= (self.origin.x as i64) + (
        self.size.x as i64);
        let y_in = point.y >= self.origin.y && (point.y as i64) <= (self.origin.y as i64) + (
        self.size.y as i64);
        x_in && y_in
    }
}

/// The union of several filters: a point is admitted when any member
/// admits it.
pub struct MutliRegion<F: RegionFilter> {
    pub rfs: Vec<F>,
}

impl<F: RegionFilter> MutliRegion<F> {
    pub fn new(rfs: Vec<F>) -> (r: MutliRegion<F>)
        ensures
            r.rfs == rfs,
    {
        MutliRegion { rfs }
    }
}

impl<F: RegionFilter> RegionFilter for MutliRegion<F> {
    open spec fn spec_contains(&self, point: Point) -> bool {
        exists|i: int| 0 <= i < self.rfs@.len() && (#[trigger] self.rfs@[i]).spec_contains(point)
    }

    fn contains(&self, point: &Point) -> (r: bool) {
        let mut i: usize = 0;
        while i < self.rfs.len()
            invariant
                i <= self.rfs@.len(),
                forall|j: int| 0 <= j < i ==> !(#[trigger] self.rfs@[j]).spec_contains(*point),
            decreases self.rfs@.len() - i,
        {
            if self.rfs[i].contains(point) {
                return true;
            }
            i = i + 1;
        }
        false
    }
}

} // verus!
