//! Axis-aligned rectangles and their lattice-point enumeration.

use vstd::prelude::*;

use crate::point::Point;

verus! {

/// The smaller of two integers.
pub open spec fn spec_min(a: int, b: int) -> int {
    if a <= b {
        a
    } else {
        b
    }
}

/// The larger of two integers.
pub open spec fn spec_max(a: int, b: int) -> int {
    if a >= b {
        a
    } else {
        b
    }
}

/// An axis-aligned box given by its origin corner and its size.
///
/// `contains` is half-open: a point belongs to the box when
/// `origin <= p < origin + size` componentwise.
#[derive(Clone, Copy, PartialEq, Eq, Structural, Debug)]
pub struct Rectangle {
    pub origin: Point,
    pub size: Point,
}

impl Rectangle {
    /// The x coordinate one past the right edge.
    pub open spec fn extent_x(self) -> int {
        self.origin.x + self.size.x
    }

    /// The y coordinate one past the top edge.
    pub open spec fn extent_y(self) -> int {
        self.origin.y + self.size.y
    }

    /// Half-open membership of a lattice point.
    pub open spec fn spec_contains(self, p: Point) -> bool {
        &&& self.origin.x <= p.x < self.extent_x()
        &&& self.origin.y <= p.y < self.extent_y()
    }

    /// Both corners fit comfortably inside the machine integers.
    pub open spec fn fits(self) -> bool {
        &&& i32::MIN <= self.extent_x() <= i32::MAX
        &&& i32::MIN <= self.extent_y() <= i32::MAX
    }

    pub fn new(origin: Point, size: Point) -> (r: Rectangle)
        ensures
            r.origin == origin,
            r.size == size,
    {
        Rectangle { origin, size }
    }

    /// The corner opposite the origin.
    pub fn top_right(&self) -> (r: Point)
        requires
            self.fits(),
        ensures
            r.x == self.extent_x(),
            r.y == self.extent_y(),
    {
        Point::new(self.origin.x + self.size.x, self.origin.y + self.size.y)
    }

    /// A box of the given size anchored at the coordinate origin.
    pub fn normal(size: Point) -> (r: Rectangle)
        ensures
            r.origin == (Point { x: 0, y: 0 }),
            r.size == size,
    {
        Rectangle { origin: Point { x: 0, y: 0 }, size }
    }

    /// The box spanning the two given corners.
    pub fn from_bounds(bot_left: Point, top_right: Point) -> (r: Rectangle)
        requires
            i32::MIN <= top_right.x - bot_left.x <= i32::MAX,
            i32::MIN <= top_right.y - bot_left.y <= i32::MAX,
        ensures
            r.origin == bot_left,
            r.size.x == top_right.x - bot_left.x,
            r.size.y == top_right.y - bot_left.y,
    {
        Rectangle {
            origin: bot_left,
            size: Point { x: top_right.x - bot_left.x, y: top_right.y - bot_left.y },
        }
    }

    /// The middle point of the box, with halves truncated toward zero.
    pub fn center(&self) -> (r: Point)
        requires
            self.size.x > i32::MIN,
            self.size.y > i32::MIN,
            i32::MIN <= self.origin.x + crate::trunc_div(self.size.x as int, 2) <= i32::MAX,
            i32::MIN <= self.origin.y + crate::trunc_div(self.size.y as int, 2) <= i32::MAX,
        ensures
            r.x == self.origin.x + crate::trunc_div(self.size.x as int, 2),
            r.y == self.origin.y + crate::trunc_div(self.size.y as int, 2),
    {
        Point::new(
            self.origin.x + crate::trunc_div_i32(self.size.x, 2),
            self.origin.y + crate::trunc_div_i32(self.size.y, 2),
        )
    }

    /// The same box moved so that its center lands on `new_center`.
    pub fn center_on(self, new_center: &Point) -> (r: Rectangle)
        requires
            self.size.x > i32::MIN,
            self.size.y > i32::MIN,
            i32::MIN <= new_center.x - crate::trunc_div(self.size.x as int, 2) <= i32::MAX,
            i32::MIN <= new_center.y - crate::trunc_div(self.size.y as int, 2) <= i32::MAX,
        ensures
            r.size == self.size,
            r.origin.x == new_center.x - crate::trunc_div(self.size.x as int, 2),
            r.origin.y == new_center.y - crate::trunc_div(self.size.y as int, 2),
    {
        let x = new_center.x - crate::trunc_div_i32(self.size.x, 2);
        let y = new_center.y - crate::trunc_div_i32(self.size.y, 2);
        Rectangle { origin: Point { x, y }, size: self.size }
    }

    /// The corner opposite the origin, as a point.
    pub fn extent(&self) -> (r: Point)
        requires
            self.fits(),
        ensures
            r.x == self.extent_x(),
            r.y == self.extent_y(),
    {
        Point::new(self.origin.x + self.size.x, self.origin.y + self.size.y)
    }

    /// Half-open membership test.
    pub fn contains(&self, point: &Point) -> (r: bool)
        requires
            self.fits(),
        ensures
            r == self.spec_contains(*point),
    {
        let ext = self.extent();
        point.x >= self.origin.x && point.x < ext.x && point.y >= self.origin.y && point.y
            < ext.y
    }

    /// The smallest box whose origin and extent cover both operands'
    /// origins and extents.
    pub open spec fn spec_union(self, other: Rectangle) -> Rectangle {
        let ox = spec_min(self.origin.x as int, other.origin.x as int);
        let oy = spec_min(self.origin.y as int, other.origin.y as int);
        let ex = spec_max(self.extent_x(), other.extent_x());
        let ey = spec_max(self.extent_y(), other.extent_y());
        Rectangle {
            origin: Point { x: ox as i32, y: oy as i32 },
            size: Point { x: (ex - ox) as i32, y: (ey - oy) as i32 },
        }
    }

    /// The union of the two boxes has a size that fits the machine integers.
    pub open spec fn union_fits(self, other: Rectangle) -> bool {
        let ox = spec_min(self.origin.x as int, other.origin.x as int);
        let oy = spec_min(self.origin.y as int, other.origin.y as int);
        let ex = spec_max(self.extent_x(), other.extent_x());
        let ey = spec_max(self.extent_y(), other.extent_y());
        i32::MIN <= ex - ox <= i32::MAX && i32::MIN <= ey - oy <= i32::MAX
    }

    /// Grow this box to the smallest one whose origin and extent cover both
    /// operands' origins and extents.
    pub fn union(&mut self, other: &Rectangle)
        requires
            old(self).fits(),
            other.fits(),
            old(self).union_fits(*other),
        ensures
            *final(self) == old(self).spec_union(*other),
    {
        let my_extent = self.extent();
        let other_extent = other.extent();
        self.origin.x = if self.origin.x <= other.origin.x {
            self.origin.x
        } else {
            other.origin.x
        };
        self.origin.y = if self.origin.y <= other.origin.y {
            self.origin.y
        } else {
            other.origin.y
        };

        let new_extent_x = if my_extent.x >= other_extent.x {
            my_extent.x
        } else {
            other_extent.x
        };
        let new_extent_y = if my_extent.y >= other_extent.y {
            my_extent.y
        } else {
            other_extent.y
        };

        self.size.x = new_extent_x - self.origin.x;
        self.size.y = new_extent_y - self.origin.y;
    }

    /// A copy of this box.
    pub fn bounds(&self) -> (r: Rectangle)
        ensures
            r == *self,
    {
        Rectangle { origin: self.origin, size: self.size }
    }

    /// All lattice points of the box, row by row from the origin upward,
    /// each row running left to right.
    ///
    /// A row always yields its leftmost point, even when the box is not at
    /// least one unit wide; a box with a nonpositive height yields nothing.
    pub fn iter_points(&self) -> (r: Vec<Point>)
        requires
            self.fits(),
        ensures
            r@ == rect_points(*self),
    {
        let tx = self.origin.x + self.size.x;
        let ty = self.origin.y + self.size.y;
        let mut res: Vec<Point> = Vec::new();
        let mut y = self.origin.y;
        if y >= ty {
            proof {
                assert(res@ + rect_rows_from(*self, y as int) =~= rect_points(*self));
                assert(res@ =~= rect_points(*self));
            }
            return res;
        }
        while y < ty
            invariant
                self.fits(),
                tx == self.extent_x(),
                ty == self.extent_y(),
                self.origin.y <= y <= ty,
                res@ + rect_rows_from(*self, y as int) == rect_points(*self),
            decreases ty - y,
        {
            let ghost row_start = res@;
            res.push(Point { x: self.origin.x, y });
            let mut x = self.origin.x;
            proof {
                assert(rect_row(*self, y as int)[0] == (Point { x: self.origin.x, y }));
                assert(res@ =~= row_start + rect_row(*self, y as int).take(1));
            }
            while (x as i64) + 1 < (tx as i64)
                invariant
                    self.fits(),
                    tx == self.extent_x(),
                    self.origin.y <= y < self.extent_y(),
                    self.origin.x <= x,
                    x < tx || x == self.origin.x,
                    x - self.origin.x + 1 <= rect_row_len(*self),
                    res@ == row_start + rect_row(*self, y as int).take(x - self.origin.x + 1),
                decreases tx - x,
            {
                x = x + 1;
                res.push(Point { x, y });
                proof {
                    assert(rect_row(*self, y as int)[x - self.origin.x] == (Point { x, y }));
                    assert(res@ =~= row_start + rect_row(*self, y as int).take(
                        x - self.origin.x + 1,
                    ));
                }
            }
            proof {
                assert(x - self.origin.x + 1 == rect_row_len(*self));
                assert(rect_row(*self, y as int).take(rect_row_len(*self)) =~= rect_row(
                    *self,
                    y as int,
                ));
                assert(rect_rows_from(*self, y as int) == rect_row(*self, y as int)
                    + rect_rows_from(*self, y + 1));
                assert(res@ + rect_rows_from(*self, y + 1) =~= (row_start + rect_rows_from(
                    *self,
                    y as int,
                )));
            }
            y = y + 1;
        }
        proof {
            assert(rect_rows_from(*self, y as int) =~= Seq::<Point>::empty());
            assert(res@ =~= rect_points(*self));
        }
        res
    }
}

/// Number of points a single scan row of `r` yields: the width of the box,
/// but never less than one.
pub open spec fn rect_row_len(r: Rectangle) -> int {
    if r.size.x >= 1 {
        r.size.x as int
    } else {
        1
    }
}

/// The scan row of `r` at height `y`, running left to right.
pub open spec fn rect_row(r: Rectangle, y: int) -> Seq<Point> {
    Seq::new(rect_row_len(r) as nat, |i: int| Point { x: (r.origin.x + i) as i32, y: y as i32 })
}

/// The rows of `r` from height `y` up to the top edge, concatenated.
pub open spec fn rect_rows_from(r: Rectangle, y: int) -> Seq<Point>
    decreases r.extent_y() - y,
{
    if y < r.origin.y || y >= r.extent_y() {
        Seq::empty()
    } else {
        rect_row(r, y) + rect_rows_from(r, y + 1)
    }
}

/// Every lattice point of `r` in scan order.
pub open spec fn rect_points(r: Rectangle) -> Seq<Point> {
    rect_rows_from(r, r.origin.y as int)
}

/// An incremental cursor over the lattice points of a rectangle, stepping
/// one point per call in the same order as [`Rectangle::iter_points`].
pub struct RectangleIterator {
    pub rectangle: Rectangle,
    pub cur_point: Point,
    pub top_right: Point,
}

impl RectangleIterator {
    /// The cursor position after one step from `cur` inside `r`.
    pub open spec fn spec_step(r: Rectangle, cur: Point, top_right: Point) -> Point {
        if cur.x + 1 >= top_right.x {
            Point { x: r.origin.x, y: (cur.y + 1) as i32 }
        } else {
            Point { x: (cur.x + 1) as i32, y: cur.y }
        }
    }

    pub fn new(rectangle: &Rectangle) -> (r: RectangleIterator)
        requires
            rectangle.fits(),
        ensures
            r.rectangle == *rectangle,
            r.cur_point == rectangle.origin,
            r.top_right.x == rectangle.extent_x(),
            r.top_right.y == rectangle.extent_y(),
    {
        RectangleIterator {
            rectangle: *rectangle,
            cur_point: rectangle.origin,
            top_right: rectangle.top_right(),
        }
    }

    /// Yield the current point and advance, or report exhaustion once the
    /// cursor has moved past the top edge.
    pub fn next(&mut self) -> (r: Option<Point>)
        requires
            old(self).cur_point.x < i32::MAX,
            old(self).cur_point.y < i32::MAX,
        ensures
            match r {
                None => {
                    &&& *final(self) == *old(self)
                    &&& old(self).cur_point.y >= old(self).top_right.y
                },
                Some(p) => {
                    &&& old(self).cur_point.y < old(self).top_right.y
                    &&& p == old(self).cur_point
                    &&& final(self).rectangle == old(self).rectangle
                    &&& final(self).top_right == old(self).top_right
                    &&& final(self).cur_point == Self::spec_step(
                        old(self).rectangle,
                        old(self).cur_point,
                        old(self).top_right,
                    )
                },
            },
    {
        let result = self.cur_point;
        if result.y >= self.top_right.y {
            return None;
        }
        if self.cur_point.x + 1 >= self.top_right.x {
            self.cur_point.x = self.rectangle.origin.x;
            self.cur_point.y = self.cur_point.y + 1;
        } else {
            self.cur_point.x = self.cur_point.x + 1;
        }
        Some(result)
    }
}

} // verus!
