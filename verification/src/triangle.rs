//! Canonical right-aligned triangles and exact scan-conversion.
//!
//! A [`StandardTriangle`] has its base parallel to one of the axes; the
//! [`Orientation`] names the side of the base on which the apex lies. A
//! reversible coordinate transposition maps every orientation onto the
//! upward one, so a single scan-line routine enumerates the lattice points
//! of all four, with edge-ownership rules that keep two triangles sharing
//! an edge from both painting it.

use vstd::prelude::*;

use crate::point::Point;
use crate::rectangle::{spec_max, spec_min, Rectangle};
use crate::{round_div, round_div_i64};

verus! {

/// Coordinates admitted into scan-conversion; keeps all intermediate
/// arithmetic inside 64-bit integers and all emitted points inside 32 bits.
pub const COORD_LIMIT: i32 = 0x0800_0000;

/// Which side of the base the apex of a [`StandardTriangle`] lies on.
///
/// `Up` and `Down` have a horizontal base; `Left` and `Right` a vertical
/// one.
#[derive(Clone, Copy, PartialEq, Eq, Structural, Debug)]
pub enum Orientation {
    Up,
    Down,
    Left,
    Right,
}

/// A triangle in one of the four canonical orientations: `p1` and `p2` span
/// the base (ordered along the base axis) and `p3` is the apex, strictly
/// beyond the base in the direction the orientation names.
#[derive(Clone, Copy, PartialEq, Eq, Structural, Debug)]
pub struct StandardTriangle {
    pub p1: Point,
    pub p2: Point,
    pub p3: Point,
    pub orientation: Orientation,
    pub is_transposed: bool,
}

/// The construction invariant of a [`StandardTriangle`]: the base is
/// axis-aligned and ordered, and the apex lies strictly on the named side.
pub open spec fn valid_orientation_spec(p1: Point, p2: Point, p3: Point, o: Orientation) -> bool {
    match o {
        Orientation::Up => p1.y == p2.y && p3.y > p1.y && p1.x < p2.x,
        Orientation::Down => p1.y == p2.y && p3.y < p1.y && p1.x < p2.x,
        Orientation::Left => p1.x == p2.x && p3.x < p1.x && p1.y < p2.y,
        Orientation::Right => p1.x == p2.x && p3.x > p1.x && p1.y < p2.y,
    }
}

impl StandardTriangle {
    /// A well-formed triangle: not transposed, and its points satisfy the
    /// construction invariant of its orientation.
    pub open spec fn wf(self) -> bool {
        &&& !self.is_transposed
        &&& valid_orientation_spec(self.p1, self.p2, self.p3, self.orientation)
    }

    /// All six coordinates lie within [`COORD_LIMIT`].
    pub open spec fn in_range(self) -> bool {
        &&& -COORD_LIMIT <= self.p1.x <= COORD_LIMIT
        &&& -COORD_LIMIT <= self.p1.y <= COORD_LIMIT
        &&& -COORD_LIMIT <= self.p2.x <= COORD_LIMIT
        &&& -COORD_LIMIT <= self.p2.y <= COORD_LIMIT
        &&& -COORD_LIMIT <= self.p3.x <= COORD_LIMIT
        &&& -COORD_LIMIT <= self.p3.y <= COORD_LIMIT
    }

    /// Distance from the base line to the apex.
    pub open spec fn spec_height(self) -> int {
        match self.orientation {
            Orientation::Up => self.p3.y - self.p1.y,
            Orientation::Down => self.p1.y - self.p3.y,
            Orientation::Left => self.p1.x - self.p3.x,
            Orientation::Right => self.p3.x - self.p1.x,
        }
    }

    pub fn new(p1: Point, p2: Point, p3: Point, orientation: Orientation) -> (r: StandardTriangle)
        requires
            valid_orientation_spec(p1, p2, p3, orientation),
        ensures
            r.p1 == p1,
            r.p2 == p2,
            r.p3 == p3,
            r.orientation == orientation,
            r.wf(),
    {
        StandardTriangle { p1, p2, p3, orientation, is_transposed: false }
    }

    /// Decide the construction invariant.
    pub fn valid_orientation(p1: &Point, p2: &Point, p3: &Point, orientation: Orientation) -> (r:
        bool)
        ensures
            r == valid_orientation_spec(*p1, *p2, *p3, orientation),
    {
        match orientation {
            Orientation::Up => p1.y == p2.y && p3.y > p1.y && p1.x < p2.x,
            Orientation::Down => p1.y == p2.y && p3.y < p1.y && p1.x < p2.x,
            Orientation::Left => p1.x == p2.x && p3.x < p1.x && p1.y < p2.y,
            Orientation::Right => p1.x == p2.x && p3.x > p1.x && p1.y < p2.y,
        }
    }

    /// Try every canonical form of the three points, orientation by
    /// orientation and permutation by permutation, and keep the first match.
    pub fn try_new(p1: &Point, p2: &Point, p3: &Point) -> (r: Option<StandardTriangle>)
        ensures
            r == try_new_spec(*p1, *p2, *p3),
            r is Some ==> r->Some_0.wf(),
    {
        proof {
            reveal_with_fuel(try_new_spec_at, 6);
        }
        if let Some((a, b, c)) = Self::first_perm(p1, p2, p3, Orientation::Up) {
            return Some(Self::new(a, b, c, Orientation::Up));
        }
        if let Some((a, b, c)) = Self::first_perm(p1, p2, p3, Orientation::Down) {
            return Some(Self::new(a, b, c, Orientation::Down));
        }
        if let Some((a, b, c)) = Self::first_perm(p1, p2, p3, Orientation::Right) {
            return Some(Self::new(a, b, c, Orientation::Right));
        }
        if let Some((a, b, c)) = Self::first_perm(p1, p2, p3, Orientation::Left) {
            return Some(Self::new(a, b, c, Orientation::Left));
        }
        None
    }

    /// First permutation of the points that is valid under `o`, in the fixed
    /// search order.
    fn first_perm(p1: &Point, p2: &Point, p3: &Point, o: Orientation) -> (r: Option<
        (Point, Point, Point),
    >)
        ensures
            match r {
                Some(t) => first_valid_perm(*p1, *p2, *p3, o) == Some(t) && valid_orientation_spec(
                    t.0,
                    t.1,
                    t.2,
                    o,
                ),
                None => first_valid_perm(*p1, *p2, *p3, o) is None,
            },
    {
        if Self::valid_orientation(p1, p2, p3, o) {
            Some((*p1, *p2, *p3))
        } else if Self::valid_orientation(p1, p3, p2, o) {
            Some((*p1, *p3, *p2))
        } else if Self::valid_orientation(p2, p1, p3, o) {
            Some((*p2, *p1, *p3))
        } else if Self::valid_orientation(p2, p3, p1, o) {
            Some((*p2, *p3, *p1))
        } else if Self::valid_orientation(p3, p1, p2, o) {
            Some((*p3, *p1, *p2))
        } else if Self::valid_orientation(p3, p2, p1, o) {
            Some((*p3, *p2, *p1))
        } else {
            None
        }
    }

    /// Distance from the base line to the apex.
    pub fn height(&self) -> (r: i32)
        requires
            self.wf(),
            self.in_range(),
        ensures
            r == self.spec_height(),
    {
        match self.orientation {
            Orientation::Up => self.p3.y - self.p1.y,
            Orientation::Down => self.p1.y - self.p3.y,
            Orientation::Left => self.p1.x - self.p3.x,
            Orientation::Right => self.p3.x - self.p1.x,
        }
    }

    /// The smallest rectangle covering the three corners.
    pub fn bounds(&self) -> (r: Rectangle)
        requires
            self.in_range(),
        ensures
            r.origin.x == spec_min(spec_min(self.p1.x as int, self.p2.x as int), self.p3.x as int),
            r.origin.y == spec_min(spec_min(self.p1.y as int, self.p2.y as int), self.p3.y as int),
            r.extent_x() == spec_max(
                spec_max(self.p1.x as int, self.p2.x as int),
                self.p3.x as int,
            ),
            r.extent_y() == spec_max(
                spec_max(self.p1.y as int, self.p2.y as int),
                self.p3.y as int,
            ),
    {
        let min_x = min_i32(min_i32(self.p1.x, self.p2.x), self.p3.x);
        let min_y = min_i32(min_i32(self.p1.y, self.p2.y), self.p3.y);
        let max_x = max_i32(max_i32(self.p1.x, self.p2.x), self.p3.x);
        let max_y = max_i32(max_i32(self.p1.y, self.p2.y), self.p3.y);
        Rectangle::from_bounds(Point::new(min_x, min_y), Point::new(max_x, max_y))
    }

    /// The y coordinate of the base row in the transposed (upward) frame.
    pub open spec fn base_y(self) -> int {
        match self.orientation {
            Orientation::Up | Orientation::Down => self.p1.y as int,
            Orientation::Left | Orientation::Right => self.p1.x as int,
        }
    }

    /// The left end of the base in the transposed frame.
    pub open spec fn left_x(self) -> int {
        match self.orientation {
            Orientation::Up | Orientation::Down => self.p1.x as int,
            Orientation::Left | Orientation::Right => self.p1.y as int,
        }
    }

    /// The right end of the base in the transposed frame.
    pub open spec fn right_x(self) -> int {
        match self.orientation {
            Orientation::Up | Orientation::Down => self.p2.x as int,
            Orientation::Left | Orientation::Right => self.p2.y as int,
        }
    }

    /// The apex's x coordinate in the transposed frame.
    pub open spec fn apex_x(self) -> int {
        match self.orientation {
            Orientation::Up | Orientation::Down => self.p3.x as int,
            Orientation::Left | Orientation::Right => self.p3.y as int,
        }
    }

    /// The apex's y coordinate in the transposed frame; always above the
    /// base.
    pub open spec fn apex_y(self) -> int {
        match self.orientation {
            Orientation::Up => self.p3.y as int,
            Orientation::Down => 2 * self.p1.y - self.p3.y,
            Orientation::Left => 2 * self.p1.x - self.p3.x,
            Orientation::Right => self.p3.x as int,
        }
    }

    /// Height of the triangle in the transposed frame.
    pub open spec fn th(self) -> int {
        self.apex_y() - self.base_y()
    }

    /// Width of the base in the transposed frame.
    pub open spec fn tw(self) -> int {
        self.right_x() - self.left_x()
    }

    /// Mirror or swap the coordinates so that the triangle reads as an
    /// upward one: downward triangles are mirrored about their base, the
    /// sideways ones have x and y exchanged (and `Left` mirrored).
    pub fn transpose(&self) -> (r: StandardTriangle)
        requires
            self.wf(),
            self.in_range(),
        ensures
            r.p1.x == self.left_x(),
            r.p1.y == self.base_y(),
            r.p2.x == self.right_x(),
            r.p2.y == self.base_y(),
            r.p3.x == self.apex_x(),
            r.p3.y == self.apex_y(),
            r.orientation == self.orientation,
            r.is_transposed,
    {
        match self.orientation {
            Orientation::Up => StandardTriangle {
                p1: self.p1,
                p2: self.p2,
                p3: self.p3,
                orientation: self.orientation,
                is_transposed: true,
            },
            Orientation::Down => StandardTriangle {
                p1: self.p1,
                p2: self.p2,
                p3: Point::new(self.p3.x, self.p3.y + 2 * self.height()),
                orientation: self.orientation,
                is_transposed: true,
            },
            Orientation::Left => StandardTriangle {
                p1: Point::new(self.p1.y, self.p1.x),
                p2: Point::new(self.p2.y, self.p2.x),
                p3: Point::new(self.p3.y, self.p3.x + 2 * self.height()),
                orientation: self.orientation,
                is_transposed: true,
            },
            Orientation::Right => StandardTriangle {
                p1: Point::new(self.p1.y, self.p1.x),
                p2: Point::new(self.p2.y, self.p2.x),
                p3: Point::new(self.p3.y, self.p3.x),
                orientation: self.orientation,
                is_transposed: true,
            },
        }
    }

    /// Map a point of the transposed frame back into the original one.
    ///
    /// `self` is the transposed triangle; the formulas are over its own
    /// fields, mirroring or swapping coordinates as its orientation asks.
    pub fn untranspose(&self, point: Point) -> (r: Point)
        requires
            self.is_transposed,
            -6 * COORD_LIMIT <= point.x <= 6 * COORD_LIMIT,
            -6 * COORD_LIMIT <= point.y <= 6 * COORD_LIMIT,
            -COORD_LIMIT <= self.p1.y <= COORD_LIMIT,
            point.y >= self.p1.y,
        ensures
            r == untranspose_spec(*self, point),
    {
        match self.orientation {
            Orientation::Up => point,
            Orientation::Down => {
                let d = crate::point::abs_diff_i32(point.y, self.p1.y) as i32;
                Point::new(point.x, point.y - 2 * d)
            },
            Orientation::Left => {
                let d = crate::point::abs_diff_i32(point.y, self.p1.y) as i32;
                Point::new(point.y - 2 * d, point.x)
            },
            Orientation::Right => Point::new(point.y, point.x),
        }
    }
}

impl StandardTriangle {
    /// The scan skips the leftmost point of every row: the apex leans right
    /// of the base's left end, so the left edge belongs to the neighbour.
    pub open spec fn skip_left_spec(self) -> bool {
        match self.orientation {
            Orientation::Up => self.p3.x > self.p1.x,
            Orientation::Down => self.p3.x < self.p1.x,
            Orientation::Left | Orientation::Right => false,
        }
    }

    /// The scan stops one point short at the right end of every row.
    pub open spec fn skip_right_spec(self) -> bool {
        match self.orientation {
            Orientation::Up => self.p3.x < self.p2.x,
            Orientation::Down => self.p3.x > self.p2.x,
            Orientation::Left | Orientation::Right => true,
        }
    }

    /// The scan stops one row short of the apex.
    pub open spec fn skip_top_spec(self) -> bool {
        self.orientation is Up
    }

    /// The scan starts one row above the base.
    pub open spec fn skip_bot_spec(self) -> bool {
        self.orientation is Down
    }

    /// One where the left column is skipped, zero otherwise.
    pub open spec fn sl(self) -> int {
        if self.skip_left_spec() {
            1
        } else {
            0
        }
    }

    /// One where the right column is skipped, zero otherwise.
    pub open spec fn sr(self) -> int {
        if self.skip_right_spec() {
            1
        } else {
            0
        }
    }

    /// How much earlier the scan terminates near the apex: a full row's
    /// worth when the top row is skipped.
    pub open spec fn top_margin(self) -> int {
        if self.skip_top_spec() {
            self.th()
        } else {
            0
        }
    }

    /// Numerator of the left cursor's exact position at scan row `k`; the
    /// denominator is the transposed height.
    pub open spec fn num_left(self, k: int) -> int {
        self.left_x() * self.th() + k * (self.apex_x() - self.left_x())
    }

    /// Numerator of the right cursor's exact position at scan row `k`.
    pub open spec fn num_right(self, k: int) -> int {
        self.right_x() * self.th() + k * (self.apex_x() - self.right_x())
    }

    /// First column of scan row `k`, after rounding and edge ownership.
    pub open spec fn lcol(self, k: int) -> int {
        round_div(self.num_left(k), self.th()) + self.sl()
    }

    /// Last owned column of scan row `k`.
    pub open spec fn rcol(self, k: int) -> int {
        round_div(self.num_right(k), self.th()) - self.sr()
    }

    /// Rightmost column the scan actually emits at row `k`: at least the
    /// first column, since a row that is entered always yields its first
    /// point.
    pub open spec fn row_hi(self, k: int) -> int {
        spec_max(self.lcol(k), self.rcol(k))
    }

    /// The scan is finished before it enters row `k`: the exact cursors
    /// have crossed, allowing for the top margin.
    pub open spec fn terminated(self, k: int) -> bool {
        self.num_left(k) > self.num_right(k) - self.top_margin()
    }

    /// A scanned point of the transposed frame mapped back: x coordinate.
    pub open spec fn untr_x(self, x: int, y: int) -> int {
        match self.orientation {
            Orientation::Up | Orientation::Down => x,
            Orientation::Left => 2 * self.p1.x - y,
            Orientation::Right => y,
        }
    }

    /// A scanned point of the transposed frame mapped back: y coordinate.
    pub open spec fn untr_y(self, x: int, y: int) -> int {
        match self.orientation {
            Orientation::Up => y,
            Orientation::Down => 2 * self.p1.y - y,
            Orientation::Left | Orientation::Right => x,
        }
    }

    /// The emitted point for transposed coordinates `(x, y)`.
    pub open spec fn scan_pt(self, x: int, y: int) -> Point {
        Point { x: self.untr_x(x, y) as i32, y: self.untr_y(x, y) as i32 }
    }

    /// The points of scan row `k`, left to right.
    pub open spec fn row_points(self, k: int) -> Seq<Point> {
        Seq::new(
            (self.row_hi(k) - self.lcol(k) + 1) as nat,
            |i: int| self.scan_pt(self.lcol(k) + i, self.base_y() + k),
        )
    }

    /// The base row of the scan. It is absent when the orientation gives
    /// the base row away (`Down`), or when the left skip pushes the start
    /// past the row's last owned column.
    pub open spec fn row0(self) -> Seq<Point> {
        if self.skip_bot_spec() || (self.skip_left_spec() && self.lcol(0) > self.rcol(0)) {
            Seq::empty()
        } else {
            self.row_points(0)
        }
    }

    /// All rows from `k` upward, until the cursors cross.
    pub open spec fn rows_from(self, k: int) -> Seq<Point>
        decreases self.th() + 1 - k,
    {
        if k < 1 || k > self.th() || self.terminated(k) {
            Seq::empty()
        } else {
            self.row_points(k) + self.rows_from(k + 1)
        }
    }

    /// Exactly the lattice points the scan-conversion of this triangle
    /// paints, in emission order.
    pub open spec fn tri_points(self) -> Seq<Point> {
        self.row0() + self.rows_from(1)
    }

    fn skip_left(&self) -> (r: bool)
        ensures
            r == self.skip_left_spec(),
    {
        match self.orientation {
            Orientation::Up => self.p3.x > self.p1.x,
            Orientation::Down => self.p3.x < self.p1.x,
            Orientation::Left | Orientation::Right => false,
        }
    }

    fn skip_right(&self) -> (r: bool)
        ensures
            r == self.skip_right_spec(),
    {
        match self.orientation {
            Orientation::Up => self.p3.x < self.p2.x,
            Orientation::Down => self.p3.x > self.p2.x,
            Orientation::Left | Orientation::Right => true,
        }
    }

    /// Emit the points of scan row `k`, columns `l` through `hi`, mapped
    /// back through `tt`, the transposed form of `self`.
    fn push_row(
        &self,
        tt: &StandardTriangle,
        res: &mut Vec<Point>,
        l: i64,
        hi: i64,
        y: i64,
        Ghost(k): Ghost<int>,
    )
        requires
            self.wf(),
            self.in_range(),
            tt.p1.x == self.left_x(),
            tt.p1.y == self.base_y(),
            tt.orientation == self.orientation,
            tt.is_transposed,
            k >= 0,
            l == self.lcol(k),
            hi == self.row_hi(k),
            y == self.base_y() + k,
            -(COORD_LIMIT + 1) <= l <= COORD_LIMIT + 1,
            -(COORD_LIMIT + 1) <= hi <= COORD_LIMIT + 1,
            self.base_y() <= y <= 3 * COORD_LIMIT + 1,
        ensures
            final(res)@ == old(res)@ + self.row_points(k),
    {
        let mut x: i64 = l;
        proof {
            assert(res@ =~= old(res)@ + self.row_points(k).take(0));
        }
        while x <= hi
            invariant
                self.wf(),
                self.in_range(),
                tt.p1.x == self.left_x(),
                tt.p1.y == self.base_y(),
                tt.orientation == self.orientation,
                tt.is_transposed,
                k >= 0,
                l == self.lcol(k),
                hi == self.row_hi(k),
                y == self.base_y() + k,
                -(COORD_LIMIT + 1) <= l <= COORD_LIMIT + 1,
                -(COORD_LIMIT + 1) <= hi <= COORD_LIMIT + 1,
                self.base_y() <= y <= 3 * COORD_LIMIT + 1,
                l <= x <= hi + 1,
                res@ == old(res)@ + self.row_points(k).take(x - l),
            decreases hi + 1 - x,
        {
            let p = tt.untranspose(Point::new(x as i32, y as i32));
            res.push(p);
            proof {
                assert(self.row_points(k)[x - l] == self.scan_pt(x as int, y as int));
                assert(p == self.scan_pt(x as int, y as int));
                assert(res@ =~= old(res)@ + self.row_points(k).take(x - l + 1));
            }
            x = x + 1;
        }
        proof {
            assert(self.row_points(k).take(hi + 1 - l) =~= self.row_points(k));
        }
    }

    /// All lattice points of this triangle, in scan order: transpose to the
    /// upward frame, walk the rows from the base toward the apex between
    /// the two rounded edge cursors, and map every point back.
    pub fn iter_points(&self) -> (r: Vec<Point>)
        requires
            self.wf(),
            self.in_range(),
        ensures
            r@ == self.tri_points(),
    {
        let tt = self.transpose();
        let lx: i64 = tt.p1.x as i64;
        let by: i64 = tt.p1.y as i64;
        let rx: i64 = tt.p2.x as i64;
        let ax: i64 = tt.p3.x as i64;
        let ay: i64 = tt.p3.y as i64;
        let h: i64 = ay - by;
        let sl_flag = self.skip_left();
        let sr_flag = self.skip_right();
        let top_margin: i64 = match self.orientation {
            Orientation::Up => h,
            _ => 0,
        };
        let mut res: Vec<Point> = Vec::new();

        let is_down = match self.orientation {
            Orientation::Down => true,
            _ => false,
        };
        if !is_down {
            let l0: i64 = lx + if sl_flag {
                1
            } else {
                0
            };
            let r0: i64 = rx - if sr_flag {
                1
            } else {
                0
            };
            proof {
                crate::lemma_round_div_exact(lx as int, h as int);
                crate::lemma_round_div_exact(rx as int, h as int);
                assert(self.num_left(0) == lx * h);
                assert(self.num_right(0) == rx * h);
                assert(l0 == self.lcol(0));
                assert(r0 == self.rcol(0));
            }
            if !(sl_flag && l0 > r0) {
                let hi = if l0 >= r0 {
                    l0
                } else {
                    r0
                };
                self.push_row(&tt, &mut res, l0, hi, by, Ghost(0));
            }
        }
        proof {
            assert(res@ =~= self.row0());
        }
        let mut k: i64 = 1;
        loop
            invariant
                self.wf(),
                self.in_range(),
                tt.p1.x == self.left_x(),
                tt.p1.y == self.base_y(),
                tt.p2.x == self.right_x(),
                tt.p3.x == self.apex_x(),
                tt.p3.y == self.apex_y(),
                tt.orientation == self.orientation,
                tt.is_transposed,
                lx == self.left_x(),
                by == self.base_y(),
                rx == self.right_x(),
                ax == self.apex_x(),
                ay == self.apex_y(),
                h == self.th(),
                1 <= h <= 4 * COORD_LIMIT,
                top_margin == self.top_margin(),
                sl_flag == self.skip_left_spec(),
                sr_flag == self.skip_right_spec(),
                1 <= k <= h + 1,
                res@ + self.rows_from(k as int) == self.tri_points(),
            ensures
                res@ == self.tri_points(),
            decreases h + 1 - k,
        {
            proof {
                lemma_scan_num_bounds(lx as int, h as int, k as int, ax - lx);
                lemma_scan_num_bounds(rx as int, h as int, k as int, ax - rx);
            }
            let nl: i64 = lx * h + k * (ax - lx);
            let nr: i64 = rx * h + k * (ax - rx);
            if nl > nr - top_margin {
                proof {
                    assert(self.terminated(k as int));
                    assert(self.rows_from(k as int) =~= Seq::<Point>::empty());
                    assert(res@ =~= self.tri_points());
                }
                break ;
            }
            proof {
                lemma_crossing_order(lx as int, rx as int, ax as int, h as int, k as int,
                    top_margin as int);
                assert(k <= h);
                lemma_cursor_in_band(lx as int, ax as int, h as int, k as int);
                lemma_cursor_in_band(rx as int, ax as int, h as int, k as int);
                crate::lemma_round_div_bounds(nl as int, h as int,
                    spec_min(lx as int, ax as int), spec_max(lx as int, ax as int));
                crate::lemma_round_div_bounds(nr as int, h as int,
                    spec_min(rx as int, ax as int), spec_max(rx as int, ax as int));
            }
            let l: i64 = round_div_i64(nl, h) + if sl_flag {
                1
            } else {
                0
            };
            let rr: i64 = round_div_i64(nr, h) - if sr_flag {
                1
            } else {
                0
            };
            let hi: i64 = if l >= rr {
                l
            } else {
                rr
            };
            proof {
                assert(nl == self.num_left(k as int));
                assert(nr == self.num_right(k as int));
                assert(l == self.lcol(k as int));
                assert(rr == self.rcol(k as int));
                assert(hi == self.row_hi(k as int));
            }
            self.push_row(&tt, &mut res, l, hi, by + k, Ghost(k as int));
            proof {
                assert(self.rows_from(k as int) == self.row_points(k as int) + self.rows_from(
                    k as int + 1,
                ));
                assert(res@ + self.rows_from(k as int + 1) =~= self.tri_points());
            }
            k = k + 1;
        }
        res
    }
}

/// The scan's exact-position numerators stay far inside 64 bits for
/// in-range triangles.
proof fn lemma_scan_num_bounds(x: int, h: int, k: int, d: int)
    by (nonlinear_arith)
    requires
        -0x0800_0000 <= x <= 0x0800_0000,
        0 <= h <= 0x2000_0000,
        0 <= k <= h + 1,
        -0x1000_0000 <= d <= 0x1000_0000,
    ensures
        -0x0800_0000_0000_0000 <= x * h <= 0x0800_0000_0000_0000,
        -0x0800_0000_0000_0000 <= k * d <= 0x0800_0000_0000_0000,
        -0x1000_0000_0000_0000 <= x * h + k * d <= 0x1000_0000_0000_0000,
{
}

/// While the cursors have not crossed, the scan row is still at or below
/// the apex row.
proof fn lemma_crossing_order(lx: int, rx: int, ax: int, h: int, k: int, margin: int)
    by (nonlinear_arith)
    requires
        h >= 1,
        rx > lx,
        margin >= 0,
        k >= 1,
        lx * h + k * (ax - lx) <= rx * h + k * (ax - rx) - margin,
    ensures
        k <= h,
{
}

/// The exact cursor position at row `k` lies between its two endpoints.
proof fn lemma_cursor_in_band(x: int, ax: int, h: int, k: int)
    by (nonlinear_arith)
    requires
        h >= 1,
        0 <= k <= h,
    ensures
        spec_min(x, ax) * h <= x * h + k * (ax - x) <= spec_max(x, ax) * h,
{
}

/// What [`StandardTriangle::untranspose`] returns: the point mirrored back
/// about the base and/or with its coordinates swapped back.
pub open spec fn untranspose_spec(t: StandardTriangle, p: Point) -> Point {
    match t.orientation {
        Orientation::Up => p,
        Orientation::Down => Point {
            x: p.x,
            y: (p.y - 2 * crate::point::abs_diff(p.y as int, t.p1.y as int)) as i32,
        },
        Orientation::Left => Point {
            x: (p.y - 2 * crate::point::abs_diff(p.y as int, t.p1.y as int)) as i32,
            y: p.x,
        },
        Orientation::Right => Point { x: p.y, y: p.x },
    }
}

/// First permutation of `(p1, p2, p3)` valid under `o`, in the fixed search
/// order of [`StandardTriangle::try_new`].
pub open spec fn first_valid_perm(p1: Point, p2: Point, p3: Point, o: Orientation) -> Option<
    (Point, Point, Point),
> {
    if valid_orientation_spec(p1, p2, p3, o) {
        Some((p1, p2, p3))
    } else if valid_orientation_spec(p1, p3, p2, o) {
        Some((p1, p3, p2))
    } else if valid_orientation_spec(p2, p1, p3, o) {
        Some((p2, p1, p3))
    } else if valid_orientation_spec(p2, p3, p1, o) {
        Some((p2, p3, p1))
    } else if valid_orientation_spec(p3, p1, p2, o) {
        Some((p3, p1, p2))
    } else if valid_orientation_spec(p3, p2, p1, o) {
        Some((p3, p2, p1))
    } else {
        None
    }
}

/// The orientations in the order [`StandardTriangle::try_new`] tries them.
pub open spec fn search_orientations() -> Seq<Orientation> {
    seq![Orientation::Up, Orientation::Down, Orientation::Right, Orientation::Left]
}

/// The first canonical form found from orientation index `i` onward.
pub open spec fn try_new_spec_at(p1: Point, p2: Point, p3: Point, i: int) -> Option<
    StandardTriangle,
>
    decreases 4 - i,
{
    if i < 0 || i >= 4 {
        None
    } else {
        match first_valid_perm(p1, p2, p3, search_orientations()[i]) {
            Some(t) => Some(
                StandardTriangle {
                    p1: t.0,
                    p2: t.1,
                    p3: t.2,
                    orientation: search_orientations()[i],
                    is_transposed: false,
                },
            ),
            None => try_new_spec_at(p1, p2, p3, i + 1),
        }
    }
}

/// The canonical form [`StandardTriangle::try_new`] finds, if any: the
/// first valid (orientation, permutation) pair in search order.
pub open spec fn try_new_spec(p1: Point, p2: Point, p3: Point) -> Option<StandardTriangle> {
    try_new_spec_at(p1, p2, p3, 0)
}

/// The three points admit some canonical form.
pub open spec fn has_standard_form(p1: Point, p2: Point, p3: Point) -> bool {
    try_new_spec(p1, p2, p3) is Some
}

/// The three points ordered by ascending y, by the stable three-element
/// exchange network the decomposition uses.
pub open spec fn sorted_by_y(p1: Point, p2: Point, p3: Point) -> (Point, Point, Point) {
    let (a, b) = if p1.y > p2.y {
        (p2, p1)
    } else {
        (p1, p2)
    };
    let (b2, c) = if b.y > p3.y {
        (p3, b)
    } else {
        (b, p3)
    };
    let (a2, b3) = if a.y > b2.y {
        (b2, a)
    } else {
        (a, b2)
    };
    (a2, b3, c)
}

/// Denominator of the exact crossing position: the height of the long
/// edge.
pub open spec fn split_denom(lo: Point, hi: Point) -> int {
    hi.y - lo.y
}

/// Numerator of the exact x position where the horizontal line through the
/// middle point crosses the segment from the lowest to the highest point.
pub open spec fn split_num(lo: Point, mid: Point, hi: Point) -> int {
    lo.x * (hi.y - lo.y) + (mid.y - lo.y) * (hi.x - lo.x)
}

/// The crossing x position rounded to the lattice: the base corner the
/// decomposition adds beside the middle point.
pub open spec fn split_x(lo: Point, mid: Point, hi: Point) -> int {
    round_div(split_num(lo, mid, hi), split_denom(lo, hi))
}

/// The three points admit the two-triangle split: their y coordinates are
/// pairwise distinct and the rounded crossing does not collapse onto the
/// middle point.
pub open spec fn decomposable(p1: Point, p2: Point, p3: Point) -> bool {
    let (lo, mid, hi) = sorted_by_y(p1, p2, p3);
    lo.y < mid.y && mid.y < hi.y && split_x(lo, mid, hi) != mid.x
}

/// The upper triangle of the split: the base runs through the middle point
/// and the crossing, the apex is the highest point.
pub open spec fn split_up(p1: Point, p2: Point, p3: Point) -> StandardTriangle {
    let (lo, mid, hi) = sorted_by_y(p1, p2, p3);
    let p4 = Point { x: split_x(lo, mid, hi) as i32, y: mid.y };
    if p4.x < mid.x {
        StandardTriangle { p1: p4, p2: mid, p3: hi, orientation: Orientation::Up, is_transposed: false }
    } else {
        StandardTriangle { p1: mid, p2: p4, p3: hi, orientation: Orientation::Up, is_transposed: false }
    }
}

/// The lower triangle of the split: same base, apex at the lowest point.
pub open spec fn split_down(p1: Point, p2: Point, p3: Point) -> StandardTriangle {
    let (lo, mid, hi) = sorted_by_y(p1, p2, p3);
    let p4 = Point { x: split_x(lo, mid, hi) as i32, y: mid.y };
    if p4.x < mid.x {
        StandardTriangle { p1: p4, p2: mid, p3: lo, orientation: Orientation::Down, is_transposed: false }
    } else {
        StandardTriangle { p1: mid, p2: p4, p3: lo, orientation: Orientation::Down, is_transposed: false }
    }
}

/// Order three points by ascending y and hand them back as
/// (middle, highest, lowest), the order the decomposition consumes.
fn prepare_point_order(p1: Point, p2: Point, p3: Point) -> (r: (Point, Point, Point))
    ensures
        ({
            let (lo, mid, hi) = sorted_by_y(p1, p2, p3);
            r.0 == mid && r.1 == hi && r.2 == lo
        }),
{
    let (a, b) = if p1.y > p2.y {
        (p2, p1)
    } else {
        (p1, p2)
    };
    let (b2, c) = if b.y > p3.y {
        (p3, b)
    } else {
        (b, p3)
    };
    let (a2, b3) = if a.y > b2.y {
        (b2, a)
    } else {
        (a, b2)
    };
    (b3, c, a2)
}

/// An arbitrary triangle, held as its decomposition into one or two
/// canonical triangles: one when the corners already admit a canonical
/// form, else an upper and a lower triangle meeting on a horizontal base
/// through the middle corner.
pub struct Triangle {
    pub t1: StandardTriangle,
    pub t2: Option<StandardTriangle>,
}

impl Triangle {
    /// Both parts are well-formed, in-range canonical triangles.
    pub open spec fn wf(self) -> bool {
        &&& self.t1.wf()
        &&& self.t1.in_range()
        &&& match self.t2 {
            Some(t) => t.wf() && t.in_range(),
            None => true,
        }
    }

    /// The points of the whole triangle: the first part's scan points
    /// followed by the second part's, when there is one.
    pub open spec fn spec_points(self) -> Seq<Point> {
        self.t1.tri_points() + match self.t2 {
            Some(t) => t.tri_points(),
            None => Seq::empty(),
        }
    }

    /// Wrap an already-canonical triangle.
    pub fn new_standard(p1: Point, p2: Point, p3: Point, orientation: Orientation) -> (r: Triangle)
        requires
            valid_orientation_spec(p1, p2, p3, orientation),
        ensures
            r.t1 == (StandardTriangle { p1, p2, p3, orientation, is_transposed: false }),
            r.t2 is None,
    {
        let t1 = StandardTriangle::new(p1, p2, p3, orientation);
        Triangle { t1, t2: None }
    }

    /// Decompose three corners: keep a direct canonical form when one
    /// exists, else split along the horizontal through the middle corner,
    /// placing the crossing point beside it on the shared base.
    pub fn new(p1: Point, p2: Point, p3: Point) -> (r: Triangle)
        requires
            -COORD_LIMIT <= p1.x <= COORD_LIMIT,
            -COORD_LIMIT <= p1.y <= COORD_LIMIT,
            -COORD_LIMIT <= p2.x <= COORD_LIMIT,
            -COORD_LIMIT <= p2.y <= COORD_LIMIT,
            -COORD_LIMIT <= p3.x <= COORD_LIMIT,
            -COORD_LIMIT <= p3.y <= COORD_LIMIT,
            has_standard_form(p1, p2, p3) || decomposable(p1, p2, p3),
        ensures
            has_standard_form(p1, p2, p3) ==> r.t1 == try_new_spec(p1, p2, p3)->Some_0 && r.t2
                is None,
            !has_standard_form(p1, p2, p3) ==> r.t1 == split_up(p1, p2, p3) && r.t2 == Some(
                split_down(p1, p2, p3),
            ),
            r.wf(),
    {
        if let Some(t1) = StandardTriangle::try_new(&p1, &p2, &p3) {
            proof {
                reveal_with_fuel(try_new_spec_at, 6);
                assert(t1.in_range());
            }
            return Triangle { t1, t2: None };
        }
        let (m, hi, lo) = prepare_point_order(p1, p2, p3);

        let denom: i64 = hi.y as i64 - lo.y as i64;
        proof {
            assert((lo.x as i64) * denom == lo.x * (hi.y - lo.y)
                && ((m.y - lo.y) as i64) * ((hi.x - lo.x) as i64) == (m.y - lo.y) * (hi.x - lo.x)
                && -0x0800_0000_0000_0000 <= lo.x * (hi.y - lo.y) <= 0x0800_0000_0000_0000
                && -0x0800_0000_0000_0000 <= (m.y - lo.y) * (hi.x - lo.x) <= 0x0800_0000_0000_0000)
                by (nonlinear_arith)
                requires
                    -COORD_LIMIT <= lo.x <= COORD_LIMIT,
                    -COORD_LIMIT <= lo.y <= COORD_LIMIT,
                    -COORD_LIMIT <= m.y <= COORD_LIMIT,
                    -COORD_LIMIT <= hi.x <= COORD_LIMIT,
                    -COORD_LIMIT <= hi.y <= COORD_LIMIT,
                    denom == hi.y - lo.y,
            ;
        }
        let num: i64 = lo.x as i64 * denom + (m.y - lo.y) as i64 * (hi.x - lo.x) as i64;
        proof {
            lemma_cursor_in_band(lo.x as int, hi.x as int, denom as int, m.y - lo.y);
            crate::lemma_round_div_bounds(num as int, denom as int,
                spec_min(lo.x as int, hi.x as int), spec_max(lo.x as int, hi.x as int));
        }
        let sx = round_div_i64(num, denom);
        let p4 = Point::new(sx as i32, m.y);

        let (t1, t2) = if sx < m.x as i64 {
            (
                StandardTriangle::new(p4, m, hi, Orientation::Up),
                StandardTriangle::new(p4, m, lo, Orientation::Down),
            )
        } else {
            (
                StandardTriangle::new(m, p4, hi, Orientation::Up),
                StandardTriangle::new(m, p4, lo, Orientation::Down),
            )
        };

        Triangle { t1, t2: Some(t2) }
    }

    /// Hand out the one or two canonical parts.
    pub fn to_triangles(self) -> (r: (StandardTriangle, Option<StandardTriangle>))
        ensures
            r.0 == self.t1,
            r.1 == self.t2,
    {
        (self.t1, self.t2)
    }

    /// All lattice points of the triangle: the points of the first part
    /// followed by those of the second.
    pub fn iter_points(&self) -> (r: Vec<Point>)
        requires
            self.wf(),
        ensures
            r@ == self.spec_points(),
    {
        let mut res = self.t1.iter_points();
        if let Some(t2) = &self.t2 {
            let mut more = t2.iter_points();
            res.append(&mut more);
        }
        res
    }
}

/// Idempotent decomposition: three corners that already form a canonical
/// triangle decompose back into exactly that triangle, with no second
/// part. [`Triangle::new`] then returns the original triangle and `None`,
/// by its own contract.
///
/// For a sideways triangle whose apex shares a y coordinate with a base
/// corner, the search legitimately prefers the equivalent horizontal-base
/// form it finds first, so those corners are left out here.
pub proof fn lemma_decomposition_identity(p1: Point, p2: Point, p3: Point, o: Orientation)
    requires
        valid_orientation_spec(p1, p2, p3, o),
        o is Left || o is Right ==> p3.y != p1.y && p3.y != p2.y,
    ensures
        has_standard_form(p1, p2, p3),
        try_new_spec(p1, p2, p3) == Some(
            StandardTriangle { p1, p2, p3, orientation: o, is_transposed: false },
        ),
{
    reveal_with_fuel(try_new_spec_at, 6);
}

/// The smaller of two machine integers.
pub fn min_i32(a: i32, b: i32) -> (r: i32)
    ensures
        r == spec_min(a as int, b as int),
{
    if a <= b {
        a
    } else {
        b
    }
}

/// The larger of two machine integers.
pub fn max_i32(a: i32, b: i32) -> (r: i32)
    ensures
        r == spec_max(a as int, b as int),
{
    if a >= b {
        a
    } else {
        b
    }
}

} // verus!
