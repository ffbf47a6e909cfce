//! Closed shapes composed of canonical triangles and rectangles.

use vstd::prelude::*;

use crate::point::Point;
use crate::rectangle::{rect_points, Rectangle};
use crate::triangle::{
    decomposable, has_standard_form, split_down, split_up, try_new_spec, StandardTriangle,
    Triangle, COORD_LIMIT,
};

verus! {

/// A rectangle whose corners both lie within [`COORD_LIMIT`].
pub open spec fn rect_in_range(r: Rectangle) -> bool {
    &&& -COORD_LIMIT <= r.origin.x <= COORD_LIMIT
    &&& -COORD_LIMIT <= r.origin.y <= COORD_LIMIT
    &&& -COORD_LIMIT <= r.extent_x() <= COORD_LIMIT
    &&& -COORD_LIMIT <= r.extent_y() <= COORD_LIMIT
}

/// The sentinel the bounding-box fold starts from: an inverted box from
/// the far corner of the coordinate space back to the origin, so that the
/// first union replaces its origin and its extent never drops below zero.
pub open spec fn bbox_sentinel() -> Rectangle {
    Rectangle {
        origin: Point { x: i32::MAX, y: i32::MAX },
        size: Point { x: (0 - i32::MAX) as i32, y: (0 - i32::MAX) as i32 },
    }
}

/// The bounding rectangle of a canonical triangle's three corners.
pub open spec fn tri_bounds_rect(t: StandardTriangle) -> Rectangle {
    let minx = crate::rectangle::spec_min(
        crate::rectangle::spec_min(t.p1.x as int, t.p2.x as int),
        t.p3.x as int,
    );
    let miny = crate::rectangle::spec_min(
        crate::rectangle::spec_min(t.p1.y as int, t.p2.y as int),
        t.p3.y as int,
    );
    let maxx = crate::rectangle::spec_max(
        crate::rectangle::spec_max(t.p1.x as int, t.p2.x as int),
        t.p3.x as int,
    );
    let maxy = crate::rectangle::spec_max(
        crate::rectangle::spec_max(t.p1.y as int, t.p2.y as int),
        t.p3.y as int,
    );
    Rectangle {
        origin: Point { x: minx as i32, y: miny as i32 },
        size: Point { x: (maxx - minx) as i32, y: (maxy - miny) as i32 },
    }
}

/// Fold the triangles' bounds into `acc`, in order, from index `i`.
pub open spec fn bbox_fold_tris(ts: Seq<StandardTriangle>, i: int, acc: Rectangle) -> Rectangle
    decreases ts.len() - i,
{
    if i < 0 || i >= ts.len() {
        acc
    } else {
        bbox_fold_tris(ts, i + 1, acc.spec_union(tri_bounds_rect(ts[i])))
    }
}

/// Fold the rectangles into `acc`, in order, from index `i`.
pub open spec fn bbox_fold_rects(rs: Seq<Rectangle>, i: int, acc: Rectangle) -> Rectangle
    decreases rs.len() - i,
{
    if i < 0 || i >= rs.len() {
        acc
    } else {
        bbox_fold_rects(rs, i + 1, acc.spec_union(rs[i]))
    }
}

/// The bounding box of a polygon's members: every triangle's bounds and
/// every rectangle, united in member order onto the sentinel.
pub open spec fn poly_bbox(ts: Seq<StandardTriangle>, rs: Seq<Rectangle>) -> Rectangle {
    bbox_fold_rects(rs, 0, bbox_fold_tris(ts, 0, bbox_sentinel()))
}

/// The lattice points of the rectangles from index `i` on, concatenated.
pub open spec fn rects_points_from(rs: Seq<Rectangle>, i: int) -> Seq<Point>
    decreases rs.len() - i,
{
    if i < 0 || i >= rs.len() {
        Seq::empty()
    } else {
        rect_points(rs[i]) + rects_points_from(rs, i + 1)
    }
}

/// The lattice points of the triangles from index `i` on, concatenated.
pub open spec fn tris_points_from(ts: Seq<StandardTriangle>, i: int) -> Seq<Point>
    decreases ts.len() - i,
{
    if i < 0 || i >= ts.len() {
        Seq::empty()
    } else {
        ts[i].tri_points() + tris_points_from(ts, i + 1)
    }
}

/// A closed shape owning canonical triangles and rectangles, with the
/// cached bounding box of all its members.
pub struct Polygon {
    pub triangles: Vec<StandardTriangle>,
    pub rectangles: Vec<Rectangle>,
    pub bounding_box: Rectangle,
}

/// Intermediate state of the bounding-box fold: still the untouched
/// sentinel, or a box bounded by the coordinate limit with a nonnegative
/// extent.
pub open spec fn bbox_acc_ok(acc: Rectangle) -> bool {
    ||| acc == bbox_sentinel()
    ||| {
        &&& -COORD_LIMIT <= acc.origin.x <= COORD_LIMIT
        &&& -COORD_LIMIT <= acc.origin.y <= COORD_LIMIT
        &&& 0 <= acc.extent_x() <= COORD_LIMIT
        &&& 0 <= acc.extent_y() <= COORD_LIMIT
    }
}

impl Polygon {
    /// Every member triangle is well-formed and in range, every member
    /// rectangle in range, and the cached box is the members' bounding
    /// box.
    pub open spec fn wf(self) -> bool {
        &&& forall|i: int|
            0 <= i < self.triangles@.len() ==> (#[trigger] self.triangles@[i]).wf()
                && self.triangles@[i].in_range()
        &&& forall|i: int| 0 <= i < self.rectangles@.len() ==> rect_in_range(
            #[trigger] self.rectangles@[i],
        )
        &&& self.bounding_box == poly_bbox(self.triangles@, self.rectangles@)
    }

    /// All member points in emission order: every rectangle's points, then
    /// every triangle's, member by member. No deduplication happens here.
    pub open spec fn spec_points(self) -> Seq<Point> {
        rects_points_from(self.rectangles@, 0) + tris_points_from(self.triangles@, 0)
    }

    /// Compose a polygon from parts, computing the bounding box as the
    /// union of every member's bounds over an inverted sentinel box.
    pub fn from_shapes(triangles: Vec<StandardTriangle>, rectangles: Vec<Rectangle>) -> (r:
        Polygon)
        requires
            forall|i: int|
                0 <= i < triangles@.len() ==> (#[trigger] triangles@[i]).wf()
                    && triangles@[i].in_range(),
            forall|i: int| 0 <= i < rectangles@.len() ==> rect_in_range(
                #[trigger] rectangles@[i],
            ),
        ensures
            r.triangles == triangles,
            r.rectangles == rectangles,
            r.bounding_box == poly_bbox(triangles@, rectangles@),
            r.wf(),
    {
        let mut bounding_box = Rectangle::from_bounds(
            Point::new(i32::MAX, i32::MAX),
            Point::new(0, 0),
        );
        proof {
            assert(bounding_box == bbox_sentinel());
        }
        let ghost start = bounding_box;
        let mut ti: usize = 0;
        while ti < triangles.len()
            invariant
                forall|i: int|
                    0 <= i < triangles@.len() ==> (#[trigger] triangles@[i]).wf()
                        && triangles@[i].in_range(),
                ti <= triangles@.len(),
                bbox_acc_ok(bounding_box),
                bbox_fold_tris(triangles@, ti as int, bounding_box) == bbox_fold_tris(
                    triangles@,
                    0,
                    bbox_sentinel(),
                ),
            decreases triangles@.len() - ti,
        {
            let b = triangles[ti].bounds();
            bounding_box.union(&b);
            proof {
                assert(b == tri_bounds_rect(triangles@[ti as int]));
            }
            ti = ti + 1;
        }
        let mut ri: usize = 0;
        while ri < rectangles.len()
            invariant
                forall|i: int| 0 <= i < rectangles@.len() ==> rect_in_range(
                    #[trigger] rectangles@[i],
                ),
                ri <= rectangles@.len(),
                bbox_acc_ok(bounding_box),
                bbox_fold_rects(rectangles@, ri as int, bounding_box) == poly_bbox(
                    triangles@,
                    rectangles@,
                ),
            decreases rectangles@.len() - ri,
        {
            bounding_box.union(&rectangles[ri]);
            ri = ri + 1;
        }
        Polygon { triangles, rectangles, bounding_box }
    }

    /// A polygon holding the decomposition of one arbitrary triangle.
    pub fn triangle(p1: Point, p2: Point, p3: Point) -> (r: Polygon)
        requires
            -COORD_LIMIT <= p1.x <= COORD_LIMIT,
            -COORD_LIMIT <= p1.y <= COORD_LIMIT,
            -COORD_LIMIT <= p2.x <= COORD_LIMIT,
            -COORD_LIMIT <= p2.y <= COORD_LIMIT,
            -COORD_LIMIT <= p3.x <= COORD_LIMIT,
            -COORD_LIMIT <= p3.y <= COORD_LIMIT,
            has_standard_form(p1, p2, p3) || decomposable(p1, p2, p3),
        ensures
            has_standard_form(p1, p2, p3) ==> r.triangles@ =~= seq![
                try_new_spec(p1, p2, p3)->Some_0,
            ],
            !has_standard_form(p1, p2, p3) ==> r.triangles@ =~= seq![
                split_up(p1, p2, p3),
                split_down(p1, p2, p3),
            ],
            r.rectangles@ =~= Seq::<Rectangle>::empty(),
            r.wf(),
    {
        let tri = Triangle::new(p1, p2, p3);
        let (t1, maybe_t2) = tri.to_triangles();
        let mut triangles: Vec<StandardTriangle> = Vec::new();
        triangles.push(t1);
        if let Some(t2) = maybe_t2 {
            triangles.push(t2);
        }
        Polygon::from_shapes(triangles, Vec::new())
    }

    /// All member points, rectangles first, then triangles.
    pub fn iter_points(&self) -> (r: Vec<Point>)
        requires
            self.wf(),
        ensures
            r@ == self.spec_points(),
    {
        let mut res: Vec<Point> = Vec::new();
        let mut ri: usize = 0;
        proof {
            assert(res@ + rects_points_from(self.rectangles@, 0) =~= rects_points_from(
                self.rectangles@,
                0,
            ));
        }
        while ri < self.rectangles.len()
            invariant
                self.wf(),
                ri <= self.rectangles@.len(),
                res@ + rects_points_from(self.rectangles@, ri as int) == rects_points_from(
                    self.rectangles@,
                    0,
                ),
            decreases self.rectangles@.len() - ri,
        {
            let ghost before = res@;
            let mut pts = self.rectangles[ri].iter_points();
            res.append(&mut pts);
            proof {
                assert(rects_points_from(self.rectangles@, ri as int) == rect_points(
                    self.rectangles@[ri as int],
                ) + rects_points_from(self.rectangles@, ri + 1));
                assert(res@ + rects_points_from(self.rectangles@, ri + 1) =~= before
                    + rects_points_from(self.rectangles@, ri as int));
            }
            ri = ri + 1;
        }
        let ghost rect_part = res@;
        let mut ti: usize = 0;
        while ti < self.triangles.len()
            invariant
                self.wf(),
                ti <= self.triangles@.len(),
                rect_part == rects_points_from(self.rectangles@, 0),
                res@ + tris_points_from(self.triangles@, ti as int) == rect_part
                    + tris_points_from(self.triangles@, 0),
            decreases self.triangles@.len() - ti,
        {
            let ghost before = res@;
            let mut pts = self.triangles[ti].iter_points();
            res.append(&mut pts);
            proof {
                assert(tris_points_from(self.triangles@, ti as int)
                    == self.triangles@[ti as int].tri_points() + tris_points_from(
                    self.triangles@,
                    ti + 1,
                ));
                assert(res@ + tris_points_from(self.triangles@, ti + 1) =~= before
                    + tris_points_from(self.triangles@, ti as int));
            }
            ti = ti + 1;
        }
        proof {
            assert(tris_points_from(self.triangles@, self.triangles@.len() as int)
                =~= Seq::<Point>::empty());
            assert(res@ =~= self.spec_points());
        }
        res
    }

    /// The cached bounding box.
    pub fn bounds(&self) -> (r: Rectangle)
        ensures
            r == self.bounding_box,
    {
        self.bounding_box.bounds()
    }
}

} // verus!
