//! Rectangular cells and their grid tessellation.

use vstd::prelude::*;

use crate::point::Point;
use crate::polygon::{poly_bbox, rect_in_range, Polygon};
use crate::rectangle::Rectangle;
use crate::tessellation::{grid_row, grid_rows, on_grid_lattice};
use crate::{trunc_div, trunc_div_i32, trunc_mod, trunc_mod_i32};

verus! {

/// The polygon holding exactly one rectangle member.
pub open spec fn rect_cell_matches(p: Polygon, b: Rectangle) -> bool {
    &&& p.triangles@ =~= Seq::<crate::triangle::StandardTriangle>::empty()
    &&& p.rectangles@ =~= seq![b]
    &&& p.bounding_box == poly_bbox(p.triangles@, p.rectangles@)
    &&& p.bounding_box.origin == b.origin
}

/// Whether the grid starts on a skewed row: only when the brick offset is
/// asked for, from the parity of the row index the center falls on.
pub open spec fn rp_start_odd(c: Point, size: Point, offset: bool) -> bool {
    offset && trunc_mod(0 - trunc_div(c.y as int, size.y as int), 2) != 0
}

/// Horizontal offset of every other row: half a cell.
pub open spec fn rp_skew(size: Point) -> int {
    trunc_div(size.x as int, 2)
}

/// The x anchor of the grid, normalized to the cell width around the
/// coordinate origin, pulled back half a step when the grid starts on a
/// skewed row.
pub open spec fn rp_start_x(c: Point, size: Point, offset: bool) -> int {
    trunc_mod(c.x - trunc_div(size.x as int, 2), size.x as int) - if rp_start_odd(
        c,
        size,
        offset,
    ) {
        rp_skew(size)
    } else {
        0
    }
}

/// The y anchor of the grid, normalized to the cell height around the
/// coordinate origin.
pub open spec fn rp_start_y(c: Point, size: Point) -> int {
    trunc_mod(c.y - trunc_div(size.y as int, 2), size.y as int)
}

/// The cell boxes of the whole tessellation, in emission order.
pub open spec fn rp_cells(c: Point, size: Point, b: Rectangle, offset: bool) -> Seq<Rectangle> {
    grid_rows(
        rp_start_x(c, size, offset),
        rp_start_y(c, size),
        false,
        rp_skew(size),
        size.x as int,
        size.y as int,
        b.extent_x(),
        b.extent_y(),
        size,
    )
}

/// The origin lies on the half-step lattice every tessellation with this
/// center, cell size and offset flag shares, whatever its bounds.
pub open spec fn on_rp_lattice(c: Point, size: Point, offset: bool, o: Point) -> bool {
    on_grid_lattice(
        rp_start_x(c, size, offset),
        rp_start_y(c, size),
        rp_skew(size),
        size.x as int,
        size.y as int,
        o,
    )
}

/// A rectangular cell and its tessellation over a bounded area.
pub struct RectanglePoly {}

impl RectanglePoly {
    /// A polygon holding one rectangle.
    pub fn new(bot_left: Point, size: Point) -> (r: Polygon)
        requires
            rect_in_range(Rectangle { origin: bot_left, size }),
        ensures
            rect_cell_matches(r, Rectangle { origin: bot_left, size }),
            r.wf(),
    {
        let rect = Rectangle::new(bot_left, size);
        Self::from_bbox(&rect)
    }

    /// A polygon holding a copy of the given box.
    pub fn from_bbox(bbox: &Rectangle) -> (r: Polygon)
        requires
            rect_in_range(*bbox),
        ensures
            rect_cell_matches(r, *bbox),
            r.wf(),
    {
        let rect = Rectangle::new(bbox.origin, bbox.size);
        let mut rectangles: Vec<Rectangle> = Vec::new();
        rectangles.push(rect);
        let poly = Polygon::from_shapes(Vec::new(), rectangles);
        proof {
            reveal_with_fuel(crate::polygon::bbox_fold_tris, 2);
            reveal_with_fuel(crate::polygon::bbox_fold_rects, 3);
            assert(poly.bounding_box.origin == bbox.origin);
        }
        poly
    }

    /// Tile the area `bounds` with rectangle cells, anchored so that
    /// `center` falls on a cell center; rows alternate a half-cell skew,
    /// starting skewed only when `offset` asks for it and the center's row
    /// is odd.
    pub fn tessellate(center: &Point, size: &Point, bounds: &Rectangle, offset: bool) -> (r: Vec<
        Polygon,
    >)
        requires
            -0x0400_0000 <= center.x <= 0x0400_0000,
            -0x0400_0000 <= center.y <= 0x0400_0000,
            1 <= size.x <= 0x0020_0000,
            1 <= size.y <= 0x0020_0000,
            -0x0400_0000 <= bounds.origin.x <= 0x0400_0000,
            -0x0400_0000 <= bounds.origin.y <= 0x0400_0000,
            -0x0400_0000 <= bounds.extent_x() <= 0x0400_0000,
            -0x0400_0000 <= bounds.extent_y() <= 0x0400_0000,
        ensures
            r@.len() == rp_cells(*center, *size, *bounds, offset).len(),
            forall|m: int|
                0 <= m < r@.len() ==> rect_cell_matches(
                    #[trigger] r@[m],
                    rp_cells(*center, *size, *bounds, offset)[m],
                ) && r@[m].wf(),
            forall|m: int|
                0 <= m < r@.len() ==> on_rp_lattice(
                    *center,
                    *size,
                    offset,
                    (#[trigger] r@[m]).bounding_box.origin,
                ),
    {
        let ghost c = *center;
        let ghost cells = rp_cells(*center, *size, *bounds, offset);

        let step = *size;
        let x_skew = trunc_div_i32(size.x, 2);
        let pre_x = center.x - trunc_div_i32(size.x, 2);
        let pre_y = center.y - trunc_div_i32(size.y, 2);
        let ox0 = trunc_mod_i32(pre_x, step.x);
        let oy0 = trunc_mod_i32(pre_y, step.y);
        let row = 0 - trunc_div_i32(center.y, step.y);
        let is_skewed = offset && trunc_mod_i32(row, 2) != 0;
        let start_x = if is_skewed {
            ox0 - x_skew
        } else {
            ox0
        };
        proof {
            assert(is_skewed == rp_start_odd(c, *size, offset));
            assert(start_x as int == rp_start_x(c, *size, offset));
            assert(oy0 as int == rp_start_y(c, *size));
        }
        let ext = bounds.extent();
        let mut res: Vec<Polygon> = Vec::new();
        let mut oy = oy0;
        let mut odd_rel = false;
        proof {
            assert(cells.skip(0) =~= cells);
        }
        while oy <= ext.y
            invariant
                c == *center,
                cells == rp_cells(c, *size, *bounds, offset),
                step == *size,
                1 <= step.x <= 0x0020_0000,
                1 <= step.y <= 0x0020_0000,
                x_skew as int == rp_skew(*size),
                0 <= x_skew <= step.x,
                start_x as int == rp_start_x(c, *size, offset),
                -0x0080_0000 <= start_x <= 0x0080_0000,
                oy0 as int == rp_start_y(c, *size),
                -0x0080_0000 <= oy0,
                oy0 <= oy,
                oy as int <= crate::rectangle::spec_max(ext.y + step.y, oy0 as int),
                ext.x == bounds.extent_x(),
                ext.y == bounds.extent_y(),
                -0x0400_0000 <= ext.x <= 0x0400_0000,
                -0x0400_0000 <= ext.y <= 0x0400_0000,
                res@.len() <= cells.len(),
                cells.skip(res@.len() as int) == grid_rows(
                    start_x as int,
                    oy as int,
                    odd_rel,
                    x_skew as int,
                    step.x as int,
                    step.y as int,
                    ext.x as int,
                    ext.y as int,
                    *size,
                ),
                forall|m: int|
                    0 <= m < res@.len() ==> rect_cell_matches(#[trigger] res@[m], cells[m])
                        && res@[m].wf(),
            decreases ext.y + step.y - oy,
        {
            let mut ox = if odd_rel {
                start_x + x_skew
            } else {
                start_x
            };
            proof {
                assert(grid_rows(
                    start_x as int,
                    oy as int,
                    odd_rel,
                    x_skew as int,
                    step.x as int,
                    step.y as int,
                    ext.x as int,
                    ext.y as int,
                    *size,
                ) == grid_row(ox as int, oy as int, step.x as int, ext.x as int, *size)
                    + grid_rows(
                    start_x as int,
                    oy + step.y,
                    !odd_rel,
                    x_skew as int,
                    step.x as int,
                    step.y as int,
                    ext.x as int,
                    ext.y as int,
                    *size,
                ));
            }
            while ox <= ext.x
                invariant
                    c == *center,
                    cells == rp_cells(c, *size, *bounds, offset),
                    step == *size,
                    1 <= step.x <= 0x0020_0000,
                    1 <= step.y <= 0x0020_0000,
                    x_skew as int == rp_skew(*size),
                    0 <= x_skew <= step.x,
                    start_x as int == rp_start_x(c, *size, offset),
                    -0x0080_0000 <= start_x <= 0x0080_0000,
                    -0x0100_0000 <= ox,
                    ox as int <= crate::rectangle::spec_max(ext.x + step.x, start_x + x_skew),
                    -0x0080_0000 <= oy,
                    oy <= ext.y,
                    ext.x == bounds.extent_x(),
                    ext.y == bounds.extent_y(),
                    -0x0400_0000 <= ext.x <= 0x0400_0000,
                    -0x0400_0000 <= ext.y <= 0x0400_0000,
                    res@.len() <= cells.len(),
                    cells.skip(res@.len() as int) == grid_row(
                        ox as int,
                        oy as int,
                        step.x as int,
                        ext.x as int,
                        *size,
                    ) + grid_rows(
                        start_x as int,
                        oy + step.y,
                        !odd_rel,
                        x_skew as int,
                        step.x as int,
                        step.y as int,
                        ext.x as int,
                        ext.y as int,
                        *size,
                    ),
                    forall|m: int|
                        0 <= m < res@.len() ==> rect_cell_matches(#[trigger] res@[m], cells[m])
                            && res@[m].wf(),
                decreases ext.x + step.x - ox,
            {
                let cell = Rectangle::new(Point::new(ox, oy), step);
                let ghost n = res@.len() as int;
                proof {
                    let rest = grid_row(
                        ox + step.x,
                        oy as int,
                        step.x as int,
                        ext.x as int,
                        *size,
                    ) + grid_rows(
                        start_x as int,
                        oy + step.y,
                        !odd_rel,
                        x_skew as int,
                        step.x as int,
                        step.y as int,
                        ext.x as int,
                        ext.y as int,
                        *size,
                    );
                    assert(grid_row(ox as int, oy as int, step.x as int, ext.x as int, *size)
                        == seq![cell] + grid_row(
                        ox + step.x,
                        oy as int,
                        step.x as int,
                        ext.x as int,
                        *size,
                    ));
                    assert(cells.skip(n) =~= seq![cell] + rest);
                    assert(cells.skip(n)[0] == cells[n]);
                    assert(cells[n] == cell);
                    assert(cells.skip(n + 1).len() == rest.len());
                    assert forall|i: int| 0 <= i < rest.len() implies cells.skip(n + 1)[i]
                        == rest[i] by {
                        assert(cells.skip(n + 1)[i] == cells[n + 1 + i]);
                        assert(cells.skip(n)[i + 1] == cells[n + 1 + i]);
                        assert(cells.skip(n)[i + 1] == (seq![cell] + rest)[i + 1]);
                    }
                    assert(cells.skip(n + 1) =~= rest);
                }
                let poly = Self::from_bbox(&cell);
                res.push(poly);
                ox = ox + step.x;
            }
            odd_rel = !odd_rel;
            oy = oy + step.y;
        }
        proof {
            assert(grid_rows(
                start_x as int,
                oy as int,
                odd_rel,
                x_skew as int,
                step.x as int,
                step.y as int,
                ext.x as int,
                ext.y as int,
                *size,
            ) =~= Seq::<Rectangle>::empty());
            assert(res@.len() == cells.len());
            crate::tessellation::lemma_grid_lattice(
                start_x as int,
                oy0 as int,
                false,
                x_skew as int,
                step.x as int,
                step.y as int,
                ext.x as int,
                ext.y as int,
                *size,
            );
        }
        res
    }

    /// The bounding box of one square cell, anchored at the origin.
    pub fn regular_bounds(side_len: i32) -> (r: Rectangle)
        ensures
            r.origin == (Point { x: 0, y: 0 }),
            r.size == (Point { x: side_len, y: side_len }),
    {
        Rectangle::normal(Point::new(side_len, side_len))
    }
}

/// Tessellation containment for rectangle grids: the cell boxes of a
/// tessellation lie among those of any tessellation with the same center,
/// cell size and offset flag over an area reaching at least as far — two
/// runs agree wherever both their generation ranges reach.
pub proof fn lemma_rp_tessellation_subset(
    c: Point,
    size: Point,
    offset: bool,
    b1: Rectangle,
    b2: Rectangle,
)
    requires
        b1.extent_x() <= b2.extent_x(),
        b1.extent_y() <= b2.extent_y(),
    ensures
        forall|cell: Rectangle|
            rp_cells(c, size, b1, offset).contains(cell) ==> #[trigger] rp_cells(
                c,
                size,
                b2,
                offset,
            ).contains(cell),
{
    crate::tessellation::lemma_grid_subset(
        rp_start_x(c, size, offset),
        rp_start_y(c, size),
        false,
        rp_skew(size),
        size.x as int,
        size.y as int,
        b1.extent_x(),
        b1.extent_y(),
        b2.extent_x(),
        b2.extent_y(),
        size,
    );
}

/// Tessellation alignment for rectangle grids: any two cell origins on the
/// lattice of one center, cell size and offset flag — in particular, cells
/// of two tessellations with the same center and size but different
/// bounds — do not drift: heights differ by whole row steps, and cells on
/// rows of equal skew parity sit a whole number of column steps apart.
pub proof fn lemma_rp_tessellation_alignment(
    c: Point,
    size: Point,
    offset: bool,
    o1: Point,
    o2: Point,
)
    requires
        size.x >= 1,
        size.y >= 1,
        on_rp_lattice(c, size, offset, o1),
        on_rp_lattice(c, size, offset, o2),
    ensures
        (o1.y - o2.y) % (size.y as int) == 0,
        ((o1.y - rp_start_y(c, size)) / (size.y as int)) % 2 == ((o2.y - rp_start_y(c, size)) / (
        size.y as int)) % 2 ==> (o1.x - o2.x) % (size.x as int) == 0,
{
    crate::tessellation::lemma_lattice_alignment(
        rp_start_x(c, size, offset),
        rp_start_y(c, size),
        rp_skew(size),
        size.x as int,
        size.y as int,
        o1,
        o2,
    );
}

} // verus!
