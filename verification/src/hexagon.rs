//! Hexagonal cells and their brick-packed tessellation.

use vstd::prelude::*;

use crate::point::Point;
use crate::polygon::{poly_bbox, Polygon};
use crate::rectangle::Rectangle;
use crate::tessellation::{grid_row, grid_rows, on_grid_lattice};
use crate::triangle::{Orientation, StandardTriangle};
use crate::{trunc_div, trunc_div_i32, trunc_mod, trunc_mod_i32};

verus! {

/// `r` is the floor of the square root of `n`.
pub open spec fn is_sqrt(n: int, r: int) -> bool {
    0 <= r && r * r <= n && n < (r + 1) * (r + 1)
}

/// The floor of the square root of `n`.
pub open spec fn sqrt_val(n: int) -> int {
    choose|r: int| is_sqrt(n, r)
}

/// Two floors of one square root are the same number.
proof fn lemma_sqrt_unique(n: int, a: int, b: int)
    by (nonlinear_arith)
    requires
        is_sqrt(n, a),
        is_sqrt(n, b),
    ensures
        a == b,
{
}

/// Floor square root by bisection.
fn isqrt_u64(n: u64) -> (r: u64)
    ensures
        is_sqrt(n as int, r as int),
{
    let mut lo: u64 = 0;
    let mut hi: u64 = 0x1_0000_0000;
    proof {
        assert((0x1_0000_0000 as int) * (0x1_0000_0000 as int) > n as int);
    }
    while lo + 1 < hi
        invariant
            lo < hi <= 0x1_0000_0000,
            lo * lo <= n,
            (hi as int) * (hi as int) > n as int,
        decreases hi - lo,
    {
        let mid = lo + (hi - lo) / 2;
        proof {
            assert(mid as int * mid as int <= 0xffff_ffff * 0xffff_ffff) by (nonlinear_arith)
                requires
                    mid <= 0xffff_ffff,
            ;
        }
        if mid * mid <= n {
            lo = mid;
        } else {
            hi = mid;
        }
    }
    lo
}

/// The width of a regular hexagon cell of the given side: the side length
/// scaled by the square root of three, rounded to the nearest integer.
pub open spec fn hex_width(s: int) -> int {
    (sqrt_val(12 * s * s) + 1) / 2
}

/// Horizontal step between cells of one tessellation row.
pub open spec fn hex_step_x(s: int) -> int {
    hex_width(s)
}

/// Vertical step between tessellation rows: three quarters of the cell
/// height, so that rows interlock.
pub open spec fn hex_step_y(s: int) -> int {
    2 * s * 3 / 4
}

/// Horizontal offset of every other tessellation row.
pub open spec fn hex_skew(s: int) -> int {
    hex_width(s) / 2
}

/// Whether the grid starts on a skewed row, from the parity of the row
/// index the center falls on.
pub open spec fn hex_start_odd(c: Point, s: int) -> bool {
    trunc_mod(0 - trunc_div(c.y as int, hex_step_y(s)), 2) != 0
}

/// The x anchor of the grid, normalized to the cell step around the
/// coordinate origin, pulled back half a step when the grid starts on a
/// skewed row.
pub open spec fn hex_start_x(c: Point, s: int) -> int {
    trunc_mod(c.x - hex_width(s) / 2, hex_step_x(s)) - if hex_start_odd(c, s) {
        hex_skew(s)
    } else {
        0
    }
}

/// The y anchor of the grid, normalized to the row step around the
/// coordinate origin.
pub open spec fn hex_start_y(c: Point, s: int) -> int {
    trunc_mod(c.y - s, hex_step_y(s))
}

/// The cell boxes of the whole tessellation, in emission order.
pub open spec fn hex_cells(c: Point, s: int, b: Rectangle) -> Seq<Rectangle> {
    grid_rows(
        hex_start_x(c, s),
        hex_start_y(c, s),
        false,
        hex_skew(s),
        hex_step_x(s),
        hex_step_y(s),
        b.extent_x(),
        b.extent_y(),
        Point { x: hex_width(s) as i32, y: (2 * s) as i32 },
    )
}

/// The origin lies on the half-step lattice every tessellation with this
/// center and side shares, whatever its bounds.
pub open spec fn on_hex_lattice(c: Point, s: int, o: Point) -> bool {
    on_grid_lattice(
        hex_start_x(c, s),
        hex_start_y(c, s),
        hex_skew(s),
        hex_step_x(s),
        hex_step_y(s),
        o,
    )
}

/// A point from spec coordinates.
pub open spec fn mk_pt(x: int, y: int) -> Point {
    Point { x: x as i32, y: y as i32 }
}

/// The polygon [`Hexagon::from_bounds`] builds for the box `b`: a middle
/// rectangle spanning the box's width between the two mid heights, and
/// two roof and two floor triangles meeting at the center column.
pub open spec fn hex_cell_matches(p: Polygon, b: Rectangle) -> bool {
    let cx = b.origin.x + trunc_div(b.size.x as int, 2);
    let cy = b.origin.y + trunc_div(b.size.y as int, 2);
    let hy = cy - b.origin.y;
    let myn = cy - trunc_div(hy, 2);
    let myp = cy + trunc_div(hy, 2);
    let minx = b.origin.x as int;
    let maxx = b.extent_x();
    let miny = b.origin.y as int;
    let maxy = b.extent_y();
    &&& p.triangles@ =~= seq![
        StandardTriangle {
            p1: mk_pt(minx, myp),
            p2: mk_pt(cx, myp),
            p3: mk_pt(cx, maxy),
            orientation: Orientation::Up,
            is_transposed: false,
        },
        StandardTriangle {
            p1: mk_pt(cx, myp),
            p2: mk_pt(maxx, myp),
            p3: mk_pt(cx, maxy),
            orientation: Orientation::Up,
            is_transposed: false,
        },
        StandardTriangle {
            p1: mk_pt(minx, myn),
            p2: mk_pt(cx, myn),
            p3: mk_pt(cx, miny),
            orientation: Orientation::Down,
            is_transposed: false,
        },
        StandardTriangle {
            p1: mk_pt(cx, myn),
            p2: mk_pt(maxx, myn),
            p3: mk_pt(cx, miny),
            orientation: Orientation::Down,
            is_transposed: false,
        },
    ]
    &&& p.rectangles@ =~= seq![
        Rectangle { origin: mk_pt(minx, myn), size: mk_pt(maxx - minx, myp - myn) },
    ]
    &&& p.bounding_box == poly_bbox(p.triangles@, p.rectangles@)
    &&& p.bounding_box.origin == b.origin
}

/// A regular hexagon cell and its tessellation over a bounded area.
pub struct Hexagon {}

impl Hexagon {
    /// A hexagonal polygon inscribed in the box: a middle rectangle over
    /// the box's full width, with roof and floor triangles meeting at the
    /// center column.
    pub fn from_bounds(bounds: &Rectangle) -> (r: Polygon)
        requires
            bounds.size.x >= 2,
            bounds.size.y >= 2,
            crate::polygon::rect_in_range(*bounds),
        ensures
            hex_cell_matches(r, *bounds),
            r.wf(),
            r.bounding_box.origin == bounds.origin,
    {
        let center = bounds.center();
        let size_y = center.y - bounds.origin.y;
        let min_x = bounds.origin.x;
        let max_x = bounds.origin.x + bounds.size.x;
        let min_y = bounds.origin.y;
        let max_y = bounds.origin.y + bounds.size.y;
        let mid_y_n = center.y - trunc_div_i32(size_y, 2);
        let mid_y_p = center.y + trunc_div_i32(size_y, 2);

        let rect = Rectangle::new(
            Point::new(min_x, mid_y_n),
            Point::new(max_x - min_x, mid_y_p - mid_y_n),
        );

        let t_top_left = StandardTriangle::new(
            Point::new(min_x, mid_y_p),
            Point::new(center.x, mid_y_p),
            Point::new(center.x, max_y),
            Orientation::Up,
        );
        let t_top_right = StandardTriangle::new(
            Point::new(center.x, mid_y_p),
            Point::new(max_x, mid_y_p),
            Point::new(center.x, max_y),
            Orientation::Up,
        );
        let t_bot_left = StandardTriangle::new(
            Point::new(min_x, mid_y_n),
            Point::new(center.x, mid_y_n),
            Point::new(center.x, min_y),
            Orientation::Down,
        );
        let t_bot_right = StandardTriangle::new(
            Point::new(center.x, mid_y_n),
            Point::new(max_x, mid_y_n),
            Point::new(center.x, min_y),
            Orientation::Down,
        );

        let mut triangles: Vec<StandardTriangle> = Vec::new();
        triangles.push(t_top_left);
        triangles.push(t_top_right);
        triangles.push(t_bot_left);
        triangles.push(t_bot_right);
        let mut rectangles: Vec<Rectangle> = Vec::new();
        rectangles.push(rect);

        let poly = Polygon::from_shapes(triangles, rectangles);
        proof {
            reveal_with_fuel(crate::polygon::bbox_fold_tris, 6);
            reveal_with_fuel(crate::polygon::bbox_fold_rects, 3);
            assert(poly.bounding_box.origin == bounds.origin);
        }
        poly
    }

    /// The bounding box of one cell: the hexagon's width by twice its
    /// side, anchored at the origin.
    pub fn regular_bounds(side_len: i32) -> (r: Rectangle)
        requires
            1 <= side_len <= 0x0010_0000,
        ensures
            r.origin == (Point { x: 0, y: 0 }),
            r.size.x == hex_width(side_len as int),
            r.size.y == 2 * side_len,
            2 <= r.size.x <= 2 * side_len,
    {
        let s = side_len as u64;
        proof {
            assert(12 * s * s <= 12 * 0x0010_0000 * 0x0010_0000) by (nonlinear_arith)
                requires
                    s <= 0x0010_0000,
            ;
        }
        let n = 12 * s * s;
        let m = isqrt_u64(n);
        proof {
            lemma_hex_width_bounds(side_len as int, m as int);
        }
        let w = ((m + 1) / 2) as i32;
        Rectangle::normal(Point::new(w, 2 * side_len))
    }

    /// Tile the area `bounds` with hexagon cells, anchored so that
    /// `center` falls on a cell center, every other row skewed half a step
    /// to interlock. Rows run bottom to top, cells left to right.
    pub fn tessellate(center: &Point, side_len: i32, bounds: &Rectangle) -> (r: Vec<Polygon>)
        requires
            -0x0400_0000 <= center.x <= 0x0400_0000,
            -0x0400_0000 <= center.y <= 0x0400_0000,
            1 <= side_len <= 0x0010_0000,
            -0x0400_0000 <= bounds.origin.x <= 0x0400_0000,
            -0x0400_0000 <= bounds.origin.y <= 0x0400_0000,
            -0x0400_0000 <= bounds.extent_x() <= 0x0400_0000,
            -0x0400_0000 <= bounds.extent_y() <= 0x0400_0000,
        ensures
            r@.len() == hex_cells(*center, side_len as int, *bounds).len(),
            forall|m: int|
                0 <= m < r@.len() ==> hex_cell_matches(
                    #[trigger] r@[m],
                    hex_cells(*center, side_len as int, *bounds)[m],
                ) && r@[m].wf(),
            forall|m: int|
                0 <= m < r@.len() ==> on_hex_lattice(
                    *center,
                    side_len as int,
                    (#[trigger] r@[m]).bounding_box.origin,
                ),
    {
        let ghost s = side_len as int;
        let ghost c = *center;
        let ghost cells = hex_cells(c, s, *bounds);

        let step = Self::regular_step(side_len);
        let x_skew = step.x / 2;
        let rb = Self::regular_bounds(side_len);
        let csize = rb.size;
        let pre_x = center.x - trunc_div_i32(csize.x, 2);
        let pre_y = center.y - trunc_div_i32(csize.y, 2);
        let ox0 = trunc_mod_i32(pre_x, step.x);
        let oy0 = trunc_mod_i32(pre_y, step.y);
        let row = 0 - trunc_div_i32(center.y, step.y);
        let is_skewed = trunc_mod_i32(row, 2) != 0;
        let start_x = if is_skewed {
            ox0 - x_skew
        } else {
            ox0
        };
        proof {
            assert(trunc_div(csize.y as int, 2) == s);
            assert(is_skewed == hex_start_odd(c, s));
            assert(start_x as int == hex_start_x(c, s));
            assert(oy0 as int == hex_start_y(c, s));
        }
        let ext = bounds.extent();
        let mut res: Vec<Polygon> = Vec::new();
        let mut oy = oy0;
        let mut odd_rel = false;
        proof {
            assert(cells.skip(0) =~= cells);
        }
        while oy <= ext.y
            invariant
                1 <= side_len <= 0x0010_0000,
                s == side_len as int,
                c == *center,
                cells == hex_cells(c, s, *bounds),
                step.x as int == hex_step_x(s),
                step.y as int == hex_step_y(s),
                2 <= step.x <= 2 * side_len,
                1 <= step.y <= 2 * side_len,
                x_skew as int == hex_skew(s),
                0 <= x_skew <= side_len,
                csize.x == hex_width(s),
                csize.y == 2 * side_len,
                2 <= csize.x,
                start_x as int == hex_start_x(c, s),
                -0x0080_0000 <= start_x <= 0x0080_0000,
                oy0 as int == hex_start_y(c, s),
                -0x0080_0000 <= oy0,
                oy0 <= oy,
                oy as int <= crate::rectangle::spec_max(ext.y + step.y, oy0 as int),
                ext.x == bounds.extent_x(),
                ext.y == bounds.extent_y(),
                -0x0400_0000 <= ext.x <= 0x0400_0000,
                -0x0400_0000 <= ext.y <= 0x0400_0000,
                res@.len() <= cells.len(),
                cells.skip(res@.len() as int) == grid_rows(
                    start_x as int,
                    oy as int,
                    odd_rel,
                    x_skew as int,
                    step.x as int,
                    step.y as int,
                    ext.x as int,
                    ext.y as int,
                    csize,
                ),
                forall|m: int|
                    0 <= m < res@.len() ==> hex_cell_matches(#[trigger] res@[m], cells[m])
                        && res@[m].wf(),
            decreases ext.y + step.y - oy,
        {
            let mut ox = if odd_rel {
                start_x + x_skew
            } else {
                start_x
            };
            proof {
                assert(grid_rows(
                    start_x as int,
                    oy as int,
                    odd_rel,
                    x_skew as int,
                    step.x as int,
                    step.y as int,
                    ext.x as int,
                    ext.y as int,
                    csize,
                ) == grid_row(ox as int, oy as int, step.x as int, ext.x as int, csize)
                    + grid_rows(
                    start_x as int,
                    oy + step.y,
                    !odd_rel,
                    x_skew as int,
                    step.x as int,
                    step.y as int,
                    ext.x as int,
                    ext.y as int,
                    csize,
                ));
            }
            while ox <= ext.x
                invariant
                    1 <= side_len <= 0x0010_0000,
                    s == side_len as int,
                    c == *center,
                    cells == hex_cells(c, s, *bounds),
                    step.x as int == hex_step_x(s),
                    step.y as int == hex_step_y(s),
                    2 <= step.x <= 2 * side_len,
                    1 <= step.y <= 2 * side_len,
                    x_skew as int == hex_skew(s),
                    0 <= x_skew <= side_len,
                    csize.x == hex_width(s),
                    csize.y == 2 * side_len,
                    2 <= csize.x,
                    start_x as int == hex_start_x(c, s),
                    -0x0080_0000 <= start_x <= 0x0080_0000,
                    -0x0100_0000 <= ox,
                    ox as int <= crate::rectangle::spec_max(ext.x + step.x, start_x + x_skew),
                    -0x0080_0000 <= oy,
                    oy <= ext.y,
                    ext.x == bounds.extent_x(),
                    ext.y == bounds.extent_y(),
                    -0x0400_0000 <= ext.x <= 0x0400_0000,
                    -0x0400_0000 <= ext.y <= 0x0400_0000,
                    res@.len() <= cells.len(),
                    cells.skip(res@.len() as int) == grid_row(
                        ox as int,
                        oy as int,
                        step.x as int,
                        ext.x as int,
                        csize,
                    ) + grid_rows(
                        start_x as int,
                        oy + step.y,
                        !odd_rel,
                        x_skew as int,
                        step.x as int,
                        step.y as int,
                        ext.x as int,
                        ext.y as int,
                        csize,
                    ),
                    forall|m: int|
                        0 <= m < res@.len() ==> hex_cell_matches(#[trigger] res@[m], cells[m])
                            && res@[m].wf(),
                decreases ext.x + step.x - ox,
            {
                let cell = Rectangle::new(Point::new(ox, oy), csize);
                let ghost n = res@.len() as int;
                proof {
                    let rest = grid_row(
                        ox + step.x,
                        oy as int,
                        step.x as int,
                        ext.x as int,
                        csize,
                    ) + grid_rows(
                        start_x as int,
                        oy + step.y,
                        !odd_rel,
                        x_skew as int,
                        step.x as int,
                        step.y as int,
                        ext.x as int,
                        ext.y as int,
                        csize,
                    );
                    assert(grid_row(ox as int, oy as int, step.x as int, ext.x as int, csize)
                        == seq![cell] + grid_row(
                        ox + step.x,
                        oy as int,
                        step.x as int,
                        ext.x as int,
                        csize,
                    ));
                    assert(cells.skip(n) =~= seq![cell] + rest);
                    assert(cells.skip(n)[0] == cells[n]);
                    assert(cells[n] == cell);
                    assert(cells.skip(n + 1).len() == rest.len());
                    assert forall|i: int| 0 <= i < rest.len() implies cells.skip(n + 1)[i]
                        == rest[i] by {
                        assert(cells.skip(n + 1)[i] == cells[n + 1 + i]);
                        assert(cells.skip(n)[i + 1] == cells[n + 1 + i]);
                        assert(cells.skip(n)[i + 1] == (seq![cell] + rest)[i + 1]);
                    }
                    assert(cells.skip(n + 1) =~= rest);
                }
                let poly = Self::from_bounds(&cell);
                res.push(poly);
                ox = ox + step.x;
            }
            odd_rel = !odd_rel;
            oy = oy + step.y;
        }
        proof {
            assert(grid_rows(
                start_x as int,
                oy as int,
                odd_rel,
                x_skew as int,
                step.x as int,
                step.y as int,
                ext.x as int,
                ext.y as int,
                csize,
            ) =~= Seq::<Rectangle>::empty());
            assert(res@.len() == cells.len());
            crate::tessellation::lemma_grid_lattice(
                start_x as int,
                oy0 as int,
                false,
                x_skew as int,
                step.x as int,
                step.y as int,
                ext.x as int,
                ext.y as int,
                csize,
            );
        }
        res
    }

    /// The step between neighbouring cells: the cell's width across, and
    /// three quarters of its height up.
    pub fn regular_step(side_len: i32) -> (r: Point)
        requires
            1 <= side_len <= 0x0010_0000,
        ensures
            r.x == hex_step_x(side_len as int),
            r.y == hex_step_y(side_len as int),
            2 <= r.x <= 2 * side_len,
            1 <= r.y,
    {
        let bounds = Self::regular_bounds(side_len);
        Point::new(bounds.size.x, bounds.size.y * 3 / 4)
    }
}

/// The cell box [`Hexagon::tessellation_center_fn`] returns: the grid cell
/// at `poly_index`, derived from the cell geometry and the focal point
/// alone.
pub open spec fn center_fn_rect(pi: Point, nb: Rectangle, f: Point) -> Rectangle {
    let x_step = nb.size.x as int;
    let x_skew = trunc_div(x_step, 2);
    let y_step = crate::round_div(3 * nb.size.y, 4);
    let min_x = trunc_div(trunc_mod(2 * f.x, x_step), 2);
    let min_y = trunc_div(trunc_mod(2 * f.y, y_step), 4);
    let row_mult = trunc_mod(trunc_div(f.y as int, y_step), 2);
    let mult = trunc_mod(pi.y + row_mult, 2);
    Rectangle {
        origin: Point {
            x: (min_x + x_step * pi.x + x_skew * mult) as i32,
            y: (min_y + y_step * pi.y) as i32,
        },
        size: nb.size,
    }
}

impl Hexagon {
    /// The cell box at grid index `poly_index`, for cells of the given
    /// normalized bounds, anchored so that `focal_point` falls on a cell
    /// center. Deterministic in its arguments alone, so that separately
    /// computed cells of one grid agree.
    pub fn tessellation_center_fn(
        poly_index: &Point,
        normalized_bounds: &Rectangle,
        focal_point: &Point,
    ) -> (r: Rectangle)
        requires
            1 <= normalized_bounds.size.x <= 0x0020_0000,
            1 <= normalized_bounds.size.y <= 0x0020_0000,
            -0x0400_0000 <= focal_point.x <= 0x0400_0000,
            -0x0400_0000 <= focal_point.y <= 0x0400_0000,
            -0x4000_0000 <= poly_index.x <= 0x4000_0000,
            -0x4000_0000 <= poly_index.y <= 0x4000_0000,
            ({
                let x_step = normalized_bounds.size.x as int;
                let x_skew = trunc_div(x_step, 2);
                let y_step = crate::round_div(3 * normalized_bounds.size.y, 4);
                let min_x = trunc_div(trunc_mod(2 * focal_point.x, x_step), 2);
                let min_y = trunc_div(trunc_mod(2 * focal_point.y, y_step), 4);
                let row_mult = trunc_mod(trunc_div(focal_point.y as int, y_step), 2);
                let mult = trunc_mod(poly_index.y + row_mult, 2);
                i32::MIN <= min_x + x_step * poly_index.x + x_skew * mult <= i32::MAX && i32::MIN
                    <= min_y + y_step * poly_index.y <= i32::MAX
            }),
        ensures
            r == center_fn_rect(*poly_index, *normalized_bounds, *focal_point),
    {
        let x_step = normalized_bounds.size.x;
        let x_skew = trunc_div_i32(x_step, 2);
        proof {
            assert(crate::round_div(3, 4) == 1);
            crate::lemma_round_div_mono(3, 3 * normalized_bounds.size.y, 4);
            crate::lemma_round_div_mono(3 * normalized_bounds.size.y, 3 * 0x0020_0000int, 4);
            assert(crate::round_div(3 * 0x0020_0000int, 4) == 0x0018_0000);
        }
        let y_step = crate::round_div_i64(3 * (normalized_bounds.size.y as i64), 4) as i32;
        let tmp_size_x = focal_point.x * 2;
        let tmp_size_y = focal_point.y * 2;

        let min_x = trunc_div_i32(trunc_mod_i32(tmp_size_x, x_step), 2);
        let min_y = trunc_div_i32(trunc_mod_i32(tmp_size_y, y_step), 4);

        let row_mult = trunc_mod_i32(trunc_div_i32(focal_point.y, y_step), 2);
        let x_skew_multiplier = trunc_mod_i32(poly_index.y + row_mult, 2);

        proof {
            assert(-0x0010_0000_0000_0000 <= x_step as int * poly_index.x as int
                <= 0x0010_0000_0000_0000 && -0x0010_0000_0000_0000 <= x_skew as int
                * x_skew_multiplier as int <= 0x0010_0000_0000_0000 && -0x0010_0000_0000_0000
                <= y_step as int * poly_index.y as int <= 0x0010_0000_0000_0000)
                by (nonlinear_arith)
                requires
                    0 <= x_step <= 0x0020_0000,
                    0 <= x_skew <= 0x0020_0000,
                    0 <= y_step <= 0x0020_0000,
                    -0x4000_0000 <= poly_index.x <= 0x4000_0000,
                    -0x4000_0000 <= poly_index.y <= 0x4000_0000,
                    -2 <= x_skew_multiplier <= 2,
            ;
        }
        let ox = ((min_x as i64) + (x_step as i64) * (poly_index.x as i64) + (x_skew as i64) * (
        x_skew_multiplier as i64)) as i32;
        let oy = ((min_y as i64) + (y_step as i64) * (poly_index.y as i64)) as i32;
        Rectangle::new(Point::new(ox, oy), normalized_bounds.size)
    }
}

/// A floor square root exists for every nonnegative number.
proof fn lemma_sqrt_exists(n: int)
    requires
        n >= 0,
    ensures
        exists|r: int| #[trigger] is_sqrt(n, r),
    decreases n,
{
    if n == 0 {
        assert(is_sqrt(0, 0));
    } else {
        lemma_sqrt_exists(n - 1);
        let r = choose|r: int| #[trigger] is_sqrt(n - 1, r);
        if n < (r + 1) * (r + 1) {
            assert(is_sqrt(n, r));
        } else {
            assert(is_sqrt(n, r + 1)) by (nonlinear_arith)
                requires
                    is_sqrt(n - 1, r),
                    n >= (r + 1) * (r + 1),
            ;
        }
    }
}

/// Tessellation alignment: any two cell origins on the lattice of one
/// center and cell side — in particular, cells of two tessellations built
/// with the same center and side but different bounds — do not drift:
/// their heights differ by a whole number of row steps, and two cells on
/// rows of equal skew parity sit a whole number of column steps apart.
pub proof fn lemma_hex_tessellation_alignment(c: Point, s: int, o1: Point, o2: Point)
    requires
        1 <= s,
        on_hex_lattice(c, s, o1),
        on_hex_lattice(c, s, o2),
    ensures
        (o1.y - o2.y) % hex_step_y(s) == 0,
        ((o1.y - hex_start_y(c, s)) / hex_step_y(s)) % 2 == ((o2.y - hex_start_y(c, s))
            / hex_step_y(s)) % 2 ==> (o1.x - o2.x) % hex_step_x(s) == 0,
{
    lemma_sqrt_exists(12 * s * s);
    let m = choose|r: int| #[trigger] is_sqrt(12 * s * s, r);
    lemma_hex_width_bounds(s, m);
    crate::tessellation::lemma_lattice_alignment(
        hex_start_x(c, s),
        hex_start_y(c, s),
        hex_skew(s),
        hex_step_x(s),
        hex_step_y(s),
        o1,
        o2,
    );
}

/// Tessellation containment: the cell boxes of a tessellation lie among
/// those of any tessellation with the same center and side over an area
/// reaching at least as far — the grid is anchored by center and side
/// alone, so a larger area only adds cells and moves none. Together with
/// [`Hexagon::tessellate`]'s contract this carries over to the emitted
/// polygons' bounding boxes.
pub proof fn lemma_hex_tessellation_subset(c: Point, s: int, b1: Rectangle, b2: Rectangle)
    requires
        b1.extent_x() <= b2.extent_x(),
        b1.extent_y() <= b2.extent_y(),
    ensures
        forall|cell: Rectangle|
            hex_cells(c, s, b1).contains(cell) ==> #[trigger] hex_cells(c, s, b2).contains(cell),
{
    crate::tessellation::lemma_grid_subset(
        hex_start_x(c, s),
        hex_start_y(c, s),
        false,
        hex_skew(s),
        hex_step_x(s),
        hex_step_y(s),
        b1.extent_x(),
        b1.extent_y(),
        b2.extent_x(),
        b2.extent_y(),
        Point { x: hex_width(s) as i32, y: (2 * s) as i32 },
    );
}

/// The rounded width of a hexagon lies between one and two side lengths,
/// and pins down the square-root witness.
proof fn lemma_hex_width_bounds(s: int, m: int)
    requires
        s >= 1,
        is_sqrt(12 * s * s, m),
    ensures
        m == sqrt_val(12 * s * s),
        3 * s <= m <= 4 * s - 1,
        2 <= (m + 1) / 2 <= 2 * s,
        hex_width(s) == (m + 1) / 2,
{
    assert(is_sqrt(12 * s * s, sqrt_val(12 * s * s))) by {
        assert(exists|r: int| #[trigger] is_sqrt(12 * s * s, r));
    }
    lemma_sqrt_unique(12 * s * s, m, sqrt_val(12 * s * s));
    assert(3 * s <= m <= 4 * s - 1) by (nonlinear_arith)
        requires
            s >= 1,
            is_sqrt(12 * s * s, m),
    ;
}

} // verus!
