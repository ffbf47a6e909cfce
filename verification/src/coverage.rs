//! Coverage laws of the scan-conversion.
//!
//! A rectangle can be halved along its diagonal into an upward and a
//! downward canonical triangle. The laws here pin down how the two scans
//! interact: they never paint a lattice point twice, and — when the
//! rectangle is at least as wide as it is tall — together they paint
//! exactly the rectangle's lattice points.

use vstd::prelude::*;

use crate::point::Point;
use crate::round_div;
use crate::triangle::{Orientation, StandardTriangle, COORD_LIMIT};
use crate::{lemma_round_div_bounds, lemma_round_div_exact, lemma_round_div_mono};

verus! {

/// The upward half of the rectangle `[x0, x1] x [y0, y1]` split along the
/// diagonal from `(x0, y0)` to `(x1, y1)`: base at the bottom, apex at the
/// top right.
pub open spec fn rect_split_up(x0: i32, y0: i32, x1: i32, y1: i32) -> StandardTriangle {
    StandardTriangle {
        p1: Point { x: x0, y: y0 },
        p2: Point { x: x1, y: y0 },
        p3: Point { x: x1, y: y1 },
        orientation: Orientation::Up,
        is_transposed: false,
    }
}

/// The downward half of the same split: base at the top, apex at the
/// bottom left.
pub open spec fn rect_split_down(x0: i32, y0: i32, x1: i32, y1: i32) -> StandardTriangle {
    StandardTriangle {
        p1: Point { x: x0, y: y1 },
        p2: Point { x: x1, y: y1 },
        p3: Point { x: x0, y: y0 },
        orientation: Orientation::Down,
        is_transposed: false,
    }
}

/// The scan of the upward half paints `p`: `p` sits on an emitted row,
/// strictly right of the rounded diagonal crossing of that row.
pub open spec fn covers_up(x0: i32, y0: i32, x1: i32, y1: i32, p: Point) -> bool {
    let t = rect_split_up(x0, y0, x1, y1);
    let k = p.y - y0;
    0 <= k && !t.terminated(k) && t.lcol(k) <= p.x <= x1
}

/// The scan of the downward half paints `p`: `p` sits on an emitted row,
/// at or left of the rounded diagonal crossing of that row.
pub open spec fn covers_down(x0: i32, y0: i32, x1: i32, y1: i32, p: Point) -> bool {
    let t = rect_split_down(x0, y0, x1, y1);
    let kd = y1 - p.y;
    1 <= kd <= t.th() && x0 <= p.x <= t.rcol(kd)
}

/// Membership distributes over sequence concatenation.
proof fn lemma_seq_add_contains(a: Seq<Point>, b: Seq<Point>, x: Point)
    ensures
        (a + b).contains(x) <==> a.contains(x) || b.contains(x),
{
    if a.contains(x) {
        let i = choose|i: int| 0 <= i < a.len() && a[i] == x;
        assert((a + b)[i] == x);
    }
    if b.contains(x) {
        let i = choose|i: int| 0 <= i < b.len() && b[i] == x;
        assert((a + b)[a.len() + i] == x);
    }
    if (a + b).contains(x) {
        let i = choose|i: int| 0 <= i < (a + b).len() && (a + b)[i] == x;
        if i < a.len() {
            assert(a[i] == x);
        } else {
            assert(b[i - a.len()] == x);
        }
    }
}

/// Once the cursors have crossed, they stay crossed on every later row.
proof fn lemma_terminated_monotone(lx: int, rx: int, ax: int, h: int, m: int, k1: int, k2: int)
    by (nonlinear_arith)
    requires
        rx > lx,
        k1 <= k2,
        lx * h + k1 * (ax - lx) > rx * h + k1 * (ax - rx) - m,
    ensures
        lx * h + k2 * (ax - lx) > rx * h + k2 * (ax - rx) - m,
{
}

/// A point lies in the concatenated rows from `k0` on exactly when some
/// single not-yet-terminated row in range holds it.
proof fn lemma_rows_member(t: StandardTriangle, k0: int, p: Point)
    requires
        t.wf(),
        1 <= k0,
    ensures
        t.rows_from(k0).contains(p) <==> exists|k: int|
            k0 <= k <= t.th() && !t.terminated(k) && #[trigger] t.row_points(k).contains(p),
    decreases (if t.th() + 1 - k0 >= 0 {
        t.th() + 1 - k0
    } else {
        0
    }),
{
    if k0 < 1 || k0 > t.th() || t.terminated(k0) {
        assert(t.rows_from(k0) =~= Seq::<Point>::empty());
        assert(!t.rows_from(k0).contains(p));
        if t.terminated(k0) {
            assert forall|k: int| k0 <= k implies #[trigger] t.terminated(k) by {
                lemma_terminated_monotone(
                    t.left_x(),
                    t.right_x(),
                    t.apex_x(),
                    t.th(),
                    t.top_margin(),
                    k0,
                    k,
                );
            }
        }
    } else {
        lemma_seq_add_contains(t.row_points(k0), t.rows_from(k0 + 1), p);
        lemma_rows_member(t, k0 + 1, p);
        if t.rows_from(k0).contains(p) {
            if t.row_points(k0).contains(p) {
                assert(k0 <= k0 <= t.th() && !t.terminated(k0) && t.row_points(k0).contains(p));
            } else {
                let k = choose|k: int|
                    k0 + 1 <= k <= t.th() && !t.terminated(k) && #[trigger] t.row_points(
                        k,
                    ).contains(p);
                assert(k0 <= k <= t.th() && !t.terminated(k) && t.row_points(k).contains(p));
            }
        }
        if exists|k: int|
            k0 <= k <= t.th() && !t.terminated(k) && #[trigger] t.row_points(k).contains(p) {
            let k = choose|k: int|
                k0 <= k <= t.th() && !t.terminated(k) && #[trigger] t.row_points(k).contains(p);
            if k == k0 {
                assert((t.row_points(k0) + t.rows_from(k0 + 1)).contains(p));
            } else {
                assert(k0 + 1 <= k <= t.th() && !t.terminated(k) && t.row_points(k).contains(p));
                assert(t.rows_from(k0 + 1).contains(p));
                assert((t.row_points(k0) + t.rows_from(k0 + 1)).contains(p));
            }
        }
    }
}

/// A row's point sequence holds exactly the points of its own scan row
/// between the first and last emitted column.
proof fn lemma_row_points_member(t: StandardTriangle, k: int, p: Point)
    requires
        t.wf(),
        t.in_range(),
        0 <= k <= t.th(),
        -(COORD_LIMIT + 1) <= t.lcol(k) <= COORD_LIMIT + 1,
        -(COORD_LIMIT + 1) <= t.row_hi(k) <= COORD_LIMIT + 1,
        t.orientation is Up || t.orientation is Down,
    ensures
        t.row_points(k).contains(p) <==> (p.y == t.untr_y(0, t.base_y() + k) && t.lcol(k) <= p.x
            <= t.row_hi(k)),
{
    let y = t.base_y() + k;
    let l = t.lcol(k);
    let hi = t.row_hi(k);
    if t.row_points(k).contains(p) {
        let i = choose|i: int| 0 <= i < t.row_points(k).len() && t.row_points(k)[i] == p;
        assert(p == t.scan_pt(l + i, y));
    }
    if p.y == t.untr_y(0, y) && l <= p.x <= hi {
        let i = p.x - l;
        assert(t.row_points(k)[i] == t.scan_pt(l + i, y));
        assert(t.scan_pt(l + i, y) == p);
        assert(t.row_points(k).contains(p));
    }
}

/// The rows of a rectangle from height `y0` upward hold exactly the
/// lattice points of its half-open band from `y0`.
proof fn lemma_rect_rows_member(r: crate::rectangle::Rectangle, y0: int, p: Point)
    requires
        r.fits(),
        r.size.x >= 1,
        r.origin.y <= y0,
    ensures
        crate::rectangle::rect_rows_from(r, y0).contains(p) <==> (y0 <= p.y < r.extent_y()
            && r.origin.x <= p.x < r.extent_x()),
    decreases r.extent_y() - y0,
{
    if y0 >= r.extent_y() {
        assert(crate::rectangle::rect_rows_from(r, y0) =~= Seq::<Point>::empty());
        assert(!crate::rectangle::rect_rows_from(r, y0).contains(p));
    } else {
        let row = crate::rectangle::rect_row(r, y0);
        lemma_seq_add_contains(row, crate::rectangle::rect_rows_from(r, y0 + 1), p);
        lemma_rect_rows_member(r, y0 + 1, p);
        if p.y == y0 && r.origin.x <= p.x < r.extent_x() {
            let i = p.x - r.origin.x;
            assert(row[i] == p);
            assert(row.contains(p));
        }
        if row.contains(p) {
            let i = choose|i: int| 0 <= i < row.len() && row[i] == p;
            assert(p == (Point { x: (r.origin.x + i) as i32, y: y0 as i32 }));
        }
    }
}

/// A rectangle's scan emits exactly its half-open lattice points: every
/// point with `origin <= p < origin + size`, and no others.
pub proof fn lemma_rect_points_iff(r: crate::rectangle::Rectangle, p: Point)
    requires
        r.fits(),
        r.size.x >= 1,
    ensures
        crate::rectangle::rect_points(r).contains(p) <==> r.spec_contains(p),
{
    lemma_rect_rows_member(r, r.origin.y as int, p);
}

/// The scan of the upward half paints exactly the points `covers_up`
/// describes.
proof fn lemma_up_member(x0: i32, y0: i32, x1: i32, y1: i32, p: Point)
    requires
        -COORD_LIMIT <= x0 <= COORD_LIMIT,
        -COORD_LIMIT <= y0 <= COORD_LIMIT,
        -COORD_LIMIT <= x1 <= COORD_LIMIT,
        -COORD_LIMIT <= y1 <= COORD_LIMIT,
        x0 < x1,
        y0 < y1,
    ensures
        rect_split_up(x0, y0, x1, y1).tri_points().contains(p) <==> covers_up(x0, y0, x1, y1, p),
{
    let t = rect_split_up(x0, y0, x1, y1);
    let h = y1 - y0;
    assert(t.wf());
    assert(t.th() == h && t.left_x() == x0 && t.right_x() == x1 && t.apex_x() == x1);
    assert(t.skip_left_spec() && !t.skip_right_spec() && t.top_margin() == h);

    assert forall|k: int| 0 <= k && !t.terminated(k) implies #[trigger] t.num_left(k) <= (x1 - 1)
        * h && k <= h by {
        assert(t.num_left(k) == x0 * h + k * (x1 - x0));
        assert(t.num_right(k) == x1 * h + k * 0);
        assert(x0 * h + k * (x1 - x0) <= x1 * h - h ==> k * (x1 - x0) <= (x1 - x0) * h - h)
            by (nonlinear_arith);
        assert(k > h ==> k * (x1 - x0) > (x1 - x0) * h - h) by (nonlinear_arith)
            requires
                x1 - x0 >= 1,
                h >= 1,
        ;
        assert((x1 - 1) * h == x1 * h - h) by (nonlinear_arith);
    }
    assert forall|k: int| 0 <= k <= h && !t.terminated(k) implies {
        &&& t.rcol(k) == x1
        &&& x0 + 1 <= t.lcol(k) <= x1
        &&& t.row_hi(k) == x1
    } by {
        assert(t.num_right(k) == x1 * h + k * 0);
        lemma_round_div_exact(x1 as int, h as int);
        assert(t.num_left(k) == x0 * h + k * (x1 - x0));
        assert(x0 * h <= t.num_left(k)) by (nonlinear_arith)
            requires
                t.num_left(k) == x0 * h + k * (x1 - x0),
                k >= 0,
                x1 - x0 >= 1,
        ;
        assert((x1 - 1) * h == x1 * h - h) by (nonlinear_arith);
        lemma_round_div_exact(x0 as int, h as int);
        lemma_round_div_exact((x1 - 1) as int, h as int);
        lemma_round_div_mono(x0 * h, t.num_left(k), h as int);
        lemma_round_div_mono(t.num_left(k), (x1 - 1) * h, h as int);
    }
    assert forall|k: int| 0 <= k <= h && !t.terminated(k) implies (#[trigger] t.row_points(
        k,
    ).contains(p) <==> (p.y == y0 + k && t.lcol(k) <= p.x <= x1)) by {
        lemma_row_points_member(t, k, p);
        assert(t.untr_y(0, t.base_y() + k) == y0 + k);
    }

    // The base row is present: its first owned column is x0 + 1 <= x1.
    assert(t.num_left(0) == x0 * h + 0 * (x1 - x0));
    assert(t.num_right(0) == x1 * h + 0 * 0);
    lemma_round_div_exact(x0 as int, h as int);
    lemma_round_div_exact(x1 as int, h as int);
    assert(t.lcol(0) == x0 + 1 && t.rcol(0) == x1);
    assert(t.row0() == t.row_points(0));
    assert(!t.terminated(0)) by {
        assert(x0 * h + 0 * (x1 - x0) <= x1 * h + 0 * 0 - h) by (nonlinear_arith)
            requires
                x1 - x0 >= 1,
                h >= 1,
        ;
    }

    lemma_seq_add_contains(t.row0(), t.rows_from(1), p);
    lemma_rows_member(t, 1, p);

    if t.tri_points().contains(p) {
        if t.row_points(0).contains(p) {
            assert(covers_up(x0, y0, x1, y1, p));
        } else {
            let k = choose|k: int|
                1 <= k <= t.th() && !t.terminated(k) && #[trigger] t.row_points(k).contains(p);
            assert(p.y - y0 == k);
            assert(covers_up(x0, y0, x1, y1, p));
        }
    }
    if covers_up(x0, y0, x1, y1, p) {
        let k = p.y - y0;
        assert(k <= h);
        assert(t.row_points(k).contains(p));
        if k == 0 {
            assert(t.row0().contains(p));
        } else {
            assert(1 <= k <= t.th() && !t.terminated(k) && t.row_points(k).contains(p));
        }
        assert(t.tri_points().contains(p));
    }
}

/// The scan of the downward half paints exactly the points `covers_down`
/// describes.
proof fn lemma_down_member(x0: i32, y0: i32, x1: i32, y1: i32, p: Point)
    requires
        -COORD_LIMIT <= x0 <= COORD_LIMIT,
        -COORD_LIMIT <= y0 <= COORD_LIMIT,
        -COORD_LIMIT <= x1 <= COORD_LIMIT,
        -COORD_LIMIT <= y1 <= COORD_LIMIT,
        x0 < x1,
        y0 < y1,
    ensures
        rect_split_down(x0, y0, x1, y1).tri_points().contains(p) <==> covers_down(
            x0,
            y0,
            x1,
            y1,
            p,
        ),
{
    let t = rect_split_down(x0, y0, x1, y1);
    let h = y1 - y0;
    assert(t.wf());
    assert(t.th() == h && t.left_x() == x0 && t.right_x() == x1 && t.apex_x() == x0);
    assert(!t.skip_left_spec() && !t.skip_right_spec() && t.top_margin() == 0);
    assert(t.skip_bot_spec());
    assert(t.row0() =~= Seq::<Point>::empty());

    assert forall|k: int| 1 <= k <= h implies !(#[trigger] t.terminated(k)) by {
        assert(t.num_left(k) == x0 * h + k * 0);
        assert(t.num_right(k) == x1 * h + k * (x0 - x1));
        assert(x0 * h + k * 0 <= x1 * h + k * (x0 - x1) - 0) by (nonlinear_arith)
            requires
                x1 - x0 >= 1,
                h >= 1,
                1 <= k <= h,
        ;
    }
    assert forall|k: int| 1 <= k <= h implies {
        &&& t.lcol(k) == x0
        &&& x0 <= t.rcol(k) <= x1
        &&& t.row_hi(k) == t.rcol(k)
    } by {
        assert(t.num_left(k) == x0 * h + k * 0);
        lemma_round_div_exact(x0 as int, h as int);
        assert(t.num_right(k) == x1 * h + k * (x0 - x1));
        assert(x0 * h <= t.num_right(k) <= x1 * h) by (nonlinear_arith)
            requires
                t.num_right(k) == x1 * h + k * (x0 - x1),
                x1 - x0 >= 1,
                h >= 1,
                1 <= k <= h,
        ;
        lemma_round_div_bounds(t.num_right(k), h as int, x0 as int, x1 as int);
    }
    assert forall|k: int| 1 <= k <= h implies (#[trigger] t.row_points(k).contains(p) <==> (p.y
        == y1 - k && x0 <= p.x <= t.rcol(k))) by {
        lemma_row_points_member(t, k, p);
        assert(t.untr_y(0, t.base_y() + k) == y1 - k);
    }

    lemma_seq_add_contains(t.row0(), t.rows_from(1), p);
    lemma_rows_member(t, 1, p);

    if t.tri_points().contains(p) {
        let k = choose|k: int|
            1 <= k <= t.th() && !t.terminated(k) && #[trigger] t.row_points(k).contains(p);
        assert(y1 - p.y == k);
        assert(covers_down(x0, y0, x1, y1, p));
    }
    if covers_down(x0, y0, x1, y1, p) {
        let k = y1 - p.y;
        assert(t.row_points(k).contains(p));
        assert(1 <= k <= t.th() && !t.terminated(k) && t.row_points(k).contains(p));
        assert(t.tri_points().contains(p));
    }
}

/// The rounded crossings the two scans use on a shared row are the same
/// number, read from the two ends of the diagonal.
proof fn lemma_shared_crossing(x0: i32, y0: i32, x1: i32, y1: i32, k: int)
    requires
        x0 < x1,
        y0 < y1,
    ensures
        rect_split_down(x0, y0, x1, y1).num_right(y1 - y0 - k) == rect_split_up(
            x0,
            y0,
            x1,
            y1,
        ).num_left(k),
{
    let h = y1 - y0;
    assert(x1 * h + (h - k) * (x0 - x1) == x0 * h + k * (x1 - x0)) by (nonlinear_arith);
}

/// No double-coverage on shared edges: when a rectangle is split along its
/// diagonal into an upward and a downward canonical triangle, no lattice
/// point is painted by both scans.
pub proof fn lemma_split_no_double_coverage(x0: i32, y0: i32, x1: i32, y1: i32)
    requires
        -COORD_LIMIT <= x0 <= COORD_LIMIT,
        -COORD_LIMIT <= y0 <= COORD_LIMIT,
        -COORD_LIMIT <= x1 <= COORD_LIMIT,
        -COORD_LIMIT <= y1 <= COORD_LIMIT,
        x0 < x1,
        y0 < y1,
    ensures
        forall|p: Point|
            !(#[trigger] rect_split_up(x0, y0, x1, y1).tri_points().contains(p)
                && rect_split_down(x0, y0, x1, y1).tri_points().contains(p)),
{
    let tu = rect_split_up(x0, y0, x1, y1);
    let td = rect_split_down(x0, y0, x1, y1);
    let h = y1 - y0;
    assert forall|p: Point|
        !(#[trigger] tu.tri_points().contains(p) && td.tri_points().contains(p)) by {
        lemma_up_member(x0, y0, x1, y1, p);
        lemma_down_member(x0, y0, x1, y1, p);
        if covers_up(x0, y0, x1, y1, p) && covers_down(x0, y0, x1, y1, p) {
            let k = p.y - y0;
            let kd = y1 - p.y;
            assert(kd == h - k);
            lemma_shared_crossing(x0, y0, x1, y1, k);
            assert(td.rcol(kd) == round_div(tu.num_left(k), h as int));
            assert(tu.lcol(k) == round_div(tu.num_left(k), h as int) + 1);
            assert(false);
        }
    }
}

/// Coverage completeness: a rectangle at least as wide as tall, split
/// along its diagonal into an upward and a downward canonical triangle, is
/// painted exactly once over — together the two scans emit precisely the
/// lattice points `x0 <= x <= x1`, `y0 <= y < y1`, with none missing.
pub proof fn lemma_split_coverage(x0: i32, y0: i32, x1: i32, y1: i32)
    requires
        -COORD_LIMIT <= x0 <= COORD_LIMIT,
        -COORD_LIMIT <= y0 <= COORD_LIMIT,
        -COORD_LIMIT <= x1 <= COORD_LIMIT,
        -COORD_LIMIT <= y1 <= COORD_LIMIT,
        x0 < x1,
        y0 < y1,
        x1 - x0 >= y1 - y0,
    ensures
        forall|p: Point|
            (#[trigger] rect_split_up(x0, y0, x1, y1).tri_points().contains(p) || rect_split_down(
                x0,
                y0,
                x1,
                y1,
            ).tri_points().contains(p)) <==> (x0 <= p.x <= x1 && y0 <= p.y < y1),
{
    let tu = rect_split_up(x0, y0, x1, y1);
    let td = rect_split_down(x0, y0, x1, y1);
    let h = y1 - y0;
    assert forall|p: Point|
        (#[trigger] tu.tri_points().contains(p) || td.tri_points().contains(p)) <==> (x0 <= p.x
            <= x1 && y0 <= p.y < y1) by {
        lemma_up_member(x0, y0, x1, y1, p);
        lemma_down_member(x0, y0, x1, y1, p);
        if covers_up(x0, y0, x1, y1, p) {
            let k = p.y - y0;
            assert(tu.num_left(k) == x0 * h + k * (x1 - x0));
            assert(tu.num_right(k) == x1 * h + k * 0);
            assert(k <= h - 1) by (nonlinear_arith)
                requires
                    x0 * h + k * (x1 - x0) <= x1 * h + k * 0 - h,
                    x1 - x0 >= 1,
                    h >= 1,
                    k >= 0,
            ;
            assert(x0 * h <= tu.num_left(k)) by (nonlinear_arith)
                requires
                    tu.num_left(k) == x0 * h + k * (x1 - x0),
                    k >= 0,
                    x1 - x0 >= 1,
            ;
            lemma_round_div_exact(x0 as int, h as int);
            lemma_round_div_mono(x0 * h, tu.num_left(k), h as int);
            assert(x0 <= p.x <= x1 && y0 <= p.y < y1);
        }
        if covers_down(x0, y0, x1, y1, p) {
            let kd = y1 - p.y;
            assert(td.num_right(kd) == x1 * h + kd * (x0 - x1));
            assert(td.num_right(kd) <= x1 * h) by (nonlinear_arith)
                requires
                    td.num_right(kd) == x1 * h + kd * (x0 - x1),
                    kd >= 1,
                    x1 - x0 >= 1,
            ;
            lemma_round_div_exact(x1 as int, h as int);
            lemma_round_div_mono(td.num_right(kd), x1 * h, h as int);
            assert(x0 <= p.x <= x1 && y0 <= p.y < y1);
        }
        if x0 <= p.x <= x1 && y0 <= p.y < y1 {
            let k = p.y - y0;
            assert(0 <= k <= h - 1);
            let num = x0 * h + k * (x1 - x0);
            assert(tu.num_left(k) == num);
            assert(x0 * h <= num && num <= (x1 - 1) * h) by (nonlinear_arith)
                requires
                    num == x0 * h + k * (x1 - x0),
                    0 <= k <= h - 1,
                    x1 - x0 >= y1 - y0,
                    h == y1 - y0,
                    h >= 1,
            ;
            let v = round_div(num, h as int);
            lemma_round_div_exact(x0 as int, h as int);
            lemma_round_div_exact((x1 - 1) as int, h as int);
            lemma_round_div_mono(x0 * h, num, h as int);
            lemma_round_div_mono(num, (x1 - 1) * h, h as int);
            assert(x0 <= v <= x1 - 1);
            if p.x <= v {
                let kd = h - k;
                lemma_shared_crossing(x0, y0, x1, y1, k);
                assert(td.rcol(kd) == v);
                assert(covers_down(x0, y0, x1, y1, p));
            } else {
                assert(!tu.terminated(k)) by {
                    assert(num <= x1 * h + k * 0 - h) by (nonlinear_arith)
                        requires
                            num == x0 * h + k * (x1 - x0),
                            0 <= k <= h - 1,
                            x1 - x0 >= h,
                            h >= 1,
                    ;
                };
                assert(tu.lcol(k) == v + 1);
                assert(covers_up(x0, y0, x1, y1, p));
            }
        }
    }
}

/// Every painted point lies strictly between the rows (or columns) the
/// edge-ownership rules assign to this triangle: an upward scan owns its
/// base row but not its apex row, a downward scan owns its apex row but
/// not its base row, and a sideways scan owns both its base and apex
/// columns.
pub proof fn lemma_scan_row_bounds(t: StandardTriangle, p: Point)
    requires
        t.wf(),
        t.in_range(),
        t.tri_points().contains(p),
    ensures
        t.orientation is Up ==> t.p1.y <= p.y < t.p3.y,
        t.orientation is Down ==> t.p3.y <= p.y < t.p1.y,
        t.orientation is Left ==> t.p3.x <= p.x <= t.p1.x,
        t.orientation is Right ==> t.p1.x <= p.x <= t.p3.x,
{
    lemma_seq_add_contains(t.row0(), t.rows_from(1), p);
    lemma_rows_member(t, 1, p);
    let h = t.th();
    let lx = t.left_x();
    let rx = t.right_x();
    let ax = t.apex_x();
    if t.row0().contains(p) {
        assert(t.row0() == t.row_points(0));
        let row = t.row_points(0);
        let i = choose|i: int| 0 <= i < row.len() && row[i] == p;
        assert(p == t.scan_pt(t.lcol(0) + i, t.base_y() + 0));
        assert(!(t.orientation is Down));
    } else {
        let k = choose|k: int|
            1 <= k <= t.th() && !t.terminated(k) && #[trigger] t.row_points(k).contains(p);
        let row = t.row_points(k);
        let i = choose|i: int| 0 <= i < row.len() && row[i] == p;
        assert(p == t.scan_pt(t.lcol(k) + i, t.base_y() + k));
        if t.orientation is Up {
            assert(t.num_left(k) == lx * h + k * (ax - lx));
            assert(t.num_right(k) == rx * h + k * (ax - rx));
            assert(k <= h - 1) by (nonlinear_arith)
                requires
                    lx * h + k * (ax - lx) <= rx * h + k * (ax - rx) - h,
                    rx - lx >= 1,
                    h >= 1,
                    k >= 1,
            ;
        }
    }
}

/// No double coverage on a shared horizontal edge: two horizontal-base
/// triangles meeting at one line — the lower one reaching up to it with
/// its skipped apex row or skipped base row, the upper one starting on
/// it — never paint a lattice point twice: the rules give the shared row
/// entirely to the upper triangle.
pub proof fn lemma_shared_row_no_double_coverage(
    t1: StandardTriangle,
    t2: StandardTriangle,
    c: int,
)
    requires
        t1.wf(),
        t1.in_range(),
        t2.wf(),
        t2.in_range(),
        (t1.orientation is Up && t1.p3.y == c) || (t1.orientation is Down && t1.p1.y == c),
        (t2.orientation is Up && t2.p1.y == c) || (t2.orientation is Down && t2.p3.y == c),
    ensures
        forall|p: Point|
            !(#[trigger] t1.tri_points().contains(p) && t2.tri_points().contains(p)),
{
    assert forall|p: Point|
        !(#[trigger] t1.tri_points().contains(p) && t2.tri_points().contains(p)) by {
        if t1.tri_points().contains(p) && t2.tri_points().contains(p) {
            lemma_scan_row_bounds(t1, p);
            lemma_scan_row_bounds(t2, p);
        }
    }
}

/// Coverage completeness, against the rectangle itself: the two scans of
/// the diagonal split together emit exactly the lattice points of the
/// half-open rectangle from `(x0, y0)` of size `(x1 - x0 + 1, y1 - y0)` —
/// every column the triangles' corners span, every row below the skipped
/// top edge — with none missing and none outside.
pub proof fn lemma_split_equals_rectangle(x0: i32, y0: i32, x1: i32, y1: i32)
    requires
        -COORD_LIMIT <= x0 <= COORD_LIMIT,
        -COORD_LIMIT <= y0 <= COORD_LIMIT,
        -COORD_LIMIT <= x1 <= COORD_LIMIT,
        -COORD_LIMIT <= y1 <= COORD_LIMIT,
        x0 < x1,
        y0 < y1,
        x1 - x0 >= y1 - y0,
    ensures
        forall|p: Point|
            (#[trigger] rect_split_up(x0, y0, x1, y1).tri_points().contains(p) || rect_split_down(
                x0,
                y0,
                x1,
                y1,
            ).tri_points().contains(p)) <==> crate::rectangle::rect_points(
                crate::rectangle::Rectangle {
                    origin: Point { x: x0, y: y0 },
                    size: Point { x: (x1 - x0 + 1) as i32, y: (y1 - y0) as i32 },
                },
            ).contains(p),
{
    let r = crate::rectangle::Rectangle {
        origin: Point { x: x0, y: y0 },
        size: Point { x: (x1 - x0 + 1) as i32, y: (y1 - y0) as i32 },
    };
    lemma_split_coverage(x0, y0, x1, y1);
    assert forall|p: Point|
        (#[trigger] rect_split_up(x0, y0, x1, y1).tri_points().contains(p) || rect_split_down(
            x0,
            y0,
            x1,
            y1,
        ).tri_points().contains(p)) <==> crate::rectangle::rect_points(r).contains(p) by {
        lemma_rect_points_iff(r, p);
    }
}

} // verus!
