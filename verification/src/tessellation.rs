//! Tessellation grids: ordered sequences of congruent cells covering a
//! bounded area, with alternate rows skewed half a step for brick-wall
//! interlocking.

use vstd::prelude::*;

use crate::point::Point;
use crate::polygon::Polygon;
use crate::rectangle::Rectangle;

verus! {

/// An ordered sequence of polygons produced by a tiling generator.
pub struct PolygonTessellation {
    pub polygons: Vec<Polygon>,
}

impl PolygonTessellation {
    /// Every member polygon is well-formed.
    pub open spec fn wf(self) -> bool {
        forall|i: int| 0 <= i < self.polygons@.len() ==> (#[trigger] self.polygons@[i]).wf()
    }

    pub fn new(polygons: Vec<Polygon>) -> (r: PolygonTessellation)
        ensures
            r.polygons == polygons,
    {
        PolygonTessellation { polygons }
    }
}

/// The cell boxes of one grid row: origins stepping right from `x` until
/// one passes `ext_x`.
pub open spec fn grid_row(x: int, y: int, step_x: int, ext_x: int, size: Point) -> Seq<Rectangle>
    decreases ext_x + step_x - x,
{
    if step_x < 1 || x > ext_x {
        Seq::empty()
    } else {
        seq![Rectangle { origin: Point { x: x as i32, y: y as i32 }, size }] + grid_row(
            x + step_x,
            y,
            step_x,
            ext_x,
            size,
        )
    }
}

/// The cell boxes of the grid from row height `y` upward: each row starts
/// at `sx`, skewed by `skew` on rows whose flag is odd, until a row's
/// height passes `ext_y`.
pub open spec fn grid_rows(
    sx: int,
    y: int,
    odd: bool,
    skew: int,
    step_x: int,
    step_y: int,
    ext_x: int,
    ext_y: int,
    size: Point,
) -> Seq<Rectangle>
    decreases ext_y + step_y - y,
{
    if step_y < 1 || y > ext_y {
        Seq::empty()
    } else {
        grid_row(
            sx + if odd {
                skew
            } else {
                0
            },
            y,
            step_x,
            ext_x,
            size,
        ) + grid_rows(sx, y + step_y, !odd, skew, step_x, step_y, ext_x, ext_y, size)
    }
}

/// Membership distributes over sequence concatenation.
proof fn lemma_add_contains<A>(a: Seq<A>, b: Seq<A>, x: A)
    ensures
        (a + b).contains(x) <==> a.contains(x) || b.contains(x),
{
    if a.contains(x) {
        let i = choose|i: int| 0 <= i < a.len() && a[i] == x;
        assert((a + b)[i] == x);
    }
    if b.contains(x) {
        let i = choose|i: int| 0 <= i < b.len() && b[i] == x;
        assert((a + b)[a.len() + i] == x);
    }
    if (a + b).contains(x) {
        let i = choose|i: int| 0 <= i < (a + b).len() && (a + b)[i] == x;
        if i < a.len() {
            assert(a[i] == x);
        } else {
            assert(b[i - a.len()] == x);
        }
    }
}

/// A row run further right keeps every cell of the shorter run.
proof fn lemma_grid_row_subset(x: int, y: int, step_x: int, e1: int, e2: int, size: Point)
    requires
        e1 <= e2,
    ensures
        forall|c: Rectangle|
            grid_row(x, y, step_x, e1, size).contains(c) ==> #[trigger] grid_row(
                x,
                y,
                step_x,
                e2,
                size,
            ).contains(c),
    decreases e1 + step_x - x,
{
    if step_x < 1 || x > e1 {
    } else {
        let head = seq![Rectangle { origin: Point { x: x as i32, y: y as i32 }, size }];
        lemma_grid_row_subset(x + step_x, y, step_x, e1, e2, size);
        assert forall|c: Rectangle|
            grid_row(x, y, step_x, e1, size).contains(c) implies #[trigger] grid_row(
            x,
            y,
            step_x,
            e2,
            size,
        ).contains(c) by {
            lemma_add_contains(head, grid_row(x + step_x, y, step_x, e1, size), c);
            lemma_add_contains(head, grid_row(x + step_x, y, step_x, e2, size), c);
        }
    }
}

/// A grid over a larger area keeps every cell of the grid over a smaller
/// one with the same anchor, steps and cell size: enlarging the covered
/// bounds only adds cells, it moves none.
pub proof fn lemma_grid_subset(
    sx: int,
    y: int,
    odd: bool,
    skew: int,
    step_x: int,
    step_y: int,
    e1x: int,
    e1y: int,
    e2x: int,
    e2y: int,
    size: Point,
)
    requires
        e1x <= e2x,
        e1y <= e2y,
    ensures
        forall|c: Rectangle|
            grid_rows(sx, y, odd, skew, step_x, step_y, e1x, e1y, size).contains(c)
                ==> #[trigger] grid_rows(sx, y, odd, skew, step_x, step_y, e2x, e2y, size).contains(
                c,
            ),
    decreases e1y + step_y - y,
{
    if step_y < 1 || y > e1y {
    } else {
        let x0 = sx + if odd {
            skew
        } else {
            0
        };
        lemma_grid_row_subset(x0, y, step_x, e1x, e2x, size);
        lemma_grid_subset(sx, y + step_y, !odd, skew, step_x, step_y, e1x, e1y, e2x, e2y, size);
        assert forall|c: Rectangle|
            grid_rows(sx, y, odd, skew, step_x, step_y, e1x, e1y, size).contains(c)
                implies #[trigger] grid_rows(
            sx,
            y,
            odd,
            skew,
            step_x,
            step_y,
            e2x,
            e2y,
            size,
        ).contains(c) by {
            lemma_add_contains(
                grid_row(x0, y, step_x, e1x, size),
                grid_rows(sx, y + step_y, !odd, skew, step_x, step_y, e1x, e1y, size),
                c,
            );
            lemma_add_contains(
                grid_row(x0, y, step_x, e2x, size),
                grid_rows(sx, y + step_y, !odd, skew, step_x, step_y, e2x, e2y, size),
                c,
            );
        }
    }
}

/// A sequence splits at any index into that element and the rest.
pub proof fn lemma_skip_head<A>(s: Seq<A>, n: int)
    requires
        0 <= n < s.len(),
    ensures
        s.skip(n) =~= seq![s[n]] + s.skip(n + 1),
{
}

/// The origin sits on the half-step lattice anchored at `(sx, sy)`: at a
/// whole number of vertical steps above `sy`, and — allowing for the skew
/// of odd rows — at a whole number of horizontal steps from `sx`.
pub open spec fn on_grid_lattice(
    sx: int,
    sy: int,
    skew: int,
    step_x: int,
    step_y: int,
    o: Point,
) -> bool {
    let j = (o.y - sy) / step_y;
    &&& (o.y - sy) % step_y == 0
    &&& j >= 0
    &&& (o.x - sx - (j % 2) * skew) % step_x == 0
}

/// Every cell of one row sits on its own height, a whole number of steps
/// right of the row's start.
proof fn lemma_grid_row_lattice(x0: int, x: int, y: int, step_x: int, ext_x: int, size: Point)
    requires
        step_x >= 1,
        (x - x0) % step_x == 0,
        -0x8000_0000 <= x0 <= x,
        ext_x <= 0x7fff_ffff,
        -0x8000_0000 <= y <= 0x7fff_ffff,
    ensures
        forall|m: int|
            0 <= m < grid_row(x, y, step_x, ext_x, size).len() ==> {
                let o = (#[trigger] grid_row(x, y, step_x, ext_x, size)[m]).origin;
                o.y == y && (o.x - x0) % step_x == 0 && x0 <= o.x <= ext_x
            },
    decreases ext_x + step_x - x,
{
    if step_x < 1 || x > ext_x {
    } else {
        vstd::arithmetic::div_mod::lemma_mod_add_multiples_vanish(x - x0, step_x);
        lemma_grid_row_lattice(x0, x + step_x, y, step_x, ext_x, size);
        assert forall|m: int| 0 <= m < grid_row(x, y, step_x, ext_x, size).len() implies {
            let o = (#[trigger] grid_row(x, y, step_x, ext_x, size)[m]).origin;
            o.y == y && (o.x - x0) % step_x == 0 && x0 <= o.x <= ext_x
        } by {
            let row = grid_row(x, y, step_x, ext_x, size);
            if m == 0 {
                assert(row[0].origin == (Point { x: x as i32, y: y as i32 }));
            } else {
                assert(row[m] == grid_row(x + step_x, y, step_x, ext_x, size)[m - 1]);
            }
        }
    }
}

/// Every cell of the grid from row `j` on sits on the half-step lattice
/// anchored at the grid's start corner.
proof fn lemma_grid_rows_lattice(
    sx: int,
    sy: int,
    j: int,
    odd: bool,
    skew: int,
    step_x: int,
    step_y: int,
    ext_x: int,
    ext_y: int,
    size: Point,
)
    requires
        step_x >= 1,
        step_y >= 1,
        skew >= 0,
        j >= 0,
        odd == (j % 2 == 1),
        -0x8000_0000 <= sx,
        -0x8000_0000 <= sy <= 0x7fff_ffff,
        ext_x <= 0x7fff_ffff,
        ext_y <= 0x7fff_ffff,
    ensures
        forall|m: int|
            0 <= m < grid_rows(
                sx,
                sy + j * step_y,
                odd,
                skew,
                step_x,
                step_y,
                ext_x,
                ext_y,
                size,
            ).len() ==> on_grid_lattice(
                sx,
                sy,
                skew,
                step_x,
                step_y,
                (#[trigger] grid_rows(
                    sx,
                    sy + j * step_y,
                    odd,
                    skew,
                    step_x,
                    step_y,
                    ext_x,
                    ext_y,
                    size,
                )[m]).origin,
            ),
    decreases ext_y + step_y - (sy + j * step_y),
{
    let y = sy + j * step_y;
    assert(j * step_y >= 0 && j * step_y >= j) by (nonlinear_arith)
        requires
            j >= 0,
            step_y >= 1,
    ;
    if step_y < 1 || y > ext_y {
    } else {
        let x0 = sx + if odd {
            skew
        } else {
            0
        };
        vstd::arithmetic::div_mod::lemma_mod_multiples_basic(0, step_x);
        lemma_grid_row_lattice(x0, x0, y, step_x, ext_x, size);
        assert(sy + (j + 1) * step_y == y + step_y) by (nonlinear_arith)
            requires
                y == sy + j * step_y,
        ;
        assert((j + 1) % 2 == 1 - j % 2) by {
            assert(j % 2 == 0 || j % 2 == 1);
            vstd::arithmetic::div_mod::lemma_fundamental_div_mod(j, 2);
            vstd::arithmetic::div_mod::lemma_fundamental_div_mod_converse(
                j + 1,
                2,
                j / 2 + (if j % 2 == 1 {
                    1int
                } else {
                    0int
                }),
                1 - j % 2,
            );
        }
        lemma_grid_rows_lattice(
            sx,
            sy,
            j + 1,
            !odd,
            skew,
            step_x,
            step_y,
            ext_x,
            ext_y,
            size,
        );
        let whole = grid_rows(sx, y, odd, skew, step_x, step_y, ext_x, ext_y, size);
        let row = grid_row(x0, y, step_x, ext_x, size);
        let rest = grid_rows(sx, y + step_y, !odd, skew, step_x, step_y, ext_x, ext_y, size);
        assert forall|m: int| 0 <= m < whole.len() implies on_grid_lattice(
            sx,
            sy,
            skew,
            step_x,
            step_y,
            (#[trigger] whole[m]).origin,
        ) by {
            if m < row.len() {
                let o = row[m].origin;
                assert(whole[m] == row[m]);
                vstd::arithmetic::div_mod::lemma_mod_multiples_basic(j, step_y);
                vstd::arithmetic::div_mod::lemma_fundamental_div_mod_converse(
                    o.y - sy,
                    step_y,
                    j,
                    0,
                );
                assert((o.x - sx - (j % 2) * skew) % step_x == 0) by {
                    assert(o.x - sx - (j % 2) * skew == o.x - x0);
                }
            } else {
                assert(whole[m] == rest[m - row.len()]);
            }
        }
    }
}

/// Cells of a grid with given anchor and steps sit on one lattice, wherever
/// its covered area lies: the entry point for the lattice facts of both
/// tessellation generators.
pub proof fn lemma_grid_lattice(
    sx: int,
    sy: int,
    odd0: bool,
    skew: int,
    step_x: int,
    step_y: int,
    ext_x: int,
    ext_y: int,
    size: Point,
)
    requires
        step_x >= 1,
        step_y >= 1,
        skew >= 0,
        !odd0,
        -0x8000_0000 <= sx,
        -0x8000_0000 <= sy <= 0x7fff_ffff,
        ext_x <= 0x7fff_ffff,
        ext_y <= 0x7fff_ffff,
    ensures
        forall|m: int|
            0 <= m < grid_rows(sx, sy, odd0, skew, step_x, step_y, ext_x, ext_y, size).len()
                ==> on_grid_lattice(
                sx,
                sy,
                skew,
                step_x,
                step_y,
                (#[trigger] grid_rows(sx, sy, odd0, skew, step_x, step_y, ext_x, ext_y, size)[m]).origin,
            ),
{
    assert(sy + 0 * step_y == sy);
    vstd::arithmetic::div_mod::lemma_mod_multiples_basic(0, 2);
    lemma_grid_rows_lattice(sx, sy, 0, odd0, skew, step_x, step_y, ext_x, ext_y, size);
}

/// Tessellation alignment: two cell origins on one lattice do not drift —
/// their heights differ by a whole number of vertical steps, and when
/// their rows have the same skew parity, their x positions differ by a
/// whole number of horizontal steps. Two tessellations built with the same
/// center and cell size share their lattice whatever their bounds, so this
/// holds across them.
pub proof fn lemma_lattice_alignment(
    sx: int,
    sy: int,
    skew: int,
    step_x: int,
    step_y: int,
    o1: Point,
    o2: Point,
)
    requires
        step_x >= 1,
        step_y >= 1,
        on_grid_lattice(sx, sy, skew, step_x, step_y, o1),
        on_grid_lattice(sx, sy, skew, step_x, step_y, o2),
    ensures
        (o1.y - o2.y) % step_y == 0,
        ((o1.y - sy) / step_y) % 2 == ((o2.y - sy) / step_y) % 2 ==> (o1.x - o2.x) % step_x == 0,
{
    let j1 = (o1.y - sy) / step_y;
    let j2 = (o2.y - sy) / step_y;
    vstd::arithmetic::div_mod::lemma_fundamental_div_mod(o1.y - sy, step_y);
    vstd::arithmetic::div_mod::lemma_fundamental_div_mod(o2.y - sy, step_y);
    assert(o1.y - o2.y == (j1 - j2) * step_y) by (nonlinear_arith)
        requires
            o1.y - sy == step_y * j1 + (o1.y - sy) % step_y,
            o2.y - sy == step_y * j2 + (o2.y - sy) % step_y,
            (o1.y - sy) % step_y == 0,
            (o2.y - sy) % step_y == 0,
            j1 == (o1.y - sy) / step_y,
            j2 == (o2.y - sy) / step_y,
    ;
    vstd::arithmetic::div_mod::lemma_mod_multiples_basic(j1 - j2, step_y);
    if j1 % 2 == j2 % 2 {
        let a1 = o1.x - sx - (j1 % 2) * skew;
        let a2 = o2.x - sx - (j2 % 2) * skew;
        vstd::arithmetic::div_mod::lemma_fundamental_div_mod(a1, step_x);
        vstd::arithmetic::div_mod::lemma_fundamental_div_mod(a2, step_x);
        assert(o1.x - o2.x == (a1 / step_x - a2 / step_x) * step_x) by (nonlinear_arith)
            requires
                a1 == step_x * (a1 / step_x) + a1 % step_x,
                a2 == step_x * (a2 / step_x) + a2 % step_x,
                a1 % step_x == 0,
                a2 % step_x == 0,
                o1.x - o2.x == a1 - a2,
        ;
        vstd::arithmetic::div_mod::lemma_mod_multiples_basic(a1 / step_x - a2 / step_x, step_x);
    }
}

} // verus!
