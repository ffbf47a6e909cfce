use std::collections::HashSet;

use raster_regions::hexagon::Hexagon;
use raster_regions::point::Point;
use raster_regions::polygon::Polygon;
use raster_regions::rect_poly::RectanglePoly;
use raster_regions::rectangle::{Rectangle, RectangleIterator};
use raster_regions::triangle::{Orientation, StandardTriangle, Triangle};

fn pt(x: i32, y: i32) -> Point {
    Point::new(x, y)
}

#[test]
fn point_linear_round_trip() {
    let p = pt(7, 3);
    let idx = p.to_linear(10);
    assert_eq!(idx, 37);
    let back = Point::from_linear(idx, 10);
    assert_eq!(back, p);
}

#[test]
fn point_dot_and_distance_square() {
    assert_eq!(pt(2, 3).dot(&pt(4, 5)), 23);
    assert_eq!(pt(1, 1).distance_square(&pt(4, 5)), 25);
}

#[test]
fn rectangle_iter_points_row_major() {
    let r = Rectangle::new(pt(1, 1), pt(2, 2));
    let pts = r.iter_points();
    assert_eq!(pts, vec![pt(1, 1), pt(2, 1), pt(1, 2), pt(2, 2)]);
}

#[test]
fn rectangle_iterator_steps_in_same_order() {
    let r = Rectangle::new(pt(1, 1), pt(2, 2));
    let mut it = RectangleIterator::new(&r);
    let mut collected = Vec::new();
    while let Some(p) = it.next() {
        collected.push(p);
    }
    assert_eq!(collected, r.iter_points());
}

#[test]
fn rectangle_contains_is_half_open() {
    let r = Rectangle::new(pt(0, 0), pt(5, 5));
    assert!(r.contains(&pt(0, 0)));
    assert!(r.contains(&pt(4, 4)));
    assert!(!r.contains(&pt(5, 4)));
    assert!(!r.contains(&pt(4, 5)));
    assert!(!r.contains(&pt(-1, 0)));
}

#[test]
fn rectangle_union_covers_both() {
    let mut a = Rectangle::new(pt(0, 0), pt(2, 2));
    let b = Rectangle::new(pt(3, -1), pt(2, 2));
    a.union(&b);
    assert_eq!(a.origin, pt(0, -1));
    assert_eq!(a.size, pt(5, 3));
}

#[test]
fn square_split_small_exact_points() {
    // The two halves of the 2 x 2 square from (0, 0) to (2, 2).
    let up = StandardTriangle::new(pt(0, 0), pt(2, 0), pt(2, 2), Orientation::Up);
    let down = StandardTriangle::new(pt(0, 2), pt(2, 2), pt(0, 0), Orientation::Down);
    assert_eq!(up.iter_points(), vec![pt(1, 0), pt(2, 0), pt(2, 1)]);
    assert_eq!(down.iter_points(), vec![pt(0, 1), pt(1, 1), pt(0, 0)]);
}

#[test]
fn square_split_covers_exactly_once() {
    // Coverage completeness and no double coverage, on values: the two
    // halves of the square from (10, 10) to (14, 14) paint exactly the
    // lattice points 10 <= x <= 14, 10 <= y < 14, each once.
    let up = StandardTriangle::new(pt(10, 10), pt(14, 10), pt(14, 14), Orientation::Up);
    let down = StandardTriangle::new(pt(10, 14), pt(14, 14), pt(10, 10), Orientation::Down);
    let up_pts: HashSet<Point> = up.iter_points().into_iter().collect();
    let down_pts: HashSet<Point> = down.iter_points().into_iter().collect();
    assert!(up_pts.is_disjoint(&down_pts));
    let mut expected = HashSet::new();
    for x in 10..=14 {
        for y in 10..14 {
            expected.insert(pt(x, y));
        }
    }
    let union: HashSet<Point> = up_pts.union(&down_pts).cloned().collect();
    assert_eq!(union, expected);
}

#[test]
fn wide_split_covers_exactly_once() {
    // A wider-than-tall rectangle: still no gaps and no overlaps.
    let up = StandardTriangle::new(pt(0, 0), pt(7, 0), pt(7, 3), Orientation::Up);
    let down = StandardTriangle::new(pt(0, 3), pt(7, 3), pt(0, 0), Orientation::Down);
    let up_pts: HashSet<Point> = up.iter_points().into_iter().collect();
    let down_pts: HashSet<Point> = down.iter_points().into_iter().collect();
    assert!(up_pts.is_disjoint(&down_pts));
    let mut expected = HashSet::new();
    for x in 0..=7 {
        for y in 0..3 {
            expected.insert(pt(x, y));
        }
    }
    let union: HashSet<Point> = up_pts.union(&down_pts).cloned().collect();
    assert_eq!(union, expected);
}

#[test]
fn stacked_triangles_share_no_row() {
    // Two upward triangles stacked at the line y = 3: the lower one's
    // skipped apex row belongs entirely to the upper one's base.
    let lower = StandardTriangle::new(pt(0, 0), pt(4, 0), pt(2, 3), Orientation::Up);
    let upper = StandardTriangle::new(pt(0, 3), pt(4, 3), pt(2, 6), Orientation::Up);
    let lower_pts: HashSet<Point> = lower.iter_points().into_iter().collect();
    let upper_pts: HashSet<Point> = upper.iter_points().into_iter().collect();
    assert!(lower_pts.is_disjoint(&upper_pts));
    assert!(lower_pts.iter().all(|p| p.y < 3));
    assert!(upper_pts.iter().all(|p| p.y >= 3));
    assert!(upper_pts.iter().any(|p| p.y == 3));

    // The same for a downward triangle hanging from the line: it paints
    // below it only.
    let hanging = StandardTriangle::new(pt(0, 3), pt(4, 3), pt(2, 0), Orientation::Down);
    let hanging_pts: HashSet<Point> = hanging.iter_points().into_iter().collect();
    assert!(hanging_pts.is_disjoint(&upper_pts));
    assert!(hanging_pts.iter().all(|p| p.y < 3));
}

#[test]
fn tall_split_stays_disjoint() {
    // Taller than wide: coverage may have seams, but never double paint.
    let up = StandardTriangle::new(pt(0, 0), pt(1, 0), pt(1, 3), Orientation::Up);
    let down = StandardTriangle::new(pt(0, 3), pt(1, 3), pt(0, 0), Orientation::Down);
    let up_pts: HashSet<Point> = up.iter_points().into_iter().collect();
    let down_pts: HashSet<Point> = down.iter_points().into_iter().collect();
    assert!(up_pts.is_disjoint(&down_pts));
}

#[test]
fn all_four_orientations_emit_points() {
    let up = StandardTriangle::new(pt(100, 90), pt(200, 90), pt(150, 190), Orientation::Up);
    let down = StandardTriangle::new(pt(100, 310), pt(200, 310), pt(150, 210), Orientation::Down);
    let right = StandardTriangle::new(pt(40, 150), pt(40, 250), pt(140, 200), Orientation::Right);
    let left = StandardTriangle::new(pt(260, 150), pt(260, 250), pt(160, 200), Orientation::Left);
    for t in [up, down, right, left] {
        let pts = t.iter_points();
        assert!(!pts.is_empty());
        let b = t.bounds();
        for p in &pts {
            assert!(p.x >= b.origin.x && p.y >= b.origin.y);
            assert!(p.x <= b.origin.x + b.size.x && p.y <= b.origin.y + b.size.y);
        }
    }
}

#[test]
fn try_new_finds_canonical_form() {
    // The same three corners in scrambled order still canonicalize.
    let t = StandardTriangle::try_new(&pt(2, 2), &pt(0, 0), &pt(2, 0)).unwrap();
    let pts = [t.p1, t.p2, t.p3];
    assert!(pts.contains(&pt(0, 0)) && pts.contains(&pt(2, 0)) && pts.contains(&pt(2, 2)));
    assert!(StandardTriangle::try_new(&pt(0, 0), &pt(4, 2), &pt(2, 6)).is_none());
}

#[test]
fn decomposition_is_idempotent_on_canonical_input() {
    // An already-canonical triangle decomposes to itself and nothing else.
    let (t1, t2) = Triangle::new(pt(100, 90), pt(200, 90), pt(150, 190)).to_triangles();
    assert!(t2.is_none());
    assert_eq!(t1.p1, pt(100, 90));
    assert_eq!(t1.p2, pt(200, 90));
    assert_eq!(t1.p3, pt(150, 190));
    assert!(matches!(t1.orientation, Orientation::Up));

    let (d1, d2) = Triangle::new(pt(100, 310), pt(200, 310), pt(150, 210)).to_triangles();
    assert!(d2.is_none());
    assert_eq!(d1.p1, pt(100, 310));
    assert!(matches!(d1.orientation, Orientation::Down));
}

#[test]
fn decomposition_splits_general_triangle() {
    // Corners (0,0), (4,2), (2,6): the long edge (0,0)-(2,6) crosses the
    // horizontal through (4,2) at x = 2/3, which rounds to 1.
    let (t1, t2) = Triangle::new(pt(0, 0), pt(4, 2), pt(2, 6)).to_triangles();
    let t2 = t2.unwrap();
    assert!(matches!(t1.orientation, Orientation::Up));
    assert_eq!((t1.p1, t1.p2, t1.p3), (pt(1, 2), pt(4, 2), pt(2, 6)));
    assert!(matches!(t2.orientation, Orientation::Down));
    assert_eq!((t2.p1, t2.p2, t2.p3), (pt(1, 2), pt(4, 2), pt(0, 0)));
}

#[test]
fn polygon_concatenates_rectangles_then_triangles() {
    let tri = StandardTriangle::new(pt(0, 0), pt(2, 0), pt(2, 2), Orientation::Up);
    let rect = Rectangle::new(pt(10, 10), pt(2, 1));
    let poly = Polygon::from_shapes(vec![tri], vec![rect]);
    let mut expected = rect.iter_points();
    expected.extend(tri.iter_points());
    assert_eq!(poly.iter_points(), expected);
    let b = poly.bounds();
    assert_eq!(b.origin, pt(0, 0));
    assert_eq!(b.size, pt(12, 11));
}

#[test]
fn polygon_triangle_constructor_matches_decomposition() {
    let poly = Polygon::triangle(pt(0, 0), pt(4, 2), pt(2, 6));
    assert_eq!(poly.rectangles.len(), 0);
    assert_eq!(poly.triangles.len(), 2);
    let direct = Triangle::new(pt(0, 0), pt(4, 2), pt(2, 6));
    assert_eq!(poly.triangles[0], direct.t1);
    assert_eq!(poly.triangles[1], direct.t2.unwrap());
}

#[test]
fn hexagon_from_bounds_shape() {
    let b = Rectangle::new(pt(400, 400), pt(100, 100));
    let hex = Hexagon::from_bounds(&b);
    assert_eq!(hex.triangles.len(), 4);
    assert_eq!(hex.rectangles.len(), 1);
    assert_eq!(hex.bounds().origin, pt(400, 400));
    // The middle band spans the box's full width between the mid heights.
    let band = hex.rectangles[0];
    assert_eq!(band.origin, pt(400, 425));
    assert_eq!(band.size, pt(100, 50));
}

#[test]
fn hexagon_regular_geometry() {
    // Width is the side scaled by the square root of three, rounded.
    let rb = Hexagon::regular_bounds(30);
    assert_eq!(rb.size, pt(52, 60));
    let step = Hexagon::regular_step(30);
    assert_eq!(step, pt(52, 45));
}

#[test]
fn hexagon_tessellation_covers_bounds() {
    let bounds = Rectangle::new(pt(100, 100), pt(400, 600));
    let cells = Hexagon::tessellate(&pt(300, 400), 30, &bounds);
    assert!(!cells.is_empty());
    let step = Hexagon::regular_step(30);
    // Every row of cells shares its height; rows are one vertical step
    // apart; all origins stay at or left/below the extent.
    for c in &cells {
        let o = c.bounds().origin;
        assert!(o.x <= 500 && o.y <= 700);
    }
    let first_y = cells[0].bounds().origin.y;
    assert!(cells.iter().any(|c| c.bounds().origin.y == first_y + step.y));
}

#[test]
fn tessellation_alignment_no_drift() {
    // Two hexagon tessellations with the same center and side but
    // different bounds: cell origins lie on one lattice.
    let center = pt(300, 400);
    let side = 30;
    let step = Hexagon::regular_step(side);
    let a = Hexagon::tessellate(&center, side, &Rectangle::new(pt(100, 100), pt(400, 600)));
    let b = Hexagon::tessellate(&center, side, &Rectangle::new(pt(0, 0), pt(250, 300)));
    for ca in &a {
        for cb in &b {
            let oa = ca.bounds().origin;
            let ob = cb.bounds().origin;
            assert_eq!((oa.y - ob.y) % step.y, 0);
            if (oa.y - ob.y) / step.y % 2 == 0 {
                assert_eq!((oa.x - ob.x) % step.x, 0);
            }
        }
    }
}

#[test]
fn tessellation_subset_under_larger_bounds() {
    // Enlarging the covered area only adds cells: every cell of the
    // smaller hexagon tessellation reappears, box for box, in the larger.
    let center = pt(300, 400);
    let small = Hexagon::tessellate(&center, 30, &Rectangle::new(pt(0, 0), pt(250, 300)));
    let large = Hexagon::tessellate(&center, 30, &Rectangle::new(pt(100, 100), pt(400, 600)));
    let large_boxes: HashSet<(Point, Point)> =
        large.iter().map(|c| (c.bounds().origin, c.bounds().size)).collect();
    assert!(!small.is_empty());
    for c in &small {
        assert!(large_boxes.contains(&(c.bounds().origin, c.bounds().size)));
    }

    let small_r =
        RectanglePoly::tessellate(&center, &pt(30, 30), &Rectangle::new(pt(0, 0), pt(120, 90)), true);
    let large_r = RectanglePoly::tessellate(
        &center,
        &pt(30, 30),
        &Rectangle::new(pt(50, 50), pt(200, 200)),
        true,
    );
    let large_origins: HashSet<Point> = large_r.iter().map(|c| c.bounds().origin).collect();
    assert!(!small_r.is_empty());
    for c in &small_r {
        assert!(large_origins.contains(&c.bounds().origin));
    }
}

#[test]
fn rectangle_tessellation_alignment_no_drift() {
    let center = pt(300, 400);
    let size = pt(30, 30);
    let a = RectanglePoly::tessellate(&center, &size, &Rectangle::new(pt(200, 200), pt(200, 400)), false);
    let b = RectanglePoly::tessellate(&center, &size, &Rectangle::new(pt(0, 0), pt(120, 90)), false);
    assert!(!a.is_empty() && !b.is_empty());
    for ca in &a {
        for cb in &b {
            let oa = ca.bounds().origin;
            let ob = cb.bounds().origin;
            assert_eq!((oa.y - ob.y) % size.y, 0);
            if (oa.y - ob.y) / size.y % 2 == 0 {
                assert_eq!((oa.x - ob.x) % size.x, 0);
            }
        }
    }
}

#[test]
fn rectangle_tessellation_cells_are_plain_boxes() {
    let cells = RectanglePoly::tessellate(
        &pt(15, 15),
        &pt(10, 10),
        &Rectangle::new(pt(0, 0), pt(25, 25)),
        false,
    );
    assert!(!cells.is_empty());
    for c in &cells {
        assert_eq!(c.triangles.len(), 0);
        assert_eq!(c.rectangles.len(), 1);
        assert_eq!(c.rectangles[0].size, pt(10, 10));
    }
}

#[test]
fn tessellation_center_fn_exact() {
    let nb = Rectangle::new(pt(0, 0), pt(52, 60));
    let cell = Hexagon::tessellation_center_fn(&pt(0, 0), &nb, &pt(300, 400));
    // x_step 52, y_step = round(60 * 3 / 4) = 45; min_x = (600 % 52) / 2 = 14;
    // min_y = (800 % 45) / 4 = 8; row_mult = (400 / 45) % 2 = 0; index (0, 0).
    assert_eq!(cell.origin, pt(14, 8));
    assert_eq!(cell.size, pt(52, 60));
    let cell2 = Hexagon::tessellation_center_fn(&pt(1, 1), &nb, &pt(300, 400));
    assert_eq!(cell2.origin, pt(14 + 52 + 26, 8 + 45));
}
