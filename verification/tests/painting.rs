use raster_regions::images::{Image, Pixel};
use raster_regions::point::Point;
use raster_regions::polygon::Polygon;
use raster_regions::rectangle::Rectangle;
use raster_regions::tessellation::PolygonTessellation;
use raster_regions::transformers::{
    BlendedTessellationTF, ColoredTessellationTF, MutationList, SolidColorPolygon, SolidRectangle,
    SolidTriangle,
};
use raster_regions::triangle::{Orientation, StandardTriangle};

fn pt(x: i32, y: i32) -> Point {
    Point::new(x, y)
}

#[test]
fn pixel_pack_layout() {
    // Red in the lowest byte, then green, blue, alpha: the encoder's
    // contract.
    assert_eq!(Pixel::rgba(1, 2, 3, 4).to_combined(), 0x04030201);
    assert_eq!(Pixel::rgb(0xff, 0, 0).to_combined(), 0xff0000ff);
    let p = Pixel::from_combined(0x04030201);
    assert_eq!((p.r, p.g, p.b, p.a), (1, 2, 3, 4));
}

#[test]
fn pixel_pack_round_trip_sweep() {
    // Round trip packing over a grid of all four channels, plus the edges.
    let samples: Vec<u8> = (0u16..=255).step_by(15).map(|v| v as u8).collect();
    for &r in &samples {
        for &g in &samples {
            for &b in &samples {
                for &a in &samples {
                    let p = Pixel::rgba(r, g, b, a);
                    assert_eq!(Pixel::from_combined(p.to_combined()), p);
                }
            }
        }
    }
    for v in [0u8, 1, 127, 128, 254, 255] {
        let p = Pixel::rgba(v, 255 - v, v, 255 - v);
        assert_eq!(Pixel::from_combined(p.to_combined()), p);
    }
}

#[test]
fn pixel_new_and_copy() {
    let d = Pixel::new();
    assert_eq!((d.r, d.g, d.b, d.a), (0xff, 0, 0, 0));
    let mut p = Pixel::new();
    p.copy_from(&Pixel::rgba(9, 8, 7, 6));
    assert_eq!(p, Pixel::rgba(9, 8, 7, 6));
    assert_eq!(Pixel::rgb(1, 2, 3).set_alpha(77), Pixel::rgba(1, 2, 3, 77));
}

#[test]
fn pixel_blend_exact() {
    let base = Pixel::rgba(100, 100, 100, 255);
    let over = Pixel::rgba(50, 50, 50, 51);
    let blended = base.blend(&over);
    // channel = (100 * 204 + 50 * 51) / 255 = 90; alpha = 255 - 0 * ... = 255.
    assert_eq!((blended.r, blended.g, blended.b), (90, 90, 90));
    assert_eq!(blended.a, 255);
}

#[test]
fn blend_multiple_takes_last() {
    let pixels = vec![Pixel::rgb(10, 10, 10), Pixel::rgb(200, 100, 40)];
    let blended = Pixel::blend_multiple_no_alpha(&pixels);
    // a_per = 255 / 2 = 127; channels of the last pixel scaled, truncated
    // to a byte.
    assert_eq!(blended.r, ((200u32 * 127) % 256) as u8);
    assert_eq!(blended.g, ((100u32 * 127) % 256) as u8);
    assert_eq!(blended.b, ((40u32 * 127) % 256) as u8);
    assert_eq!(blended.a, 0xff);
}

#[test]
fn image_new_and_contains() {
    let image = Image::new(10, 5);
    assert_eq!(image.size, pt(10, 5));
    assert_eq!(image.data.len(), 50);
    assert!(image.contains(&pt(0, 0)));
    assert!(image.contains(&pt(9, 4)));
    assert!(!image.contains(&pt(10, 4)));
    assert!(!image.contains(&pt(0, 5)));
    assert!(!image.contains(&pt(-1, 0)));
}

#[test]
fn apply_region_paints_rectangle() {
    let mut image = Image::new(10, 10);
    image.apply_region(&SolidRectangle::new(pt(2, 2), pt(3, 3), Pixel::rgb(0, 200, 0)));
    assert_eq!(*image.get_pixel(&pt(2, 2)), Pixel::rgb(0, 200, 0));
    assert_eq!(*image.get_pixel(&pt(4, 4)), Pixel::rgb(0, 200, 0));
    assert_eq!(*image.get_pixel(&pt(5, 5)), Pixel::new());
}

#[test]
fn apply_region_drops_out_of_bounds_points() {
    let mut image = Image::new(4, 4);
    // A rectangle hanging over the edge paints only its inside part.
    image.apply_region(&SolidRectangle::new(pt(2, 2), pt(4, 4), Pixel::rgb(1, 2, 3)));
    assert_eq!(*image.get_pixel(&pt(3, 3)), Pixel::rgb(1, 2, 3));
    assert_eq!(*image.get_pixel(&pt(0, 0)), Pixel::new());
}

#[test]
fn collision_sentinel_marks_overlap() {
    // Two overlapping solid rectangles applied in turn: the overlap turns
    // opaque black, the rest keeps each rectangle's own color.
    let red = Pixel::rgb(255, 0, 0);
    let blue = Pixel::rgb(0, 0, 255);
    let mut image = Image::new(10, 10);
    image.apply_region(&SolidRectangle::new(pt(0, 0), pt(5, 5), red));
    image.apply_region(&SolidRectangle::new(pt(3, 3), pt(5, 5), blue));
    assert_eq!(*image.get_pixel(&pt(1, 1)), red);
    // Rectangles are half-open, so the second box covers up to (7, 7).
    assert_eq!(*image.get_pixel(&pt(7, 7)), blue);
    assert_eq!(*image.get_pixel(&pt(8, 8)), Pixel::new());
    assert_eq!(*image.get_pixel(&pt(4, 4)), Pixel::rgba(0, 0, 0, 0xff));
}

#[test]
fn collision_sentinel_within_one_pass() {
    // The same overlap proposed by one region flags the shared pixels too.
    let red = Pixel::rgb(255, 0, 0);
    let blue = Pixel::rgb(0, 0, 255);
    let mut one_pass = Image::new(10, 10);
    let both = PolygonTessellation::new(vec![
        Polygon::from_shapes(vec![], vec![Rectangle::new(pt(0, 0), pt(5, 5))]),
        Polygon::from_shapes(vec![], vec![Rectangle::new(pt(3, 3), pt(5, 5))]),
    ]);
    one_pass.apply_region(&ColoredTessellationTF::descrete(both, vec![red, blue]));
    assert_eq!(*one_pass.get_pixel(&pt(1, 1)), red);
    assert_eq!(*one_pass.get_pixel(&pt(7, 7)), blue);
    assert_eq!(*one_pass.get_pixel(&pt(4, 4)), Pixel::rgba(0, 0, 0, 0xff));
}

#[test]
fn solid_triangle_paints_only_its_points() {
    let mut image = Image::new(8, 8);
    let green = Pixel::rgb(0, 255, 0);
    image.apply_region(&SolidTriangle::new(pt(0, 0), pt(4, 0), pt(4, 4), Orientation::Up, green));
    let tri = StandardTriangle::new(pt(0, 0), pt(4, 0), pt(4, 4), Orientation::Up);
    let painted: Vec<Point> = tri.iter_points();
    for x in 0..8 {
        for y in 0..8 {
            let expect = if painted.contains(&pt(x, y)) { green } else { Pixel::new() };
            assert_eq!(*image.get_pixel(&pt(x, y)), expect);
        }
    }
}

#[test]
fn solid_polygon_flags_interior_overlap() {
    // A polygon made of a rectangle and a triangle that overlap: the
    // doubly covered pixels come out as the conflict sentinel.
    let tri = StandardTriangle::new(pt(0, 0), pt(4, 0), pt(4, 4), Orientation::Up);
    let rect = Rectangle::new(pt(0, 0), pt(5, 5));
    let poly = Polygon::from_shapes(vec![tri], vec![rect]);
    let mut image = Image::new(6, 6);
    image.apply_region(&SolidColorPolygon::new(poly, Pixel::rgb(10, 20, 30)));
    // (1, 0) is painted by both members.
    assert_eq!(*image.get_pixel(&pt(1, 0)), Pixel::rgba(0, 0, 0, 0xff));
    // (0, 0) only by the rectangle.
    assert_eq!(*image.get_pixel(&pt(0, 0)), Pixel::rgb(10, 20, 30));
}

#[test]
fn colored_tessellation_cycles_colors_per_row() {
    // Two rows of two plain cells; palette of three. Row one takes colors
    // 0 and 1; at the row change the cycle restarts from the palette's
    // end.
    let cell = |x: i32, y: i32| Polygon::from_shapes(vec![], vec![Rectangle::new(pt(x, y), pt(2, 2))]);
    let tess = PolygonTessellation::new(vec![cell(0, 0), cell(2, 0), cell(0, 2), cell(2, 2)]);
    let palette = vec![Pixel::rgb(1, 0, 0), Pixel::rgb(0, 1, 0), Pixel::rgb(0, 0, 1)];
    let mut image = Image::new(4, 4);
    image.apply_region(&ColoredTessellationTF::new(tess, palette.clone()));
    assert_eq!(*image.get_pixel(&pt(0, 0)), palette[0]);
    assert_eq!(*image.get_pixel(&pt(2, 0)), palette[1]);
    assert_eq!(*image.get_pixel(&pt(0, 2)), palette[2]);
    assert_eq!(*image.get_pixel(&pt(2, 2)), palette[0]);
}

#[test]
fn discrete_tessellation_uses_cell_index() {
    let cell = |x: i32| Polygon::from_shapes(vec![], vec![Rectangle::new(pt(x, 0), pt(1, 1))]);
    let tess = PolygonTessellation::new(vec![cell(0), cell(1), cell(2)]);
    let palette = vec![Pixel::rgb(5, 0, 0), Pixel::rgb(0, 5, 0), Pixel::rgb(0, 0, 5)];
    let mut image = Image::new(3, 1);
    image.apply_region(&ColoredTessellationTF::descrete(tess, palette.clone()));
    assert_eq!(*image.get_pixel(&pt(0, 0)), palette[0]);
    assert_eq!(*image.get_pixel(&pt(1, 0)), palette[1]);
    assert_eq!(*image.get_pixel(&pt(2, 0)), palette[2]);
}

#[test]
fn blended_tessellation_blends_underlying_pixels() {
    // One cell over a fresh image: every covered pixel gets the same
    // blend of the pixels underneath, and untouched pixels keep theirs.
    let mut image = Image::new(4, 4);
    let cell = Polygon::from_shapes(vec![], vec![Rectangle::new(pt(0, 0), pt(2, 2))]);
    let tess = PolygonTessellation::new(vec![cell]);
    image.apply_region(&BlendedTessellationTF::new(tess));
    // Four pixels to blend at alpha 255 / 4 = 63; the fresh buffer is
    // full red, and blending red over red keeps the red channel at 255.
    let blended = *image.get_pixel(&pt(0, 0));
    assert_eq!(*image.get_pixel(&pt(1, 1)), blended);
    assert_eq!((blended.r, blended.g, blended.b), (255, 0, 0));
    assert_eq!(*image.get_pixel(&pt(3, 3)), Pixel::new());
}

#[test]
fn write_produces_png_stream() {
    let image = Image::new(2, 2);
    let bytes = image.write();
    // PNG signature, then the IHDR chunk.
    assert_eq!(&bytes[0..8], &[0x89, 0x50, 0x4e, 0x47, 0x0d, 0x0a, 0x1a, 0x0a]);
    assert_eq!(&bytes[12..16], b"IHDR");
    // Width and height, big endian.
    assert_eq!(&bytes[16..20], &[0, 0, 0, 2]);
    assert_eq!(&bytes[20..24], &[0, 0, 0, 2]);
}

#[test]
fn combined_data_packs_in_buffer_order() {
    let mut image = Image::new(2, 1);
    image.apply_region(&SolidRectangle::new(pt(0, 0), pt(1, 1), Pixel::rgba(1, 2, 3, 4)));
    let data = image.combined_data();
    assert_eq!(data, vec![0x04030201, Pixel::new().to_combined()]);
}

#[test]
fn mutation_list_applies_as_given() {
    let mut image = Image::new(3, 3);
    let muts = vec![
        (pt(0, 0), Pixel::rgb(1, 1, 1)),
        (pt(2, 2), Pixel::rgb(2, 2, 2)),
        // Out of bounds: silently dropped.
        (pt(5, 5), Pixel::rgb(3, 3, 3)),
        // A repeat of the first point: flagged.
        (pt(0, 0), Pixel::rgb(4, 4, 4)),
    ];
    image.apply_region(&MutationList::new(muts));
    assert_eq!(*image.get_pixel(&pt(0, 0)), Pixel::rgba(0, 0, 0, 0xff));
    assert_eq!(*image.get_pixel(&pt(2, 2)), Pixel::rgb(2, 2, 2));
    assert_eq!(*image.get_pixel(&pt(1, 1)), Pixel::new());
}
