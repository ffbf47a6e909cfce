//! Regions that paint shapes and tessellations onto an image.

use vstd::prelude::*;

use crate::images::{blend_spec, in_buffer, lin_index, Image, Pixel};
use crate::point::Point;
use crate::polygon::Polygon;
use crate::rectangle::{rect_points, Rectangle};
use crate::region::Region;
use crate::tessellation::PolygonTessellation;
use crate::triangle::{
    decomposable, has_standard_form, valid_orientation_spec, Orientation, Triangle, COORD_LIMIT,
};

verus! {

/// Every point paired with one color.
pub open spec fn with_color(ps: Seq<Point>, c: Pixel) -> Seq<(Point, Pixel)> {
    Seq::new(ps.len(), |i: int| (ps[i], c))
}

/// The points that lie inside a `size.x` by `size.y` buffer, in order.
pub open spec fn clip(ps: Seq<Point>, size: Point) -> Seq<Point>
    decreases ps.len(),
{
    if ps.len() == 0 {
        Seq::empty()
    } else {
        clip(ps.drop_last(), size) + if in_buffer(ps.last(), size.x as int, size.y as int) {
            seq![ps.last()]
        } else {
            Seq::empty()
        }
    }
}

/// Keep the points inside the image.
fn clip_points(pts: &Vec<Point>, size: Point) -> (r: Vec<Point>)
    ensures
        r@ == clip(pts@, size),
{
    let mut res: Vec<Point> = Vec::new();
    let mut i: usize = 0;
    proof {
        assert(pts@.take(0) =~= Seq::<Point>::empty());
        assert(res@ =~= clip(pts@.take(0), size));
    }
    while i < pts.len()
        invariant
            i <= pts@.len(),
            res@ == clip(pts@.take(i as int), size),
        decreases pts@.len() - i,
    {
        let p = pts[i];
        proof {
            assert(pts@.take(i + 1).drop_last() =~= pts@.take(i as int));
            assert(pts@.take(i + 1).last() == p);
        }
        if p.x >= 0 && p.x < size.x && p.y >= 0 && p.y < size.y {
            res.push(p);
            proof {
                assert(res@ =~= clip(pts@.take(i as int), size) + seq![p]);
            }
        } else {
            proof {
                assert(res@ =~= clip(pts@.take(i as int), size) + Seq::<Point>::empty());
            }
        }
        i = i + 1;
    }
    proof {
        assert(pts@.take(pts@.len() as int) =~= pts@);
    }
    res
}

/// Append every point of `pts` with the color `c`.
fn push_with_color(mutations: &mut Vec<(Point, Pixel)>, pts: &Vec<Point>, c: Pixel)
    ensures
        final(mutations)@ == old(mutations)@ + with_color(pts@, c),
{
    let mut i: usize = 0;
    proof {
        assert(mutations@ =~= mutations@ + with_color(pts@, c).take(0));
    }
    while i < pts.len()
        invariant
            i <= pts@.len(),
            mutations@ == old(mutations)@ + with_color(pts@, c).take(i as int),
        decreases pts@.len() - i,
    {
        let p = pts[i];
        mutations.push((p, c));
        proof {
            assert(with_color(pts@, c)[i as int] == (p, c));
            assert(mutations@ =~= old(mutations)@ + with_color(pts@, c).take(i + 1));
        }
        i = i + 1;
    }
    proof {
        assert(with_color(pts@, c).take(pts@.len() as int) =~= with_color(pts@, c));
    }
}

/// A triangle painted in one color, unclipped: the image applies the
/// bounds policy.
pub struct SolidTriangle {
    pub triangle: Triangle,
    pub color: Pixel,
}

impl SolidTriangle {
    /// From an already-canonical triangle.
    pub fn new(p1: Point, p2: Point, p3: Point, orientation: Orientation, color: Pixel) -> (r:
        SolidTriangle)
        requires
            valid_orientation_spec(p1, p2, p3, orientation),
            -COORD_LIMIT <= p1.x <= COORD_LIMIT,
            -COORD_LIMIT <= p1.y <= COORD_LIMIT,
            -COORD_LIMIT <= p2.x <= COORD_LIMIT,
            -COORD_LIMIT <= p2.y <= COORD_LIMIT,
            -COORD_LIMIT <= p3.x <= COORD_LIMIT,
            -COORD_LIMIT <= p3.y <= COORD_LIMIT,
        ensures
            r.triangle.t1 == (crate::triangle::StandardTriangle {
                p1,
                p2,
                p3,
                orientation,
                is_transposed: false,
            }),
            r.triangle.t2 is None,
            r.color == color,
            r.triangle.wf(),
    {
        SolidTriangle { triangle: Triangle::new_standard(p1, p2, p3, orientation), color }
    }

    /// From any three corners, decomposed as [`Triangle::new`] does.
    pub fn new_any(p1: Point, p2: Point, p3: Point, color: Pixel) -> (r: SolidTriangle)
        requires
            -COORD_LIMIT <= p1.x <= COORD_LIMIT,
            -COORD_LIMIT <= p1.y <= COORD_LIMIT,
            -COORD_LIMIT <= p2.x <= COORD_LIMIT,
            -COORD_LIMIT <= p2.y <= COORD_LIMIT,
            -COORD_LIMIT <= p3.x <= COORD_LIMIT,
            -COORD_LIMIT <= p3.y <= COORD_LIMIT,
            has_standard_form(p1, p2, p3) || decomposable(p1, p2, p3),
        ensures
            r.triangle.wf(),
            r.color == color,
            has_standard_form(p1, p2, p3) ==> r.triangle.t1 == crate::triangle::try_new_spec(
                p1,
                p2,
                p3,
            )->Some_0 && r.triangle.t2 is None,
            !has_standard_form(p1, p2, p3) ==> r.triangle.t1 == crate::triangle::split_up(
                p1,
                p2,
                p3,
            ) && r.triangle.t2 == Some(crate::triangle::split_down(p1, p2, p3)),
    {
        SolidTriangle { triangle: Triangle::new(p1, p2, p3), color }
    }
}

impl Region for SolidTriangle {
    open spec fn wf(&self) -> bool {
        self.triangle.wf()
    }

    open spec fn spec_mutations(&self, image: Image) -> Seq<(Point, Pixel)> {
        with_color(self.triangle.spec_points(), self.color)
    }

    fn get_mutations(&self, image: &Image, mutations: &mut Vec<(Point, Pixel)>) {
        let pts = self.triangle.iter_points();
        push_with_color(mutations, &pts, self.color);
    }
}

/// A rectangle painted in one color, unclipped.
pub struct SolidRectangle {
    pub rectangle: Rectangle,
    pub color: Pixel,
}

impl SolidRectangle {
    pub fn new(origin: Point, size: Point, color: Pixel) -> (r: SolidRectangle)
        requires
            i32::MIN <= origin.x + size.x <= i32::MAX,
            i32::MIN <= origin.y + size.y <= i32::MAX,
        ensures
            r.rectangle == (Rectangle { origin, size }),
            r.color == color,
    {
        SolidRectangle { rectangle: Rectangle::new(origin, size), color }
    }
}

impl Region for SolidRectangle {
    open spec fn wf(&self) -> bool {
        self.rectangle.fits()
    }

    open spec fn spec_mutations(&self, image: Image) -> Seq<(Point, Pixel)> {
        with_color(rect_points(self.rectangle), self.color)
    }

    fn get_mutations(&self, image: &Image, mutations: &mut Vec<(Point, Pixel)>) {
        let pts = self.rectangle.iter_points();
        push_with_color(mutations, &pts, self.color);
    }
}

/// A polygon painted in one color, unclipped.
pub struct SolidColorPolygon {
    pub polygon: Polygon,
    pub color: Pixel,
}

impl SolidColorPolygon {
    pub fn new(polygon: Polygon, color: Pixel) -> (r: SolidColorPolygon)
        ensures
            r.polygon == polygon,
            r.color == color,
    {
        SolidColorPolygon { polygon, color }
    }
}

impl Region for SolidColorPolygon {
    open spec fn wf(&self) -> bool {
        self.polygon.wf()
    }

    open spec fn spec_mutations(&self, image: Image) -> Seq<(Point, Pixel)> {
        with_color(self.polygon.spec_points(), self.color)
    }

    fn get_mutations(&self, image: &Image, mutations: &mut Vec<(Point, Pixel)>) {
        let pts = self.polygon.iter_points();
        push_with_color(mutations, &pts, self.color);
    }
}

/// Every point a clip keeps lies inside the buffer.
proof fn lemma_clip_in(ps: Seq<Point>, size: Point)
    ensures
        forall|j: int|
            0 <= j < clip(ps, size).len() ==> in_buffer(
                #[trigger] clip(ps, size)[j],
                size.x as int,
                size.y as int,
            ),
    decreases ps.len(),
{
    if ps.len() > 0 {
        lemma_clip_in(ps.drop_last(), size);
        assert forall|j: int| 0 <= j < clip(ps, size).len() implies in_buffer(
            #[trigger] clip(ps, size)[j],
            size.x as int,
            size.y as int,
        ) by {
            if j < clip(ps.drop_last(), size).len() {
                assert(clip(ps, size)[j] == clip(ps.drop_last(), size)[j]);
            }
        }
    }
}

/// The state-machine walk of [`ColoredTessellationTF`]: cells of one grid
/// row cycle through the palette; at each new row the cycle restarts from
/// the end or the start of the palette, alternating; in discrete mode each
/// cell takes the palette entry of its own index instead.
pub open spec fn tess_muts(
    polys: Seq<Polygon>,
    colors: Seq<Pixel>,
    discrete: bool,
    size: Point,
    i: int,
    last_y: int,
    ci: int,
    ls: int,
) -> Seq<(Point, Pixel)>
    decreases polys.len() - i,
{
    if i < 0 || i >= polys.len() {
        Seq::empty()
    } else {
        let p = polys[i];
        let row_changed = last_y != p.bounding_box.origin.y;
        let ci2 = if row_changed {
            if ls == 0 {
                colors.len() - 1
            } else {
                0
            }
        } else {
            ci
        };
        let ls2 = if row_changed {
            if ls == 0 {
                colors.len() - 1
            } else {
                0
            }
        } else {
            ls
        };
        let chosen = if discrete {
            colors[i]
        } else {
            colors[ci2]
        };
        with_color(clip(p.spec_points(), size), chosen) + tess_muts(
            polys,
            colors,
            discrete,
            size,
            i + 1,
            p.bounding_box.origin.y as int,
            (ci2 + 1) % (colors.len() as int),
            ls2,
        )
    }
}

/// A tessellation whose cells are painted from a palette, clipped to the
/// image: either cycling per row, or — discrete — one palette entry per
/// cell.
pub struct ColoredTessellationTF {
    pub tessellation: PolygonTessellation,
    pub colors: Vec<Pixel>,
    pub use_descrete_colors: bool,
}

impl ColoredTessellationTF {
    /// Row-cycling palette.
    pub fn new(tessellation: PolygonTessellation, colors: Vec<Pixel>) -> (r:
        ColoredTessellationTF)
        ensures
            r.tessellation == tessellation,
            r.colors == colors,
            !r.use_descrete_colors,
    {
        ColoredTessellationTF { tessellation, colors, use_descrete_colors: false }
    }

    /// One palette entry per cell, in cell order.
    pub fn descrete(tessellation: PolygonTessellation, colors: Vec<Pixel>) -> (r:
        ColoredTessellationTF)
        ensures
            r.tessellation == tessellation,
            r.colors == colors,
            r.use_descrete_colors,
    {
        ColoredTessellationTF { tessellation, colors, use_descrete_colors: true }
    }
}

impl Region for ColoredTessellationTF {
    open spec fn wf(&self) -> bool {
        &&& self.tessellation.wf()
        &&& self.colors@.len() >= 1
        &&& self.use_descrete_colors ==> self.tessellation.polygons@.len() <= self.colors@.len()
    }

    open spec fn spec_mutations(&self, image: Image) -> Seq<(Point, Pixel)> {
        if self.tessellation.polygons@.len() == 0 {
            Seq::empty()
        } else {
            tess_muts(
                self.tessellation.polygons@,
                self.colors@,
                self.use_descrete_colors,
                image.size,
                0,
                self.tessellation.polygons@[0].bounding_box.origin.y as int,
                0,
                0,
            )
        }
    }

    fn get_mutations(&self, image: &Image, mutations: &mut Vec<(Point, Pixel)>) {
        let polys = &self.tessellation.polygons;
        if polys.len() == 0 {
            proof {
                assert(mutations@ =~= old(mutations)@ + self.spec_mutations(*image));
            }
            return ;
        }
        let ghost total = self.spec_mutations(*image);
        let mut last_y: i32 = polys[0].bounds().origin.y;
        let mut color_index: usize = 0;
        let mut last_start: usize = 0;
        let mut idx: usize = 0;
        proof {
            assert(mutations@ + total =~= old(mutations)@ + total);
        }
        while idx < polys.len()
            invariant
                self.wf(),
                image.wf(),
                polys == &self.tessellation.polygons,
                idx <= polys@.len(),
                self.colors@.len() >= 1,
                color_index < self.colors@.len(),
                last_start == 0 || last_start == self.colors@.len() - 1,
                total == self.spec_mutations(*image),
                mutations@ + tess_muts(
                    polys@,
                    self.colors@,
                    self.use_descrete_colors,
                    image.size,
                    idx as int,
                    last_y as int,
                    color_index as int,
                    last_start as int,
                ) == old(mutations)@ + total,
            decreases polys@.len() - idx,
        {
            let ghost pre_muts = mutations@;
            let ghost pre_ly = last_y as int;
            let ghost pre_ci = color_index as int;
            let ghost pre_ls = last_start as int;
            let poly = &polys[idx];
            let clen = self.colors.len();
            if last_y != poly.bounds().origin.y {
                if last_start == 0 {
                    color_index = clen - 1;
                    last_start = color_index;
                } else {
                    color_index = 0;
                    last_start = color_index;
                }
                last_y = poly.bounds().origin.y;
            }
            let chosen = if self.use_descrete_colors {
                self.colors[idx]
            } else {
                self.colors[color_index]
            };
            let pts_all = poly.iter_points();
            let pts = clip_points(&pts_all, image.size);
            push_with_color(mutations, &pts, chosen);
            color_index = (color_index + 1) % clen;
            idx = idx + 1;
            proof {
                let head = with_color(clip(polys@[idx - 1].spec_points(), image.size), chosen);
                assert(tess_muts(
                    polys@,
                    self.colors@,
                    self.use_descrete_colors,
                    image.size,
                    idx - 1,
                    pre_ly,
                    pre_ci,
                    pre_ls,
                ) == head + tess_muts(
                    polys@,
                    self.colors@,
                    self.use_descrete_colors,
                    image.size,
                    idx as int,
                    last_y as int,
                    color_index as int,
                    last_start as int,
                ));
                assert(mutations@ + tess_muts(
                    polys@,
                    self.colors@,
                    self.use_descrete_colors,
                    image.size,
                    idx as int,
                    last_y as int,
                    color_index as int,
                    last_start as int,
                ) =~= pre_muts + tess_muts(
                    polys@,
                    self.colors@,
                    self.use_descrete_colors,
                    image.size,
                    idx - 1,
                    pre_ly,
                    pre_ci,
                    pre_ls,
                ));
            }
        }
        proof {
            assert(tess_muts(
                polys@,
                self.colors@,
                self.use_descrete_colors,
                image.size,
                polys@.len() as int,
                last_y as int,
                color_index as int,
                last_start as int,
            ) =~= Seq::<(Point, Pixel)>::empty());
            assert(mutations@ =~= old(mutations)@ + total);
        }
    }
}

/// The running blend of the image's pixels under the clipped points, each
/// taken at the shared alpha, folded left to right up to index `j`.
pub open spec fn blend_fold(img: Seq<Pixel>, w: int, pts: Seq<Point>, alpha: u8, j: int) -> Pixel
    decreases j,
{
    if j <= 0 {
        Pixel { a: alpha, ..img[lin_index(pts[0], w)] }
    } else {
        blend_spec(
            blend_fold(img, w, pts, alpha, j - 1),
            Pixel { a: alpha, ..img[lin_index(pts[j], w)] },
        )
    }
}

/// The alpha share each blended pixel gets: an even split of full
/// opacity, but at least one.
pub open spec fn blend_alpha(n: int) -> u8 {
    if 255int / n == 0 {
        1
    } else {
        (255int / n) as u8
    }
}

/// The mutations of [`BlendedTessellationTF`] from cell `i` on: each cell
/// repaints its in-image points with the blend of the pixels currently
/// under them.
pub open spec fn blended_muts_from(polys: Seq<Polygon>, img: Image, i: int) -> Seq<(Point, Pixel)>
    decreases polys.len() - i,
{
    if i < 0 || i >= polys.len() {
        Seq::empty()
    } else {
        let pts = clip(polys[i].spec_points(), img.size);
        let cur = if pts.len() == 0 {
            Seq::empty()
        } else {
            with_color(
                pts,
                blend_fold(
                    img.data@,
                    img.size.x as int,
                    pts,
                    blend_alpha(pts.len() as int),
                    pts.len() - 1,
                ),
            )
        };
        cur + blended_muts_from(polys, img, i + 1)
    }
}

/// A region that proposes an explicit, already-computed mutation list:
/// the bridge for callers whose colors come from outside the library's
/// integer arithmetic. The engine's bounds and collision policies still
/// apply to every entry.
pub struct MutationList {
    pub mutations: Vec<(Point, Pixel)>,
}

impl MutationList {
    pub fn new(mutations: Vec<(Point, Pixel)>) -> (r: MutationList)
        ensures
            r.mutations == mutations,
    {
        MutationList { mutations }
    }
}

impl Region for MutationList {
    open spec fn wf(&self) -> bool {
        true
    }

    open spec fn spec_mutations(&self, image: Image) -> Seq<(Point, Pixel)> {
        self.mutations@
    }

    fn get_mutations(&self, image: &Image, mutations: &mut Vec<(Point, Pixel)>) {
        let mut i: usize = 0;
        proof {
            assert(mutations@ =~= old(mutations)@ + self.mutations@.take(0));
        }
        while i < self.mutations.len()
            invariant
                i <= self.mutations@.len(),
                mutations@ == old(mutations)@ + self.mutations@.take(i as int),
            decreases self.mutations@.len() - i,
        {
            let m = self.mutations[i];
            mutations.push(m);
            proof {
                assert(mutations@ =~= old(mutations)@ + self.mutations@.take(i + 1));
            }
            i = i + 1;
        }
        proof {
            assert(self.mutations@.take(self.mutations@.len() as int) =~= self.mutations@);
        }
    }
}

/// A tessellation that repaints each cell with the blend of the pixels
/// currently under it.
pub struct BlendedTessellationTF {
    pub tessellation: PolygonTessellation,
}

impl BlendedTessellationTF {
    pub fn new(tessellation: PolygonTessellation) -> (r: BlendedTessellationTF)
        ensures
            r.tessellation == tessellation,
    {
        BlendedTessellationTF { tessellation }
    }
}

impl Region for BlendedTessellationTF {
    open spec fn wf(&self) -> bool {
        self.tessellation.wf()
    }

    open spec fn spec_mutations(&self, image: Image) -> Seq<(Point, Pixel)> {
        blended_muts_from(self.tessellation.polygons@, image, 0)
    }

    fn get_mutations(&self, image: &Image, mutations: &mut Vec<(Point, Pixel)>) {
        let polys = &self.tessellation.polygons;
        let ghost total = self.spec_mutations(*image);
        let mut idx: usize = 0;
        proof {
            assert(mutations@ + total =~= old(mutations)@ + total);
        }
        while idx < polys.len()
            invariant
                self.wf(),
                image.wf(),
                polys == &self.tessellation.polygons,
                idx <= polys@.len(),
                total == self.spec_mutations(*image),
                mutations@ + blended_muts_from(polys@, *image, idx as int) == old(mutations)@
                    + total,
            decreases polys@.len() - idx,
        {
            let ghost pre_muts = mutations@;
            let poly = &polys[idx];
            let pts_all = poly.iter_points();
            let pts = clip_points(&pts_all, image.size);
            proof {
                lemma_clip_in(pts_all@, image.size);
            }
            if pts.len() > 0 {
                let n = pts.len();
                let share: usize = 255 / n;
                let alpha: u8 = if share == 0 {
                    1
                } else {
                    share as u8
                };
                proof {
                    assert(alpha == blend_alpha(n as int));
                }
                let first = image.get_pixel(&pts[0]);
                let mut blended = (*first).set_alpha(alpha);
                let mut j: usize = 1;
                while j < n
                    invariant
                        image.wf(),
                        1 <= j <= n,
                        n == pts@.len(),
                        forall|k: int|
                            0 <= k < pts@.len() ==> in_buffer(
                                #[trigger] pts@[k],
                                image.size.x as int,
                                image.size.y as int,
                            ),
                        blended == blend_fold(
                            image.data@,
                            image.size.x as int,
                            pts@,
                            alpha,
                            j - 1,
                        ),
                    decreases n - j,
                {
                    let px = image.get_pixel(&pts[j]);
                    blended = blended.blend(&(*px).set_alpha(alpha));
                    j = j + 1;
                }
                push_with_color(mutations, &pts, blended);
            }
            idx = idx + 1;
            proof {
                assert(mutations@ + blended_muts_from(polys@, *image, idx as int) =~= pre_muts
                    + blended_muts_from(polys@, *image, idx - 1));
            }
        }
        proof {
            assert(blended_muts_from(polys@, *image, polys@.len() as int) =~= Seq::<
                (Point, Pixel),
            >::empty());
            assert(mutations@ =~= old(mutations)@ + total);
        }
    }
}

} // verus!
