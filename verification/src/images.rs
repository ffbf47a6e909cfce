//! Pixels, color packing, and the image buffer with its region-painting
//! engine.

use vstd::prelude::*;

use crate::point::Point;
use crate::rectangle::Rectangle;
use crate::region::Region;

verus! {

/// A color: four 8-bit channels.
#[derive(Debug, Clone, Copy, PartialEq, Eq, Structural, Hash)]
pub struct Pixel {
    pub r: u8,
    pub g: u8,
    pub b: u8,
    pub a: u8,
}

/// The channels packed into one 32-bit value: red in the lowest byte,
/// then green, blue, and alpha in the highest. This layout is the
/// encoder's contract and must not change.
pub open spec fn combined_of(p: Pixel) -> int {
    p.r + p.g * 0x100 + p.b * 0x1_0000 + p.a * 0x100_0000
}

/// The channels unpacked from one 32-bit value.
pub open spec fn pixel_of(val: u32) -> Pixel {
    Pixel {
        r: (val as int % 0x100) as u8,
        g: (val as int / 0x100 % 0x100) as u8,
        b: (val as int / 0x1_0000 % 0x100) as u8,
        a: (val as int / 0x100_0000 % 0x100) as u8,
    }
}

/// The pixel a fresh image buffer is filled with.
pub open spec fn default_pixel() -> Pixel {
    Pixel { r: 0xff, g: 0, b: 0, a: 0 }
}

/// The sentinel written wherever a mutation lands on a pixel that was
/// already painted earlier in the image's lifetime: opaque black, so that
/// double coverage is visibly flagged rather than silently blended.
pub open spec fn conflict_pixel() -> Pixel {
    Pixel { r: 0, g: 0, b: 0, a: 0xff }
}

/// The blend of `p` under `o`, weighted by `o`'s alpha, in integer
/// arithmetic truncated toward zero.
pub open spec fn blend_spec(p: Pixel, o: Pixel) -> Pixel {
    Pixel {
        r: ((p.r * (255 - o.a) + o.r * o.a) / 255) as u8,
        g: ((p.g * (255 - o.a) + o.g * o.a) / 255) as u8,
        b: ((p.b * (255 - o.a) + o.b * o.a) / 255) as u8,
        a: (255 - (255 - p.a) * (255 - o.a) / 255) as u8,
    }
}

impl Pixel {
    /// The fresh-buffer pixel.
    pub fn new() -> (r: Pixel)
        ensures
            r == default_pixel(),
    {
        let p = Self::from_combined(0x000000ff);
        proof {
            assert(0x000000ffu32 as int % 0x100 == 0xff);
        }
        p
    }

    pub fn rgba(r: u8, g: u8, b: u8, a: u8) -> (res: Pixel)
        ensures
            res == (Pixel { r, g, b, a }),
    {
        Pixel { r, g, b, a }
    }

    /// An opaque color.
    pub fn rgb(r: u8, g: u8, b: u8) -> (res: Pixel)
        ensures
            res == (Pixel { r, g, b, a: 0xff }),
    {
        Pixel { r, g, b, a: 0xff }
    }

    /// Unpack a 32-bit value into channels.
    pub fn from_combined(val: u32) -> (res: Pixel)
        ensures
            res == pixel_of(val),
    {
        proof {
            assert(val & 0xff == val % 0x100) by (bit_vector);
            assert((val & 0xff00) >> 8 == val / 0x100 % 0x100) by (bit_vector);
            assert((val & 0xff0000) >> 16 == val / 0x1_0000 % 0x100) by (bit_vector);
            assert((val & 0xff000000) >> 24 == val / 0x100_0000 % 0x100) by (bit_vector);
            assert(val & 0xff < 0x100) by (bit_vector);
            assert((val & 0xff00) >> 8 < 0x100) by (bit_vector);
            assert((val & 0xff0000) >> 16 < 0x100) by (bit_vector);
            assert((val & 0xff000000) >> 24 < 0x100) by (bit_vector);
        }
        Pixel {
            r: (val & 0xff) as u8,
            g: ((val & 0xff00) >> 8) as u8,
            b: ((val & 0xff0000) >> 16) as u8,
            a: ((val & 0xff000000) >> 24) as u8,
        }
    }

    /// Pack the channels into a 32-bit value.
    pub fn to_combined(&self) -> (res: u32)
        ensures
            res == combined_of(*self),
    {
        let rv = self.r as u32;
        let gv = self.g as u32;
        let bv = self.b as u32;
        let av = self.a as u32;
        proof {
            assert(rv | (gv << 8) | (bv << 16) | (av << 24) == rv + gv * 0x100 + bv * 0x1_0000
                + av * 0x100_0000) by (bit_vector)
                requires
                    rv < 0x100,
                    gv < 0x100,
                    bv < 0x100,
                    av < 0x100,
            ;
        }
        rv | (gv << 8) | (bv << 16) | (av << 24)
    }

    /// Overwrite every channel with `other`'s.
    pub fn copy_from(&mut self, other: &Pixel)
        ensures
            *final(self) == *other,
    {
        self.r = other.r;
        self.g = other.g;
        self.b = other.b;
        self.a = other.a;
    }

    /// The same color with the given alpha.
    pub fn set_alpha(self, value: u8) -> (res: Pixel)
        ensures
            res == (Pixel { a: value, ..self }),
    {
        Pixel { a: value, ..self }
    }

    /// Blend `other` over this color, weighting by `other`'s alpha.
    pub fn blend(self, other: &Pixel) -> (res: Pixel)
        ensures
            res == blend_spec(self, *other),
    {
        let oa = other.a as u32;
        proof {
            lemma_blend_channel_bounds(self.r as int, other.r as int, oa as int);
            lemma_blend_channel_bounds(self.g as int, other.g as int, oa as int);
            lemma_blend_channel_bounds(self.b as int, other.b as int, oa as int);
            lemma_blend_channel_bounds(0, 255 - self.a as int, 255 - oa as int);
            assert((255 - self.a as int) * (255 - oa as int) / 255 <= 255) by (nonlinear_arith)
                requires
                    0 <= self.a <= 255,
                    0 <= oa <= 255,
            ;
        }
        let a = 255 - ((255 - self.a as u32) * (255 - oa) / 255);
        let r = (self.r as u32 * (255 - oa) + other.r as u32 * oa) / 255;
        let g = (self.g as u32 * (255 - oa) + other.g as u32 * oa) / 255;
        let b = (self.b as u32 * (255 - oa) + other.b as u32 * oa) / 255;
        Pixel { r: r as u8, g: g as u8, b: b as u8, a: a as u8 }
    }

    /// Scale each channel of the last listed pixel by an even share of
    /// full opacity, and return it fully opaque. Earlier pixels only set
    /// the share's denominator; the final write wins, as the painting
    /// engine's collision diagnostics expect.
    pub fn blend_multiple_no_alpha(pixels: &[Pixel]) -> (res: Pixel)
        requires
            pixels@.len() >= 1,
            pixels@.len() <= u32::MAX,
        ensures
            res == blend_multi_spec(pixels@),
    {
        let a_per = 255 / (pixels.len() as u32);
        let mut result = Pixel::new();
        let mut i: usize = 0;
        while i < pixels.len()
            invariant
                pixels@.len() >= 1,
                pixels@.len() <= u32::MAX,
                a_per == 255 as int / pixels@.len() as int,
                i <= pixels@.len(),
                i >= 1 ==> result == scaled_pixel(pixels@[i - 1], a_per as int),
                i == 0 ==> result == default_pixel(),
            decreases pixels@.len() - i,
        {
            let p = pixels[i];
            proof {
                assert(p.r as int * a_per as int <= 255 * 255) by (nonlinear_arith)
                    requires
                        0 <= p.r <= 255,
                        0 <= a_per <= 255,
                ;
                assert(p.g as int * a_per as int <= 255 * 255) by (nonlinear_arith)
                    requires
                        0 <= p.g <= 255,
                        0 <= a_per <= 255,
                ;
                assert(p.b as int * a_per as int <= 255 * 255) by (nonlinear_arith)
                    requires
                        0 <= p.b <= 255,
                        0 <= a_per <= 255,
                ;
            }
            result.r = ((p.r as u32 * a_per) % 0x100) as u8;
            result.g = ((p.g as u32 * a_per) % 0x100) as u8;
            result.b = ((p.b as u32 * a_per) % 0x100) as u8;
            proof {
                assert(result == scaled_pixel(pixels@[i as int], a_per as int));
            }
            i = i + 1;
        }
        result.set_alpha(0xff)
    }
}

/// One channel's blend stays within a byte.
proof fn lemma_blend_channel_bounds(c: int, oc: int, oa: int)
    by (nonlinear_arith)
    requires
        0 <= c <= 255,
        0 <= oc <= 255,
        0 <= oa <= 255,
    ensures
        0 <= c * (255 - oa) + oc * oa <= 255 * 255,
        0 <= (c * (255 - oa) + oc * oa) / 255 <= 255,
{
}

/// A pixel's channels scaled by `a_per` and truncated to bytes, alpha
/// untouched from the fresh-buffer pixel.
pub open spec fn scaled_pixel(p: Pixel, a_per: int) -> Pixel {
    Pixel {
        r: ((p.r * a_per) % 0x100) as u8,
        g: ((p.g * a_per) % 0x100) as u8,
        b: ((p.b * a_per) % 0x100) as u8,
        a: default_pixel().a,
    }
}

/// What [`Pixel::blend_multiple_no_alpha`] returns: the last pixel scaled
/// by an even share of full opacity, fully opaque.
pub open spec fn blend_multi_spec(ps: Seq<Pixel>) -> Pixel {
    Pixel { a: 0xff, ..scaled_pixel(ps.last(), 255 as int / ps.len() as int) }
}

/// Round trip packing: unpacking a packed pixel restores every channel.
pub proof fn lemma_pack_round_trip(p: Pixel)
    ensures
        pixel_of((combined_of(p)) as u32) == p,
{
    let v = combined_of(p);
    let t1 = p.g + p.b * 0x100 + p.a * 0x1_0000;
    let t2 = p.b + p.a * 0x100;
    vstd::arithmetic::div_mod::lemma_fundamental_div_mod_converse(v, 0x100, t1, p.r as int);
    vstd::arithmetic::div_mod::lemma_fundamental_div_mod_converse(t1, 0x100, t2, p.g as int);
    vstd::arithmetic::div_mod::lemma_fundamental_div_mod_converse(
        t2,
        0x100,
        p.a as int,
        p.b as int,
    );
    assert(v as u32 as int == v);
    assert(v / 0x1_0000 == t2) by {
        vstd::arithmetic::div_mod::lemma_fundamental_div_mod_converse(v, 0x1_0000, t2, (p.r
            + p.g * 0x100) as int);
    }
    assert(v / 0x100_0000 == p.a as int) by {
        vstd::arithmetic::div_mod::lemma_fundamental_div_mod_converse(
            v,
            0x100_0000,
            p.a as int,
            (p.r + p.g * 0x100 + p.b * 0x1_0000) as int,
        );
    }
}

/// The linear buffer index of `p` in rows of width `w`.
pub open spec fn lin_index(p: Point, w: int) -> int {
    p.y * w + p.x
}

/// The point lies strictly inside a `w` by `h` buffer.
pub open spec fn in_buffer(p: Point, w: int, h: int) -> bool {
    0 <= p.x < w && 0 <= p.y < h
}

/// The painting engine's effect: walk the mutation list in order; points
/// outside the buffer are dropped; the first write to a point paints its
/// color, any later write to the same point paints the conflict sentinel
/// instead.
pub open spec fn paint(
    data: Seq<Pixel>,
    seen: Set<int>,
    w: int,
    h: int,
    muts: Seq<(Point, Pixel)>,
) -> Seq<Pixel>
    decreases muts.len(),
{
    if muts.len() == 0 {
        data
    } else {
        let (p, c) = muts[0];
        if in_buffer(p, w, h) {
            let idx = lin_index(p, w);
            if seen.contains(idx) {
                paint(data.update(idx, conflict_pixel()), seen, w, h, muts.drop_first())
            } else {
                paint(data.update(idx, c), seen.insert(idx), w, h, muts.drop_first())
            }
        } else {
            paint(data, seen, w, h, muts.drop_first())
        }
    }
}

/// An in-memory raster: a row-major pixel buffer with its size and
/// bounds, plus the record of which pixels have been painted over the
/// image's lifetime, which drives the collision diagnostics. Mutated only
/// through [`Image::apply_region`].
pub struct Image {
    pub bounds: Rectangle,
    pub size: Point,
    pub data: Vec<Pixel>,
    pub painted: Vec<bool>,
}

impl Image {
    /// The buffer matches the size, and the bounds are the size anchored
    /// at the origin.
    pub open spec fn wf(self) -> bool {
        &&& self.size.x >= 0
        &&& self.size.y >= 0
        &&& self.size.x * self.size.y == self.data@.len()
        &&& self.painted@.len() == self.data@.len()
        &&& self.size.x * self.size.y <= i32::MAX
        &&& self.bounds == (Rectangle { origin: Point { x: 0, y: 0 }, size: self.size })
    }

    /// A fresh image, every pixel the fresh-buffer color.
    pub fn new(width: i32, height: i32) -> (r: Image)
        requires
            width >= 0,
            height >= 0,
            width * height <= i32::MAX,
        ensures
            r.wf(),
            r.size == (Point { x: width, y: height }),
            r.data@.len() == width * height,
            forall|i: int| 0 <= i < r.data@.len() ==> r.data@[i] == default_pixel(),
            forall|i: int| 0 <= i < r.painted@.len() ==> !r.painted@[i],
    {
        let n = (width * height) as usize;
        let mut data: Vec<Pixel> = Vec::new();
        while data.len() < n
            invariant
                data@.len() <= n,
                forall|i: int| 0 <= i < data@.len() ==> data@[i] == default_pixel(),
            decreases n - data@.len(),
        {
            data.push(Pixel::new());
        }
        let mut painted: Vec<bool> = Vec::new();
        while painted.len() < n
            invariant
                painted@.len() <= n,
                forall|i: int| 0 <= i < painted@.len() ==> !painted@[i],
            decreases n - painted@.len(),
        {
            painted.push(false);
        }
        Image {
            bounds: Rectangle::normal(Point::new(width, height)),
            size: Point::new(width, height),
            data,
            painted,
        }
    }

    /// The pixel at `point`.
    pub fn get_pixel(&self, point: &Point) -> (r: &Pixel)
        requires
            self.wf(),
            in_buffer(*point, self.size.x as int, self.size.y as int),
        ensures
            *r == self.data@[lin_index(*point, self.size.x as int)],
    {
        proof {
            lemma_lin_index_in_range(*point, self.size.x as int, self.size.y as int);
        }
        let idx = (point.y * self.size.x + point.x) as usize;
        &self.data[idx]
    }

    /// The point lies inside the image bounds.
    pub fn contains(&self, point: &Point) -> (r: bool)
        requires
            self.wf(),
        ensures
            r == in_buffer(*point, self.size.x as int, self.size.y as int),
    {
        self.bounds.contains(point)
    }

    /// The whole buffer packed to 32-bit values, in buffer order.
    pub fn combined_data(&self) -> (r: Vec<u32>)
        ensures
            r@ == combined_seq(self.data@),
    {
        let mut out: Vec<u32> = Vec::new();
        let mut i: usize = 0;
        while i < self.data.len()
            invariant
                i <= self.data@.len(),
                out@.len() == i,
                forall|j: int| 0 <= j < i ==> out@[j] == combined_seq(self.data@)[j],
            decreases self.data@.len() - i,
        {
            out.push(self.data[i].to_combined());
            i = i + 1;
        }
        proof {
            assert(out@ =~= combined_seq(self.data@));
        }
        out
    }

    /// The image encoded as a PNG stream, ready to be stored.
    pub fn write(&self) -> (r: Vec<u8>)
        requires
            self.wf(),
            self.size.x >= 1,
            self.size.y >= 1,
            4 * self.size.x <= u32::MAX,
            (4 * self.size.x + 1) * self.size.y <= u32::MAX,
        ensures
            r@ == crate::encode::png_stream(
                combined_seq(self.data@),
                self.size.x as u32,
                self.size.y as u32,
            ),
    {
        let data = self.combined_data();
        crate::encode::encode_png(&data, self.size.x as u32, self.size.y as u32)
    }

    /// Collect a region's mutations against the current buffer, then
    /// paint them under the collision policy: out-of-bounds mutations are
    /// dropped, the first write ever to a pixel takes its color, and any
    /// repeated write — by this pass or any earlier one in the image's
    /// lifetime — marks the pixel with the conflict sentinel instead.
    pub fn apply_region<R: Region>(&mut self, region: &R)
        requires
            old(self).wf(),
            region.wf(),
        ensures
            final(self).wf(),
            final(self).size == old(self).size,
            final(self).bounds == old(self).bounds,
            final(self).data@ == paint(
                old(self).data@,
                seen_set(old(self).painted@),
                old(self).size.x as int,
                old(self).size.y as int,
                region.spec_mutations(*old(self)),
            ),
            seen_set(final(self).painted@) == paint_marks(
                seen_set(old(self).painted@),
                old(self).size.x as int,
                old(self).size.y as int,
                region.spec_mutations(*old(self)),
            ),
    {
        let dup_color = Pixel::rgba(0, 0, 0, 0xff);
        let mut mutations: Vec<(Point, Pixel)> = Vec::new();
        region.get_mutations(&*self, &mut mutations);
        let ghost data0 = self.data@;
        let ghost seen0 = seen_set(self.painted@);
        let ghost muts = mutations@;

        let w = self.size.x;
        let hgt = self.size.y;
        proof {
            assert(muts.skip(0) =~= muts);
        }

        let mut i: usize = 0;
        while i < mutations.len()
            invariant
                self.wf(),
                self.size.x == w,
                self.size.y == hgt,
                self.bounds == old(self).bounds,
                muts == mutations@,
                dup_color == conflict_pixel(),
                i <= muts.len(),
                paint(data0, seen0, w as int, hgt as int, muts) == paint(
                    self.data@,
                    seen_set(self.painted@),
                    w as int,
                    hgt as int,
                    muts.skip(i as int),
                ),
                paint_marks(seen0, w as int, hgt as int, muts) == paint_marks(
                    seen_set(self.painted@),
                    w as int,
                    hgt as int,
                    muts.skip(i as int),
                ),
            decreases muts.len() - i,
        {
            let (point, pixel) = mutations[i];
            let ghost pre_data = self.data@;
            let ghost pre_seen = seen_set(self.painted@);
            proof {
                assert(muts.skip(i as int)[0] == muts[i as int]);
                assert(muts.skip(i as int).drop_first() =~= muts.skip(i as int + 1));
            }
            if point.x >= 0 && point.x < w && point.y >= 0 && point.y < hgt {
                proof {
                    lemma_lin_index_in_range(point, w as int, hgt as int);
                }
                let idx = (point.y * w + point.x) as usize;
                if self.painted[idx] {
                    self.data.set(idx, dup_color);
                    proof {
                        assert(seen_set(self.painted@) =~= pre_seen);
                        assert(self.data@ =~= pre_data.update(
                            lin_index(point, w as int),
                            conflict_pixel(),
                        ));
                        assert(pre_seen.insert(idx as int) =~= pre_seen);
                        assert(paint(pre_data, pre_seen, w as int, hgt as int, muts.skip(i as int))
                            == paint(self.data@, seen_set(self.painted@), w as int, hgt as int,
                        muts.skip(i as int + 1)));
                    }
                } else {
                    self.painted.set(idx, true);
                    self.data.set(idx, pixel);
                    proof {
                        assert(seen_set(self.painted@) =~= pre_seen.insert(idx as int));
                        assert(self.data@ =~= pre_data.update(lin_index(point, w as int), pixel));
                        assert(paint(pre_data, pre_seen, w as int, hgt as int, muts.skip(i as int))
                            == paint(self.data@, seen_set(self.painted@), w as int, hgt as int,
                        muts.skip(i as int + 1)));
                    }
                }
            }
            i = i + 1;
        }
        proof {
            assert(muts.skip(muts.len() as int) =~= Seq::<(Point, Pixel)>::empty());
        }
    }
}

/// The pixels packed to 32-bit values, elementwise.
pub open spec fn combined_seq(ps: Seq<Pixel>) -> Seq<u32> {
    Seq::new(ps.len(), |i: int| (combined_of(ps[i])) as u32)
}

/// The pixels the painting pass has marked after walking the mutation
/// list: every in-buffer mutation marks its pixel.
pub open spec fn paint_marks(seen: Set<int>, w: int, h: int, muts: Seq<(Point, Pixel)>) -> Set<
    int,
>
    decreases muts.len(),
{
    if muts.len() == 0 {
        seen
    } else {
        let (p, c) = muts[0];
        if in_buffer(p, w, h) {
            paint_marks(seen.insert(lin_index(p, w)), w, h, muts.drop_first())
        } else {
            paint_marks(seen, w, h, muts.drop_first())
        }
    }
}

/// The set of indices marked in a seen-buffer.
pub open spec fn seen_set(s: Seq<bool>) -> Set<int> {
    Set::new(|i: int| 0 <= i < s.len() && s[i])
}

/// A point inside the buffer has its linear index inside the buffer's
/// length.
pub proof fn lemma_lin_index_in_range(p: Point, w: int, h: int)
    by (nonlinear_arith)
    requires
        in_buffer(p, w, h),
    ensures
        0 <= lin_index(p, w) < w * h,
        0 <= p.y * w <= lin_index(p, w),
{
}

} // verus!
