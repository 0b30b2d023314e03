use rusttype::Font as TrueTypeFont;
use vstd::prelude::*;

use crate::colors::{blend, Rgba};
use crate::geometry::{Coord, Rect};
use crate::image::{inside, lemma_index_bound, lemma_index_unique, visible, Image};

verus! {

#[verifier::external_type_specification]
#[verifier::external_body]
pub struct ExTrueTypeFont<'a>(TrueTypeFont<'a>);

/// Whether `data` is font data that rusttype can load.
pub uninterp spec fn font_loads(data: Seq<u8>) -> bool;

/// Relies on `rusttype::Font::try_from_vec`, which returns `None` exactly
/// when the bytes do not parse as a font (collection index 0); the outcome
/// depends on the bytes alone.
#[verifier::external_body]
fn load_font(data: Vec<u8>) -> (f: Option<TrueTypeFont<'static>>)
    ensures
        f is Some <==> font_loads(data@),
{
    TrueTypeFont::try_from_vec(data)
}

/// Why a font could not be made.
#[derive(Debug, Clone, Copy, PartialEq, Eq, Structural)]
pub enum FontLoadError {
    /// The bytes are not font data.
    Malformed,
}

/// A font for drawing text on images.
pub struct Font {
    pub font: TrueTypeFont<'static>,
}

impl Font {
    /// The font held in `data`; fails when the bytes are not font data.
    pub fn from_data(data: Vec<u8>) -> (r: Result<Font, FontLoadError>)
        ensures
            r is Ok <==> font_loads(data@),
            r is Err ==> r == Err::<Font, FontLoadError>(FontLoadError::Malformed),
    {
        match load_font(data) {
            Some(font) => Ok(Font { font }),
            None => Err(FontLoadError::Malformed),
        }
    }
}

/// The coverage of one rasterised glyph: a `width` x `height` grid of alpha
/// values, row by row, whose top-left cell lies at `(left, top)` in the text
/// image.
#[derive(Debug, Clone)]
pub struct GlyphMask {
    pub left: i32,
    pub top: i32,
    pub width: usize,
    pub height: usize,
    pub coverage: Vec<u8>,
}

impl GlyphMask {
    /// One coverage value per cell, and a size that pixel coordinates
    /// (`i32`) can span.
    pub open spec fn wf(&self) -> bool {
        &&& self.coverage@.len() == self.width * self.height
        &&& self.width <= i32::MAX
        &&& self.height <= i32::MAX
    }
}

/// The coverage that glyph `g` gives to pixel `(x, y)`; 0 outside the glyph.
pub open spec fn glyph_alpha(g: GlyphMask, x: int, y: int) -> u8 {
    let gx = x - g.left;
    let gy = y - g.top;
    if 0 <= gx < g.width && 0 <= gy < g.height {
        g.coverage@[gy * g.width + gx]
    } else {
        0
    }
}

/// The text colour with alpha `a`.
pub open spec fn tinted(color: Rgba, a: u8) -> Rgba {
    Rgba { r: color.r, g: color.g, b: color.b, a }
}

/// Pixel `(x, y)` of the text image of `glyphs`: the colour with the
/// coverage of the last glyph that covers it, or transparent.
pub open spec fn text_pixel(glyphs: Seq<GlyphMask>, color: Rgba, x: int, y: int) -> Rgba
    decreases glyphs.len(),
{
    if glyphs.len() == 0 {
        Rgba::clear()
    } else if glyph_alpha(glyphs.last(), x, y) > 0 {
        tinted(color, glyph_alpha(glyphs.last(), x, y))
    } else {
        text_pixel(glyphs.drop_last(), color, x, y)
    }
}

/// The topmost row that a glyph reaches, or `limit` when lower (or when
/// there is no glyph).
pub open spec fn glyphs_top(glyphs: Seq<GlyphMask>, limit: int) -> int
    decreases glyphs.len(),
{
    if glyphs.len() == 0 {
        limit
    } else {
        let t = glyphs_top(glyphs.drop_last(), limit);
        if glyphs.last().top < t { glyphs.last().top as int } else { t }
    }
}

/// The row just below the lowest glyph, or 0 when higher (or when there is
/// no glyph).
pub open spec fn glyphs_bottom(glyphs: Seq<GlyphMask>) -> int
    decreases glyphs.len(),
{
    if glyphs.len() == 0 {
        0
    } else {
        let b = glyphs_bottom(glyphs.drop_last());
        let g = glyphs.last().top + glyphs.last().height;
        if g > b { g } else { b }
    }
}

pub open spec fn clamp(v: int, hi: int) -> int {
    if v < 0 { 0 } else if v > hi { hi } else { v }
}

/// The rows of a `w` x `h` text image that the glyphs touch, as a rectangle
/// of full width.
pub open spec fn text_box(w: usize, h: usize, glyphs: Seq<GlyphMask>) -> (int, int, int, int) {
    let y0 = clamp(glyphs_top(glyphs, h as int), h as int);
    let y1 = clamp(glyphs_bottom(glyphs), h as int);
    (0, y0, w as int, if y1 > y0 { y1 - y0 } else { 0 })
}

/// Paints the cells of `g` with nonzero coverage onto `img` in `color`.
fn paint_glyph(img: &mut Image, g: &GlyphMask, color: Rgba)
    requires
        old(img).wf(),
        old(img).width <= i32::MAX,
        old(img).height <= i32::MAX,
        g.wf(),
    ensures
        final(img).wf(),
        final(img).width == old(img).width,
        final(img).height == old(img).height,
        forall|x: int, y: int|
            0 <= x < old(img).width && 0 <= y < old(img).height ==> #[trigger] final(img).pixel(x, y) == if glyph_alpha(
                *g,
                x,
                y,
            ) > 0 {
                tinted(color, glyph_alpha(*g, x, y))
            } else {
                old(img).pixel(x, y)
            },
{
    let ghost orig = *img;
    let w = img.width;
    let h = img.height;
    let _ = (img.buffer.len(), g.coverage.len());
    let mut gy: usize = 0;
    while gy < g.height
        invariant
            img.wf(),
            g.wf(),
            w <= i32::MAX,
            h <= i32::MAX,
            img.width == w,
            img.height == h,
            orig.width == w,
            orig.height == h,
            orig == *old(img),
            img.buffer@.len() <= usize::MAX,
            g.coverage@.len() <= usize::MAX,
            gy <= g.height,
            forall|x: int, y: int|
                0 <= x < w && 0 <= y < h ==> #[trigger] img.pixel(x, y) == if glyph_alpha(*g, x, y) > 0 && y
                    - g.top < gy {
                    tinted(color, glyph_alpha(*g, x, y))
                } else {
                    orig.pixel(x, y)
                },
        decreases g.height - gy,
    {
        let mut gx: usize = 0;
        while gx < g.width
            invariant
                img.wf(),
                g.wf(),
                w <= i32::MAX,
                h <= i32::MAX,
                img.width == w,
                img.height == h,
                orig.width == w,
                orig.height == h,
                orig == *old(img),
                img.buffer@.len() <= usize::MAX,
                g.coverage@.len() <= usize::MAX,
                gy < g.height,
                gx <= g.width,
                forall|x: int, y: int|
                    0 <= x < w && 0 <= y < h ==> #[trigger] img.pixel(x, y) == if glyph_alpha(*g, x, y) > 0 && (y
                        - g.top < gy || (y - g.top == gy && x - g.left < gx)) {
                        tinted(color, glyph_alpha(*g, x, y))
                    } else {
                        orig.pixel(x, y)
                    },
            decreases g.width - gx,
        {
            proof {
                lemma_index_bound(g.width as int, g.height as int, gx as int, gy as int);
            }
            let a = g.coverage[gy * g.width + gx];
            let x: i64 = g.left as i64 + gx as i64;
            let y: i64 = g.top as i64 + gy as i64;
            let ghost prev_img = *img;
            assert(glyph_alpha(*g, x as int, y as int) == a);
            if a > 0 && 0 <= x && x < w as i64 && 0 <= y && y < h as i64 {
                let xu = x as usize;
                let yu = y as usize;
                proof {
                    lemma_index_bound(w as int, h as int, xu as int, yu as int);
                }
                img.buffer.set(yu * w + xu, Rgba { r: color.r, g: color.g, b: color.b, a });
                proof {
                    assert forall|x2: int, y2: int| 0 <= x2 < w && 0 <= y2 < h implies #[trigger] img.pixel(x2, y2)
                        == if glyph_alpha(*g, x2, y2) > 0 && (y2 - g.top < gy || (y2 - g.top == gy && x2
                        - g.left < gx + 1)) {
                        tinted(color, glyph_alpha(*g, x2, y2))
                    } else {
                        orig.pixel(x2, y2)
                    } by {
                        lemma_index_bound(w as int, h as int, x2, y2);
                        if y2 * w + x2 == yu * w + xu {
                            lemma_index_unique(w as int, x2, y2, xu as int, yu as int);
                        } else {
                            assert(prev_img.pixel(x2, y2) == img.pixel(x2, y2));
                            if y2 - g.top == gy && x2 - g.left == gx {
                                assert(x2 == xu && y2 == yu);
                            }
                        }
                    }
                }
            } else {
                proof {
                    assert forall|x2: int, y2: int| 0 <= x2 < w && 0 <= y2 < h implies #[trigger] img.pixel(x2, y2)
                        == if glyph_alpha(*g, x2, y2) > 0 && (y2 - g.top < gy || (y2 - g.top == gy && x2
                        - g.left < gx + 1)) {
                        tinted(color, glyph_alpha(*g, x2, y2))
                    } else {
                        orig.pixel(x2, y2)
                    } by {
                        assert(prev_img.pixel(x2, y2) == img.pixel(x2, y2));
                        if y2 - g.top == gy && x2 - g.left == gx {
                            assert(x2 == x && y2 == y);
                        }
                    }
                }
            }
            gx += 1;
        }
        gy += 1;
    }
}

/// The `w` x `h` text image of `glyphs` in `color` (see `text_pixel`).
pub fn rasterize(w: usize, h: usize, color: Rgba, glyphs: &Vec<GlyphMask>) -> (img: Image)
    requires
        w <= i32::MAX,
        h <= i32::MAX,
        w * h <= usize::MAX,
        forall|k: int| 0 <= k < glyphs@.len() ==> #[trigger] glyphs@[k].wf(),
    ensures
        img.wf(),
        img.width == w,
        img.height == h,
        forall|x: int, y: int|
            0 <= x < w && 0 <= y < h ==> #[trigger] img.pixel(x, y) == text_pixel(glyphs@, color, x, y),
{
    let n: usize = w * h;
    let mut img = Image { width: w, height: h, buffer: vec![Rgba::transparent(); n] };
    proof {
        assert forall|x: int, y: int| 0 <= x < w && 0 <= y < h implies #[trigger] img.pixel(x, y) == text_pixel(
            glyphs@.take(0),
            color,
            x,
            y,
        ) by {
            lemma_index_bound(w as int, h as int, x, y);
            assert(glyphs@.take(0).len() == 0);
        }
    }
    let mut k: usize = 0;
    while k < glyphs.len()
        invariant
            img.wf(),
            img.width == w,
            img.height == h,
            w <= i32::MAX,
            h <= i32::MAX,
            k <= glyphs@.len(),
            forall|k2: int| 0 <= k2 < glyphs@.len() ==> #[trigger] glyphs@[k2].wf(),
            forall|x: int, y: int|
                0 <= x < w && 0 <= y < h ==> #[trigger] img.pixel(x, y) == text_pixel(
                    glyphs@.take(k as int),
                    color,
                    x,
                    y,
                ),
        decreases glyphs@.len() - k,
    {
        paint_glyph(&mut img, &glyphs[k], color);
        proof {
            assert(glyphs@.take(k + 1).drop_last() =~= glyphs@.take(k as int));
            assert(glyphs@.take(k + 1).last() == glyphs@[k as int]);
        }
        k += 1;
    }
    proof {
        assert(glyphs@.take(glyphs@.len() as int) =~= glyphs@);
    }
    img
}

/// The rows of a `w` x `h` text image that `glyphs` touch (see `text_box`).
pub fn glyph_rows(w: usize, h: usize, glyphs: &Vec<GlyphMask>) -> (r: Rect)
    requires
        h <= i32::MAX,
        forall|k: int| 0 <= k < glyphs@.len() ==> #[trigger] glyphs@[k].wf(),
    ensures
        (r.x as int, r.y as int, r.w as int, r.h as int) == text_box(w, h, glyphs@),
{
    let mut top: i64 = h as i64;
    let mut bottom: i64 = 0;
    let mut k: usize = 0;
    while k < glyphs.len()
        invariant
            h <= i32::MAX,
            forall|k2: int| 0 <= k2 < glyphs@.len() ==> #[trigger] glyphs@[k2].wf(),
            k <= glyphs@.len(),
            top == glyphs_top(glyphs@.take(k as int), h as int),
            bottom == glyphs_bottom(glyphs@.take(k as int)),
            i32::MIN <= top <= i32::MAX,
            0 <= bottom <= i32::MAX + i32::MAX,
        decreases glyphs@.len() - k,
    {
        let g = &glyphs[k];
        proof {
            assert(glyphs@[k as int].wf());
            assert(glyphs@.take(k + 1).drop_last() =~= glyphs@.take(k as int));
            assert(glyphs@.take(k + 1).last() == glyphs@[k as int]);
        }
        if (g.top as i64) < top {
            top = g.top as i64;
        }
        let end: i64 = g.top as i64 + g.height as i64;
        if end > bottom {
            bottom = end;
        }
        k += 1;
    }
    proof {
        assert(glyphs@.take(glyphs@.len() as int) =~= glyphs@);
    }
    let y0: usize = if top < 0 { 0 } else if top > h as i64 { h } else { top as usize };
    let y1: usize = if bottom > h as i64 { h } else { bottom as usize };
    Rect::new(0, y0, w, if y1 > y0 { y1 - y0 } else { 0 })
}

/// Draws laid-out text onto a copy of part of `background`.
///
/// The glyphs are rasterised into a fresh transparent `w` x `h` text image
/// in `color` (see `rasterize`). The rows that they touch (see `glyph_rows`)
/// are then blended over `background` seen at `pos`, in place in the text
/// image. Returns the text image and that rectangle of it, which is what a
/// caller shows at `pos`.
pub fn compose_text(
    background: &Image,
    color: Rgba,
    pos: &Coord,
    w: usize,
    h: usize,
    glyphs: &Vec<GlyphMask>,
) -> (r: (Image, Rect))
    requires
        background.wf(),
        w <= i32::MAX,
        h <= i32::MAX,
        w * h <= usize::MAX,
        forall|k: int| 0 <= k < glyphs@.len() ==> #[trigger] glyphs@[k].wf(),
    ensures
        (r.1.x as int, r.1.y as int, r.1.w as int, r.1.h as int) == text_box(w, h, glyphs@),
        r.0.wf(),
        r.0.width == w,
        r.0.height == h,
        forall|x: int, y: int|
            0 <= x < w && 0 <= y < h ==> #[trigger] r.0.pixel(x, y) == if inside(
                x,
                y,
                r.1.x as int,
                r.1.y as int,
                visible(r.1, w as int, h as int, background.width as int, background.height as int, *pos).0,
                visible(r.1, w as int, h as int, background.width as int, background.height as int, *pos).1,
            ) {
                blend(background.pixel(pos.x + x - r.1.x, pos.y + y - r.1.y), text_pixel(glyphs@, color, x, y))
            } else {
                text_pixel(glyphs@, color, x, y)
            },
{
    let mut img = rasterize(w, h, color, glyphs);
    let rows = glyph_rows(w, h, glyphs);
    let ghost raster = img;
    img.blend_to_background(&rows, pos, background);
    proof {
        assert forall|x: int, y: int| 0 <= x < w && 0 <= y < h implies raster.pixel(x, y) == text_pixel(
            glyphs@,
            color,
            x,
            y,
        ) by {}
    }
    (img, rows)
}

} // verus!
