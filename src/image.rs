use vstd::prelude::*;

use crate::colors::{self, blend, Rgba};
use crate::geometry::{min_int, Coord, Rect};

verus! {

/// The pixel at column `x`, row `y` of a row-major buffer `w` pixels wide.
pub open spec fn at(buf: Seq<Rgba>, w: int, x: int, y: int) -> Rgba {
    buf[y * w + x]
}

/// How much of a span survives: at most `len`, no further than the end of the
/// source (`src_len`, span starting at `start`) nor of the destination
/// (`dst_len`, span placed at `dest`).
pub open spec fn fit_extent(start: int, len: int, src_len: int, dest: int, dst_len: int) -> int {
    min_int(len, min_int(src_len - start, dst_len - dest))
}

/// The width and height of the part of `crop` (a rectangle of a source image
/// `sw` x `sh`) that lands inside a destination `dw` x `dh` when its origin
/// is placed at `dest`. Empty when either origin is out of bounds.
pub open spec fn visible(crop: Rect, sw: int, sh: int, dw: int, dh: int, dest: Coord) -> (int, int) {
    if crop.x >= sw || crop.y >= sh || dest.x >= dw || dest.y >= dh {
        (0, 0)
    } else {
        (
            fit_extent(crop.x as int, crop.w as int, sw, dest.x as int, dw),
            fit_extent(crop.y as int, crop.h as int, sh, dest.y as int, dh),
        )
    }
}

/// Whether `(x, y)` lies in the `w` x `h` rectangle at `(ox, oy)`.
pub open spec fn inside(x: int, y: int, ox: int, oy: int, w: int, h: int) -> bool {
    ox <= x < ox + w && oy <= y < oy + h
}

/// How a source pixel is put on a destination pixel.
pub enum Paint {
    /// The source pixel replaces the destination pixel.
    Copy,
    /// The source pixel is blended over the destination pixel.
    Over,
    /// The destination pixel is blended over the source pixel.
    Under,
}

/// What a destination pixel `d` becomes when the source pixel `s` is put on
/// it in the given way.
pub open spec fn paint(d: Rgba, s: Rgba, mode: Paint) -> Rgba {
    match mode {
        Paint::Copy => s,
        Paint::Over => blend(d, s),
        Paint::Under => blend(s, d),
    }
}

pub(crate) proof fn lemma_index_bound(w: int, h: int, x: int, y: int)
    requires
        0 <= x < w,
        0 <= y < h,
    ensures
        0 <= y * w + x < w * h,
{
    assert(y * w + x < w * h) by (nonlinear_arith)
        requires
            0 <= x < w,
            0 <= y < h,
    ;
    assert(0 <= y * w) by (nonlinear_arith)
        requires
            0 <= y,
            0 <= w,
    ;
}

pub(crate) proof fn lemma_index_unique(w: int, x1: int, y1: int, x2: int, y2: int)
    requires
        0 <= x1 < w,
        0 <= x2 < w,
        0 <= y1,
        0 <= y2,
        y1 * w + x1 == y2 * w + x2,
    ensures
        x1 == x2,
        y1 == y2,
{
    assert(y1 == y2) by (nonlinear_arith)
        requires
            0 <= x1 < w,
            0 <= x2 < w,
            0 <= y1,
            0 <= y2,
            y1 * w + x1 == y2 * w + x2,
    ;
}

/// The part of `crop` that can be taken from a `sw` x `sh` source and put at
/// `dest` in a `dw` x `dh` destination (see `visible`).
pub fn fit_crop(crop: &Rect, sw: usize, sh: usize, dw: usize, dh: usize, dest: &Coord) -> (r: Rect)
    ensures
        r.x == crop.x,
        r.y == crop.y,
        (r.w as int, r.h as int) == visible(*crop, sw as int, sh as int, dw as int, dh as int, *dest),
        r.w == 0 || (r.x + r.w <= sw && dest.x + r.w <= dw),
        r.h == 0 || (r.y + r.h <= sh && dest.y + r.h <= dh),
{
    if crop.x >= sw || crop.y >= sh || dest.x >= dw || dest.y >= dh {
        Rect::new(crop.x, crop.y, 0, 0)
    } else {
        let room_w = if sw - crop.x <= dw - dest.x { sw - crop.x } else { dw - dest.x };
        let room_h = if sh - crop.y <= dh - dest.y { sh - crop.y } else { dh - dest.y };
        let w = if crop.w <= room_w { crop.w } else { room_w };
        let h = if crop.h <= room_h { crop.h } else { room_h };
        Rect::new(crop.x, crop.y, w, h)
    }
}

/// Puts the `w` x `h` block of `src` at `(sx, sy)` onto `dst` at `(dx, dy)`,
/// copying or blending each pixel (see `paint`).
fn compose(
    dst: &mut Vec<Rgba>,
    dw: usize,
    dh: usize,
    src: &Vec<Rgba>,
    sw: usize,
    sh: usize,
    sx: usize,
    sy: usize,
    dx: usize,
    dy: usize,
    w: usize,
    h: usize,
    mode: Paint,
)
    requires
        old(dst)@.len() == dw * dh,
        src@.len() == sw * sh,
        dw * dh <= usize::MAX,
        sw * sh <= usize::MAX,
        w == 0 || h == 0 || (sx + w <= sw && sy + h <= sh && dx + w <= dw && dy + h <= dh),
    ensures
        final(dst)@.len() == dw * dh,
        forall|x: int, y: int|
            0 <= x < dw && 0 <= y < dh ==> #[trigger] at(final(dst)@, dw as int, x, y) == if inside(
                x,
                y,
                dx as int,
                dy as int,
                w as int,
                h as int,
            ) {
                paint(at(old(dst)@, dw as int, x, y), at(src@, sw as int, sx + x - dx, sy + y - dy), mode)
            } else {
                at(old(dst)@, dw as int, x, y)
            },
{
    if w == 0 || h == 0 {
        return;
    }
    let ghost orig = dst@;
    let mut j: usize = 0;
    while j < h
        invariant
            dst@.len() == dw * dh,
            src@.len() == sw * sh,
            dw * dh <= usize::MAX,
            sw * sh <= usize::MAX,
            sx + w <= sw,
            sy + h <= sh,
            dx + w <= dw,
            dy + h <= dh,
            j <= h,
            orig == old(dst)@,
            forall|x: int, y: int|
                0 <= x < dw && 0 <= y < dh ==> #[trigger] at(dst@, dw as int, x, y) == if inside(
                    x,
                    y,
                    dx as int,
                    dy as int,
                    w as int,
                    j as int,
                ) {
                    paint(at(orig, dw as int, x, y), at(src@, sw as int, sx + x - dx, sy + y - dy), mode)
                } else {
                    at(orig, dw as int, x, y)
                },
        decreases h - j,
    {
        let mut i: usize = 0;
        while i < w
            invariant
                dst@.len() == dw * dh,
                src@.len() == sw * sh,
                dw * dh <= usize::MAX,
                sw * sh <= usize::MAX,
                sx + w <= sw,
                sy + h <= sh,
                dx + w <= dw,
                dy + h <= dh,
                j < h,
                i <= w,
                orig == old(dst)@,
                forall|x: int, y: int|
                    0 <= x < dw && 0 <= y < dh ==> #[trigger] at(dst@, dw as int, x, y) == if inside(
                        x,
                        y,
                        dx as int,
                        dy as int,
                        w as int,
                        j as int,
                    ) || (y == dy + j && dx <= x < dx + i) {
                        paint(
                            at(orig, dw as int, x, y),
                            at(src@, sw as int, sx + x - dx, sy + y - dy),
                            mode,
                        )
                    } else {
                        at(orig, dw as int, x, y)
                    },
            decreases w - i,
        {
            proof {
                lemma_index_bound(dw as int, dh as int, (dx + i) as int, (dy + j) as int);
                lemma_index_bound(sw as int, sh as int, (sx + i) as int, (sy + j) as int);
            }
            let di = (dy + j) * dw + dx + i;
            let si = (sy + j) * sw + sx + i;
            let s = src[si];
            let v = match mode {
                Paint::Copy => s,
                Paint::Over => {
                    let mut d = dst[di];
                    colors::blend_alpha(&mut d, s);
                    d
                },
                Paint::Under => {
                    let mut d = s;
                    colors::blend_alpha(&mut d, dst[di]);
                    d
                },
            };
            let ghost prev = dst@;
            assert(at(prev, dw as int, (dx + i) as int, (dy + j) as int) == at(orig, dw as int, (dx + i) as int, (dy + j) as int));
            dst.set(di, v);
            proof {
                assert forall|x: int, y: int| 0 <= x < dw && 0 <= y < dh implies #[trigger] at(
                    dst@,
                    dw as int,
                    x,
                    y,
                ) == if inside(x, y, dx as int, dy as int, w as int, j as int) || (y == dy + j && dx
                    <= x < dx + i + 1) {
                    paint(at(orig, dw as int, x, y), at(src@, sw as int, sx + x - dx, sy + y - dy), mode)
                } else {
                    at(orig, dw as int, x, y)
                } by {
                    lemma_index_bound(dw as int, dh as int, x, y);
                    if y * dw + x == di {
                        lemma_index_unique(dw as int, x, y, (dx + i) as int, (dy + j) as int);
                    } else {
                        assert(at(prev, dw as int, x, y) == at(dst@, dw as int, x, y));
                    }
                }
            }
            i += 1;
        }
        j += 1;
    }
}

/// `after` is `before` with the part of `crop` of `src` that fits copied to
/// `dest` (see `visible`), and nothing else changed.
pub open spec fn copied(before: Image, after: Image, src: Image, crop: Rect, dest: Coord) -> bool {
    let (w, h) = visible(crop, src.width as int, src.height as int, before.width as int, before.height as int, dest);
    &&& after.wf()
    &&& after.width == before.width
    &&& after.height == before.height
    &&& forall|x: int, y: int|
        0 <= x < before.width && 0 <= y < before.height ==> #[trigger] after.pixel(x, y) == if inside(
            x,
            y,
            dest.x as int,
            dest.y as int,
            w,
            h,
        ) {
            src.pixel(crop.x + x - dest.x, crop.y + y - dest.y)
        } else {
            before.pixel(x, y)
        }
}

/// `after` is `before` with the part of `crop` of `src` that fits blended
/// over it at `dest` (see `blend`), and nothing else changed.
pub open spec fn blended(before: Image, after: Image, src: Image, crop: Rect, dest: Coord) -> bool {
    let (w, h) = visible(crop, src.width as int, src.height as int, before.width as int, before.height as int, dest);
    &&& after.wf()
    &&& after.width == before.width
    &&& after.height == before.height
    &&& forall|x: int, y: int|
        0 <= x < before.width && 0 <= y < before.height ==> #[trigger] after.pixel(x, y) == if inside(
            x,
            y,
            dest.x as int,
            dest.y as int,
            w,
            h,
        ) {
            blend(before.pixel(x, y), src.pixel(crop.x + x - dest.x, crop.y + y - dest.y))
        } else {
            before.pixel(x, y)
        }
}

/// `after` is `before` with its `crop` area (as far as it lies in `before`
/// and, placed at `pos`, in `background`) replaced by that area blended over
/// `background` at `pos`; nothing else changed.
pub open spec fn blended_under(before: Image, after: Image, crop: Rect, pos: Coord, background: Image) -> bool {
    let (w, h) = visible(crop, before.width as int, before.height as int, background.width as int, background.height as int, pos);
    &&& after.wf()
    &&& after.width == before.width
    &&& after.height == before.height
    &&& forall|x: int, y: int|
        0 <= x < before.width && 0 <= y < before.height ==> #[trigger] after.pixel(x, y) == if inside(
            x,
            y,
            crop.x as int,
            crop.y as int,
            w,
            h,
        ) {
            blend(background.pixel(pos.x + x - crop.x, pos.y + y - crop.y), before.pixel(x, y))
        } else {
            before.pixel(x, y)
        }
}

/// An RGBA image: `width` x `height` pixels stored row by row in `buffer`.
#[derive(Debug, Clone)]
pub struct Image {
    pub width: usize,
    pub height: usize,
    pub buffer: Vec<Rgba>,
}

impl Image {
    /// The buffer holds exactly one pixel per position.
    pub open spec fn wf(&self) -> bool {
        self.buffer@.len() == self.width * self.height
    }

    pub open spec fn pixel(&self, x: int, y: int) -> Rgba {
        at(self.buffer@, self.width as int, x, y)
    }

    /// A `width` x `height` image, all opaque black.
    pub fn new(width: usize, height: usize) -> (img: Image)
        requires
            width * height <= usize::MAX,
        ensures
            img.wf(),
            img.width == width,
            img.height == height,
            forall|i: int| 0 <= i < img.buffer@.len() ==> img.buffer@[i] == Rgba::opaque_black(),
    {
        let n: usize = width * height;
        Image { width, height, buffer: vec![Rgba::black(); n] }
    }

    /// The rectangle that covers the whole image.
    pub fn full(&self) -> (r: Rect)
        ensures
            r == (Rect { x: 0, y: 0, w: self.width, h: self.height }),
    {
        Rect::new(0, 0, self.width, self.height)
    }

    /// Copies the part of `crop` of `image` that fits to this image at `dest`,
    /// overwriting what was there. Nothing else changes.
    pub fn copy_image(&mut self, image: &Image, crop: &Rect, dest: &Coord)
        requires
            old(self).wf(),
            image.wf(),
        ensures
            copied(*old(self), *final(self), *image, *crop, *dest),
    {
        let r = fit_crop(crop, image.width, image.height, self.width, self.height, dest);
        let _ = (self.buffer.len(), image.buffer.len());
        compose(
            &mut self.buffer,
            self.width,
            self.height,
            &image.buffer,
            image.width,
            image.height,
            r.x,
            r.y,
            dest.x,
            dest.y,
            r.w,
            r.h,
            Paint::Copy,
        );
    }

    /// Blends the part of `crop` of `image` that fits over this image at
    /// `dest` (see `blend`). Nothing else changes.
    pub fn blend_image(&mut self, image: &Image, crop: &Rect, dest: &Coord)
        requires
            old(self).wf(),
            image.wf(),
        ensures
            blended(*old(self), *final(self), *image, *crop, *dest),
    {
        let r = fit_crop(crop, image.width, image.height, self.width, self.height, dest);
        let _ = (self.buffer.len(), image.buffer.len());
        compose(
            &mut self.buffer,
            self.width,
            self.height,
            &image.buffer,
            image.width,
            image.height,
            r.x,
            r.y,
            dest.x,
            dest.y,
            r.w,
            r.h,
            Paint::Over,
        );
    }

    /// Blends the `crop` area of this image over `background` seen at `pos`,
    /// and stores the result in that area of this image.
    ///
    /// Only the part of `crop` that lies inside this image and, placed at
    /// `pos`, inside `background` is touched; the rest of the image keeps
    /// its pixels.
    pub fn blend_to_background(&mut self, crop: &Rect, pos: &Coord, background: &Image)
        requires
            old(self).wf(),
            background.wf(),
        ensures
            blended_under(*old(self), *final(self), *crop, *pos, *background),
    {
        let r = fit_crop(crop, self.width, self.height, background.width, background.height, pos);
        let _ = (self.buffer.len(), background.buffer.len());
        compose(
            &mut self.buffer,
            self.width,
            self.height,
            &background.buffer,
            background.width,
            background.height,
            pos.x,
            pos.y,
            r.x,
            r.y,
            r.w,
            r.h,
            Paint::Under,
        );
    }

    /// Composites `fg` over `*bg` in place (see `blend`).
    pub fn blend_alpha(bg: &mut Rgba, fg: Rgba)
        ensures
            *final(bg) == blend(*old(bg), fg),
            fg.a == 0 ==> *final(bg) == *old(bg),
            fg.a == 255 ==> *final(bg) == fg,
    {
        colors::blend_alpha(bg, fg);
    }
}

} // verus!
