use vstd::prelude::*;

use crate::colors::{blend, Rgba};
use crate::geometry::{Coord, Rect};
use crate::image::{blended, copied, Image};
use crate::screen::{shows_image, ScreenError, ScreenPort, ScreenRevA};

verus! {

/// The frame that is composed for the display and then exposed on it,
/// region by region.
#[derive(Debug, Clone)]
pub struct Framebuffer {
    image: Image,
}

impl Framebuffer {
    /// The frame as an image.
    pub closed spec fn frame(&self) -> Image {
        self.image
    }

    pub open spec fn wf(&self) -> bool {
        self.frame().wf()
    }

    /// A `width` x `height` frame, all opaque black.
    pub fn new(width: usize, height: usize) -> (fb: Framebuffer)
        requires
            width * height <= usize::MAX,
        ensures
            fb.wf(),
            fb.frame().width == width,
            fb.frame().height == height,
            forall|i: int| 0 <= i < fb.frame().buffer@.len() ==> fb.frame().buffer@[i] == Rgba::opaque_black(),
    {
        Framebuffer { image: Image::new(width, height) }
    }

    /// The frame's pixels, row by row.
    pub fn pixels(&self) -> (p: &Vec<Rgba>)
        ensures
            p@ == self.frame().buffer@,
    {
        &self.image.buffer
    }

    /// Copies the part of `crop` of `image` that fits to the frame at `dest`
    /// (see `Image::copy_image`).
    pub fn copy_image(&mut self, image: &Image, crop: &Rect, dest: &Coord)
        requires
            old(self).wf(),
            image.wf(),
        ensures
            copied(old(self).frame(), final(self).frame(), *image, *crop, *dest),
    {
        self.image.copy_image(image, crop, dest);
    }

    /// Blends the part of `crop` of `image` that fits over the frame at
    /// `dest` (see `Image::blend_image`).
    pub fn blend_image(&mut self, image: &Image, crop: &Rect, dest: &Coord)
        requires
            old(self).wf(),
            image.wf(),
        ensures
            blended(old(self).frame(), final(self).frame(), *image, *crop, *dest),
    {
        self.image.blend_image(image, crop, dest);
    }

    /// Exposes the `rect` area of the frame at the same place on `scr`.
    pub fn render_on<P: ScreenPort>(&self, scr: &mut ScreenRevA<P>, rect: &Rect) -> (r: Result<(), ScreenError>)
        requires
            self.wf(),
        ensures
            final(scr).current_orientation() == old(scr).current_orientation(),
            final(scr).received_log() == old(scr).received_log(),
            final(scr).fb().len() == old(scr).fb().len(),
            shows_image(*old(scr), *final(scr), self.frame(), *rect, Coord { x: rect.x, y: rect.y }, r),
    {
        self.image.render_on(scr, rect, &Coord::new(rect.x, rect.y))
    }

    /// Composites `fg` over `*bg` in place (see `blend`).
    pub fn blend_alpha(bg: &mut Rgba, fg: Rgba)
        ensures
            *final(bg) == blend(*old(bg), fg),
            fg.a == 0 ==> *final(bg) == *old(bg),
            fg.a == 255 ==> *final(bg) == fg,
    {
        crate::colors::blend_alpha(bg, fg);
    }
}

} // verus!
