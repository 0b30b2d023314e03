use vstd::prelude::*;

use crate::decimal::{decimal, decimal_text};

verus! {

/// A rectangle of pixels: origin `(x, y)`, width `w` and height `h`.
#[derive(Debug, Clone, Copy, PartialEq, Eq, Structural)]
pub struct Rect {
    pub x: usize,
    pub y: usize,
    pub w: usize,
    pub h: usize,
}

pub open spec fn min_int(a: int, b: int) -> int {
    if a <= b { a } else { b }
}

/// The width that remains of a rectangle clipped to `bound` columns.
pub open spec fn clipped_len(origin: int, len: int, other_origin: int, other_bound: int, bound: int) -> int {
    if origin >= bound || other_origin >= other_bound {
        0
    } else {
        min_int(len, bound - origin)
    }
}

impl Rect {
    pub fn new(x: usize, y: usize, w: usize, h: usize) -> (r: Rect)
        ensures
            r == (Rect { x, y, w, h }),
    {
        Rect { x, y, w, h }
    }

    /// The rectangle clipped to the area `[0, width) x [0, height)`.
    ///
    /// The origin is kept. A rectangle whose origin lies outside the area
    /// becomes empty (zero width and height).
    pub fn clip(&self, width: usize, height: usize) -> (r: Rect)
        ensures
            r.x == self.x,
            r.y == self.y,
            r.w == clipped_len(self.x as int, self.w as int, self.y as int, height as int, width as int),
            r.h == clipped_len(self.y as int, self.h as int, self.x as int, width as int, height as int),
            r.w <= self.w,
            r.h <= self.h,
            self.x >= width || self.y >= height ==> r.w == 0 && r.h == 0,
            self.x < width && self.y < height ==> r.x + r.w <= width && r.y + r.h <= height,
    {
        if self.x >= width || self.y >= height {
            Rect::new(self.x, self.y, 0, 0)
        } else {
            let w = if self.w <= width - self.x { self.w } else { width - self.x };
            let h = if self.h <= height - self.y { self.h } else { height - self.y };
            Rect::new(self.x, self.y, w, h)
        }
    }

    /// The text form `@x,y+wxh`.
    pub open spec fn text(&self) -> Seq<char> {
        seq!['@'] + decimal(self.x as nat) + seq![','] + decimal(self.y as nat) + seq!['+']
            + decimal(self.w as nat) + seq!['x'] + decimal(self.h as nat)
    }

    /// The rectangle as text, `@x,y+wxh`.
    pub fn to_string(&self) -> (s: String)
        ensures
            s@ == self.text(),
    {
        let mut s = String::from_str("@");
        s.append(decimal_text(self.x).as_str());
        s.append(",");
        s.append(decimal_text(self.y).as_str());
        s.append("+");
        s.append(decimal_text(self.w).as_str());
        s.append("x");
        s.append(decimal_text(self.h).as_str());
        proof {
            reveal_strlit("@");
            reveal_strlit(",");
            reveal_strlit("+");
            reveal_strlit("x");
            assert(s@ =~= self.text());
        }
        s
    }
}

/// A position on an image or on the screen.
#[derive(Debug, Clone, Copy, PartialEq, Eq, Structural)]
pub struct Coord {
    pub x: usize,
    pub y: usize,
}

impl Coord {
    pub fn new(x: usize, y: usize) -> (r: Coord)
        ensures
            r == (Coord { x, y }),
    {
        Coord { x, y }
    }

    /// The text form `@x,y`.
    pub open spec fn text(&self) -> Seq<char> {
        seq!['@'] + decimal(self.x as nat) + seq![','] + decimal(self.y as nat)
    }

    /// The position as text, `@x,y`.
    pub fn to_string(&self) -> (s: String)
        ensures
            s@ == self.text(),
    {
        let mut s = String::from_str("@");
        s.append(decimal_text(self.x).as_str());
        s.append(",");
        s.append(decimal_text(self.y).as_str());
        proof {
            reveal_strlit("@");
            reveal_strlit(",");
            assert(s@ =~= self.text());
        }
        s
    }
}

} // verus!
