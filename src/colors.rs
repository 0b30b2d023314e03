use vstd::prelude::*;

verus! {

/// A pixel: red, green, blue and alpha, eight bits each. Alpha 0 is fully
/// transparent, 255 fully opaque.
#[derive(Debug, Clone, Copy, PartialEq, Eq, Structural)]
pub struct Rgba {
    pub r: u8,
    pub g: u8,
    pub b: u8,
    pub a: u8,
}

impl Rgba {
    pub fn new(r: u8, g: u8, b: u8, a: u8) -> (p: Rgba)
        ensures
            p == (Rgba { r, g, b, a }),
    {
        Rgba { r, g, b, a }
    }

    pub open spec fn opaque_black() -> Rgba {
        Rgba { r: 0, g: 0, b: 0, a: 255 }
    }

    pub open spec fn clear() -> Rgba {
        Rgba { r: 0, g: 0, b: 0, a: 0 }
    }

    /// Opaque black.
    pub fn black() -> (p: Rgba)
        ensures
            p == Rgba::opaque_black(),
    {
        Rgba { r: 0, g: 0, b: 0, a: 255 }
    }

    /// Opaque white.
    pub fn white() -> (p: Rgba)
        ensures
            p == (Rgba { r: 255, g: 255, b: 255, a: 255 }),
    {
        Rgba { r: 255, g: 255, b: 255, a: 255 }
    }

    /// Fully transparent (all channels zero).
    pub fn transparent() -> (p: Rgba)
        ensures
            p == Rgba::clear(),
    {
        Rgba { r: 0, g: 0, b: 0, a: 0 }
    }
}

/// One channel of the fixed-point "over" operator: `(bg * (255 - a) + fg * a) / 256`.
pub open spec fn blend_channel(bg: u8, fg: u8, a: u8) -> u8 {
    ((bg as int * (255 - a as int) + fg as int * a as int) / 256) as u8
}

/// The foreground pixel `fg` composited over `bg`.
///
/// A transparent foreground leaves `bg` as it is; an opaque one replaces it
/// whole. Otherwise each colour channel follows `blend_channel` and the
/// background keeps its own alpha.
pub open spec fn blend(bg: Rgba, fg: Rgba) -> Rgba {
    if fg.a == 0 {
        bg
    } else if fg.a == 255 {
        fg
    } else {
        Rgba {
            r: blend_channel(bg.r, fg.r, fg.a),
            g: blend_channel(bg.g, fg.g, fg.a),
            b: blend_channel(bg.b, fg.b, fg.a),
            a: bg.a,
        }
    }
}

fn mix_channel(bg: u8, fg: u8, a: u8) -> (r: u8)
    ensures
        r == blend_channel(bg, fg, a),
{
    let ac: u16 = 255 - a as u16;
    proof {
        assert((bg as int) * (ac as int) <= 255 * (ac as int)) by (nonlinear_arith)
            requires
                bg <= 255,
                ac >= 0,
        ;
        assert((fg as int) * (a as int) <= 255 * (a as int)) by (nonlinear_arith)
            requires
                fg <= 255,
                a >= 0,
        ;
    }
    let sum: u16 = bg as u16 * ac + fg as u16 * a as u16;
    proof {
        assert(sum >> 8 == sum / 256) by (bit_vector);
    }
    (sum >> 8) as u8
}

/// Composites `fg` over `*bg` in place (see `blend`).
pub fn blend_alpha(bg: &mut Rgba, fg: Rgba)
    ensures
        *final(bg) == blend(*old(bg), fg),
        fg.a == 0 ==> *final(bg) == *old(bg),
        fg.a == 255 ==> *final(bg) == fg,
{
    if fg.a == 0 {
        return;
    }
    if fg.a == 255 {
        *bg = fg;
        return;
    }
    let r = mix_channel(bg.r, fg.r, fg.a);
    let g = mix_channel(bg.g, fg.g, fg.a);
    let b = mix_channel(bg.b, fg.b, fg.a);
    bg.r = r;
    bg.g = g;
    bg.b = b;
}

/// First byte of a pixel in the display's RGB565 format, `[gggbbbbb]`: the
/// low three of green's top six bits, then blue's top five.
pub open spec fn rgb565_lo(p: Rgba) -> u8 {
    (((p.g & 0x1c) as u8) << 3u8) | (p.b >> 3u8)
}

/// Second byte of a pixel in RGB565, `[rrrrrggg]`: red's top five bits, then
/// green's top three.
pub open spec fn rgb565_hi(p: Rgba) -> u8 {
    (p.r & 0xf8) | (p.g >> 5u8)
}

/// The red, green and blue channels that the two RGB565 bytes `lo`, `hi`
/// stand for, with the bits that the format drops set to zero.
pub open spec fn rgb565_channels(lo: u8, hi: u8) -> (u8, u8, u8) {
    (
        hi & 0xf8,
        ((((hi & 0x07) as u8) << 5u8) | (((lo >> 5u8) as u8) << 2u8)) as u8,
        ((lo & 0x1f) as u8) << 3u8,
    )
}

/// Packs a pixel into RGB565, little-endian: `[gggbbbbb][rrrrrggg]`.
/// Alpha is dropped.
pub fn pack_rgb565(p: Rgba) -> (r: (u8, u8))
    ensures
        r == (rgb565_lo(p), rgb565_hi(p)),
{
    let lo: u8 = ((p.g & 0x1c) << 3u8) | (p.b >> 3u8);
    let hi: u8 = (p.r & 0xf8) | (p.g >> 5u8);
    (lo, hi)
}

/// Unpacks two RGB565 bytes into red, green and blue (see `rgb565_channels`).
pub fn unpack_rgb565(lo: u8, hi: u8) -> (c: (u8, u8, u8))
    ensures
        c == rgb565_channels(lo, hi),
{
    let r: u8 = hi & 0xf8;
    let g: u8 = ((hi & 0x07) << 5u8) | ((lo >> 5u8) << 2u8);
    let b: u8 = (lo & 0x1f) << 3u8;
    (r, g, b)
}

/// Packing a pixel into RGB565 and unpacking it gives back its channels with
/// the low three bits of red and blue and the low two bits of green cleared,
/// and loses nothing else.
pub proof fn rgb565_round_trip(p: Rgba)
    ensures
        rgb565_channels(rgb565_lo(p), rgb565_hi(p)) == (p.r & 0xf8, p.g & 0xfc, p.b & 0xf8),
{
    let (r, g, b) = (p.r, p.g, p.b);
    let lo = rgb565_lo(p);
    let hi = rgb565_hi(p);
    assert(hi & 0xf8 == r & 0xf8) by (bit_vector)
        requires
            hi == (r & 0xf8) | (g >> 5u8),
    ;
    let top = ((hi & 0x07) as u8) << 5u8;
    let mid = ((lo >> 5u8) as u8) << 2u8;
    assert((top | mid) as u8 == g & 0xfc) by (bit_vector)
        requires
            hi == (r & 0xf8) | (g >> 5u8),
            lo == (((g & 0x1c) as u8) << 3u8) | (b >> 3u8),
            top == ((hi & 0x07) as u8) << 5u8,
            mid == ((lo >> 5u8) as u8) << 2u8,
    ;
    assert(((lo & 0x1f) as u8) << 3u8 == b & 0xf8) by (bit_vector)
        requires
            lo == (((g & 0x1c) as u8) << 3u8) | (b >> 3u8),
    ;
}

} // verus!
