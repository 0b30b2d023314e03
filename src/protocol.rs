use vstd::prelude::*;

verus! {

/// Width of the display in portrait orientation, in pixels.
pub const PANEL_WIDTH: usize = 320;

/// Height of the display in portrait orientation, in pixels.
pub const PANEL_HEIGHT: usize = 480;

/// Opcodes of the display's six-byte command frames.
#[derive(Debug, Clone, Copy, PartialEq, Eq, Structural)]
pub enum Command {
    /// Asks the display for its model.
    Hello,
    /// Clears the display to white (only accepted in portrait orientation).
    Clear,
    ScreenOff,
    ScreenOn,
    SetBrightness,
    SetOrientation,
    /// Announces a block of RGB565 pixel data for a rectangle.
    DisplayBitmap,
}

pub open spec fn opcode_of(c: Command) -> u8 {
    match c {
        Command::Hello => 69,
        Command::Clear => 102,
        Command::ScreenOff => 108,
        Command::ScreenOn => 109,
        Command::SetBrightness => 110,
        Command::SetOrientation => 121,
        Command::DisplayBitmap => 197,
    }
}

pub fn opcode(c: Command) -> (op: u8)
    ensures
        op == opcode_of(c),
{
    match c {
        Command::Hello => 69,
        Command::Clear => 102,
        Command::ScreenOff => 108,
        Command::ScreenOn => 109,
        Command::SetBrightness => 110,
        Command::SetOrientation => 121,
        Command::DisplayBitmap => 197,
    }
}

/// How the picture is turned on the display.
#[derive(Debug, Clone, Copy, PartialEq, Eq, Structural)]
pub enum Orientation {
    Portrait,
    Landscape,
    ReversePortrait,
    ReverseLandscape,
}

pub open spec fn orientation_code(o: Orientation) -> u8 {
    match o {
        Orientation::Portrait => 0,
        Orientation::Landscape => 2,
        Orientation::ReversePortrait => 1,
        Orientation::ReverseLandscape => 3,
    }
}

/// The code by which the display protocol names an orientation.
pub fn orientation(o: Orientation) -> (code: u8)
    ensures
        code == orientation_code(o),
{
    match o {
        Orientation::Portrait => 0,
        Orientation::Landscape => 2,
        Orientation::ReversePortrait => 1,
        Orientation::ReverseLandscape => 3,
    }
}

/// Width and height of the display, in pixels, in an orientation.
pub open spec fn screen_dims(o: Orientation) -> (usize, usize) {
    match o {
        Orientation::Portrait | Orientation::ReversePortrait => (PANEL_WIDTH, PANEL_HEIGHT),
        Orientation::Landscape | Orientation::ReverseLandscape => (PANEL_HEIGHT, PANEL_WIDTH),
    }
}

pub fn screen_size_in(o: Orientation) -> (r: (usize, usize))
    ensures
        r == screen_dims(o),
{
    match o {
        Orientation::Portrait | Orientation::ReversePortrait => (PANEL_WIDTH, PANEL_HEIGHT),
        Orientation::Landscape | Orientation::ReverseLandscape => (PANEL_HEIGHT, PANEL_WIDTH),
    }
}

/// A frame that carries nothing but its opcode.
pub open spec fn plain_frame(c: Command) -> Seq<u8> {
    seq![0u8, 0u8, 0u8, 0u8, 0u8, opcode_of(c)]
}

/// A frame whose first byte is a parameter.
pub open spec fn param_frame(c: Command, p: u8) -> Seq<u8> {
    seq![p, 0u8, 0u8, 0u8, 0u8, opcode_of(c)]
}

/// The five bytes that carry four 10-bit coordinates `a`, `b`, `c`, `d`
/// (each taken modulo 1024), most significant bit first:
/// `[aaaaaaaa][aabbbbbb][bbbbcccc][ccccccdd][dddddddd]`.
pub open spec fn packed_coords(a: usize, b: usize, c: usize, d: usize) -> Seq<u8> {
    seq![
        ((a & 0x3ff) >> 2usize) as u8,
        (((a & 0x3) << 6usize) | ((b & 0x3ff) >> 4usize)) as u8,
        (((b & 0xf) << 4usize) | ((c & 0x3ff) >> 6usize)) as u8,
        (((c & 0x3f) << 2usize) | ((d & 0x3ff) >> 8usize)) as u8,
        (d & 0xff) as u8,
    ]
}

/// The frame that announces bitmap data for the rectangle with inclusive
/// corners `(x0, y0)` and `(x1, y1)`.
pub open spec fn bitmap_frame(x0: usize, y0: usize, x1: usize, y1: usize) -> Seq<u8> {
    packed_coords(x0, y0, x1, y1).push(opcode_of(Command::DisplayBitmap))
}

/// The sixteen-byte frame that sets the orientation and announces the
/// resulting width and height (big-endian, sixteen bits each).
pub open spec fn orientation_frame(o: Orientation, width: usize, height: usize) -> Seq<u8> {
    seq![
        0u8, 0u8, 0u8, 0u8, 0u8, opcode_of(Command::SetOrientation),
        (100 + orientation_code(o)) as u8,
        (width >> 8usize) as u8, (width & 0xff) as u8,
        (height >> 8usize) as u8, (height & 0xff) as u8,
        0u8, 0u8, 0u8, 0u8, 0u8,
    ]
}

/// The brightness parameter: the level's low byte, bitwise inverted.
pub open spec fn brightness_param(level: usize) -> u8 {
    (!level) as u8
}

pub fn encode_plain(c: Command) -> (f: Vec<u8>)
    ensures
        f@ == plain_frame(c),
{
    let f = vec![0u8, 0, 0, 0, 0, opcode(c)];
    assert(f@ =~= plain_frame(c));
    f
}

pub fn encode_param(c: Command, p: u8) -> (f: Vec<u8>)
    ensures
        f@ == param_frame(c, p),
{
    let f = vec![p, 0, 0, 0, 0, opcode(c)];
    assert(f@ =~= param_frame(c, p));
    f
}

/// The display-bitmap frame for inclusive corners `(x0, y0)`, `(x1, y1)`.
pub fn encode_bitmap(x0: usize, y0: usize, x1: usize, y1: usize) -> (f: Vec<u8>)
    ensures
        f@ == bitmap_frame(x0, y0, x1, y1),
{
    let f = vec![
        ((x0 & 0x3ff) >> 2usize) as u8,
        (((x0 & 0x3) << 6usize) | ((y0 & 0x3ff) >> 4usize)) as u8,
        (((y0 & 0xf) << 4usize) | ((x1 & 0x3ff) >> 6usize)) as u8,
        (((x1 & 0x3f) << 2usize) | ((y1 & 0x3ff) >> 8usize)) as u8,
        (y1 & 0xff) as u8,
        opcode(Command::DisplayBitmap),
    ];
    assert(f@ =~= bitmap_frame(x0, y0, x1, y1));
    f
}

pub fn encode_orientation(o: Orientation, width: usize, height: usize) -> (f: Vec<u8>)
    ensures
        f@ == orientation_frame(o, width, height),
{
    let f = vec![
        0u8, 0, 0, 0, 0, opcode(Command::SetOrientation),
        100u8 + orientation(o),
        (width >> 8usize) as u8, (width & 0xff) as u8,
        (height >> 8usize) as u8, (height & 0xff) as u8,
        0, 0, 0, 0, 0,
    ];
    assert(f@ =~= orientation_frame(o, width, height));
    f
}

/// The brightness frame for `level` (see `brightness_param`).
pub fn encode_brightness(level: usize) -> (f: Vec<u8>)
    ensures
        f@ == param_frame(Command::SetBrightness, brightness_param(level)),
{
    encode_param(Command::SetBrightness, (!level) as u8)
}

} // verus!
