use vstd::prelude::*;

use crate::colors::{pack_rgb565, rgb565_channels, rgb565_hi, rgb565_lo, rgb565_round_trip};
use crate::geometry::{clipped_len, Coord, Rect};
use crate::image::{inside, lemma_index_bound, lemma_index_unique, Image};
use crate::protocol::{
    bitmap_frame, brightness_param, encode_bitmap, encode_brightness, encode_orientation,
    encode_plain, orientation_frame, plain_frame, screen_dims, screen_size_in, Command, Orientation,
    PANEL_HEIGHT, PANEL_WIDTH,
};

verus! {

/// Why an operation on the display failed.
#[derive(Debug, Clone, Copy, PartialEq, Eq, Structural)]
pub enum ScreenError {
    /// The transport failed, timed out, or returned fewer bytes than asked.
    Io,
    /// The display did not answer the hello command as the supported model does.
    IncompatibleDevice,
    /// A rectangle reaches past the pixel data it should be taken from.
    Geometry,
}

/// A byte transport to the display (a serial port in practice).
pub trait ScreenPort {
    /// Writes `data`, returning how many bytes were transmitted.
    fn write(&mut self, data: &[u8]) -> Result<usize, ScreenError>;

    /// Reads exactly `n` bytes, or fails.
    fn read(&mut self, n: usize) -> Result<Vec<u8>, ScreenError>;

    /// What the transport has buffered, for transports that keep it.
    fn get_buf(&self) -> Vec<u8>;
}

/// The reply of the supported hardware sub-revision to the hello command.
pub open spec fn hello_reply() -> Seq<u8> {
    seq![1u8, 1u8, 1u8, 1u8, 1u8, 1u8]
}

/// Judges the display's answer to the hello command.
pub fn check_hello_reply(reply: &[u8]) -> (r: Result<(), ScreenError>)
    ensures
        r is Ok <==> reply@ == hello_reply(),
        r is Err ==> r == Err::<(), ScreenError>(ScreenError::IncompatibleDevice),
{
    if reply.len() != 6 {
        return Err(ScreenError::IncompatibleDevice);
    }
    let mut i: usize = 0;
    while i < 6
        invariant
            reply@.len() == 6,
            i <= 6,
            forall|k: int| 0 <= k < i ==> reply@[k] == 1u8,
        decreases 6 - i,
    {
        if reply[i] != 1u8 {
            return Err(ScreenError::IncompatibleDevice);
        }
        i += 1;
    }
    assert(reply@ =~= hello_reply());
    Ok(())
}

/// What a read of `n` bytes gives when the port returned `reply` (`None`
/// when the port failed): the reply when it holds exactly `n` bytes, `Io`
/// otherwise.
pub open spec fn read_outcome(reply: Option<Seq<u8>>, n: usize, r: Result<Vec<u8>, ScreenError>) -> bool {
    match r {
        Ok(v) => reply == Some(v@) && v@.len() == n,
        Err(e) => e == ScreenError::Io && !(reply is Some && reply->Some_0.len() == n),
    }
}

/// The bytes of a port's reply, `None` when the port failed.
pub open spec fn port_reply(got: Result<Vec<u8>, ScreenError>) -> Option<Seq<u8>> {
    match got {
        Ok(v) => Some(v@),
        Err(_) => None,
    }
}

/// Judges what the port returned for a read of `n` bytes: a reply of
/// exactly `n` bytes is accepted, anything else is an `Io` error.
pub fn accept_read(got: Result<Vec<u8>, ScreenError>, n: usize) -> (r: Result<Vec<u8>, ScreenError>)
    ensures
        r == match got {
            Ok(v) => if v@.len() == n {
                Ok(v)
            } else {
                Err(ScreenError::Io)
            },
            Err(_) => Err(ScreenError::Io),
        },
{
    match got {
        Ok(v) => if v.len() == n {
            Ok(v)
        } else {
            Err(ScreenError::Io)
        },
        Err(_) => Err(ScreenError::Io),
    }
}

/// `a` is an initial part of `b`.
pub open spec fn is_prefix<T>(a: Seq<T>, b: Seq<T>) -> bool {
    a.len() <= b.len() && a == b.subrange(0, a.len() as int)
}

/// Every outcome in `s` is a success.
pub open spec fn all_ok(s: Seq<bool>) -> bool {
    forall|i: int| 0 <= i < s.len() ==> s[i]
}

/// `s` ends with a failure, and every outcome before it is a success.
pub open spec fn fails_at_end(s: Seq<bool>) -> bool {
    s.len() > 0 && !s.last() && all_ok(s.drop_last())
}

/// Byte `b` of row `y` of the `w` pixels of `image` from column `x0`, in RGB565.
pub open spec fn row_byte(image: Image, x0: int, y: int, b: int) -> u8 {
    if b % 2 == 0 {
        rgb565_lo(image.pixel(x0 + b / 2, y))
    } else {
        rgb565_hi(image.pixel(x0 + b / 2, y))
    }
}

/// The RGB565 bytes of `w` pixels of `image` from `(x0, y)`.
pub open spec fn row_bytes(image: Image, x0: int, y: int, w: int) -> Seq<u8> {
    Seq::new((2 * w) as nat, |b: int| row_byte(image, x0, y, b))
}

/// The frames that show the `w` x `h` block of `image` at `src` on the
/// display at `pos`: the bitmap command, then one frame per row.
pub open spec fn bitmap_frames(image: Image, src: (int, int), pos: Coord, w: int, h: int) -> Seq<Seq<u8>> {
    seq![bitmap_frame(pos.x, pos.y, (pos.x + w - 1) as usize, (pos.y + h - 1) as usize)]
        + Seq::new(h as nat, |k: int| row_bytes(image, src.0, src.1 + k, w))
}

/// Index of byte `b` of the pixel at `(x, y)` in an RGB565 buffer `w` pixels wide.
pub open spec fn byte_index(w: int, x: int, y: int, b: int) -> int {
    2 * (y * w + x) + b
}

/// Byte `b` of the pixel at `(x, y)` of an RGB565 buffer `w` pixels wide.
pub open spec fn fb_byte(fb: Seq<u8>, w: int, x: int, y: int, b: int) -> u8 {
    fb[byte_index(w, x, y, b)]
}

proof fn lemma_prefix_take<T>(a: Seq<T>, f: Seq<T>, j: int)
    requires
        0 <= j <= f.len(),
    ensures
        is_prefix(a, a + f.take(j)),
        is_prefix(a + f.take(j), a + f),
{
    assert(a =~= (a + f.take(j)).subrange(0, a.len() as int));
    assert(a + f.take(j) =~= (a + f).subrange(0, a.len() + j));
}

proof fn lemma_byte_in_rows(w: int, rows: int, x: int, y: int, b: int)
    requires
        0 <= x < w,
        0 <= y < rows,
        0 <= b < 2,
    ensures
        0 <= byte_index(w, x, y, b) < 2 * rows * w,
{
    lemma_index_bound(w, rows, x, y);
    assert(2 * rows * w == 2 * (w * rows)) by (nonlinear_arith);
}

proof fn lemma_byte_index_unique(w: int, x1: int, y1: int, b1: int, x2: int, y2: int, b2: int)
    requires
        0 <= x1 < w,
        0 <= x2 < w,
        0 <= y1,
        0 <= y2,
        0 <= b1 < 2,
        0 <= b2 < 2,
        byte_index(w, x1, y1, b1) == byte_index(w, x2, y2, b2),
    ensures
        x1 == x2 && y1 == y2 && b1 == b2,
{
    assert(b1 == b2);
    lemma_index_unique(w, x1, y1, x2, y2);
}

/// `after` is the display `before` once the `crop` area of `image` was
/// shown at `pos` with result `r` (see `ScreenRevA::display_image`).
pub open spec fn shows_image<P: ScreenPort>(
    before: ScreenRevA<P>,
    after: ScreenRevA<P>,
    image: Image,
    crop: Rect,
    pos: Coord,
    r: Result<(), ScreenError>,
) -> bool {
    let sw = screen_dims(before.current_orientation()).0 as int;
    let sh = screen_dims(before.current_orientation()).1 as int;
    let w = clipped_len(pos.x as int, crop.w as int, pos.y as int, sh, sw);
    let h = clipped_len(pos.y as int, crop.h as int, pos.x as int, sw, sh);
    let frames = bitmap_frames(image, (crop.x as int, crop.y as int), pos, w, h);
    let fits = crop.x + w <= image.width && crop.y + h <= image.height && 2 * (pos.y + h) * sw
        <= before.fb().len();
    &&& (w == 0 || h == 0) ==> r is Ok && after.sent_log() == before.sent_log()
    &&& (w > 0 && h > 0 && !fits) <==> r == Err::<(), ScreenError>(ScreenError::Geometry)
    &&& r == Err::<(), ScreenError>(ScreenError::Geometry) ==> after.sent_log() == before.sent_log()
    &&& (w > 0 && h > 0 && r is Ok) ==> after.sent_log() == before.sent_log() + frames
    &&& r is Err ==> is_prefix(before.sent_log(), after.sent_log()) && is_prefix(
        after.sent_log(),
        before.sent_log() + frames,
    )
    &&& is_prefix(before.write_oks(), after.write_oks())
    &&& after.write_oks().len() - before.write_oks().len() == after.sent_log().len() - before.sent_log().len()
    &&& r is Ok <==> (w == 0 || h == 0 || (fits && all_ok(
        after.write_oks().subrange(before.write_oks().len() as int, after.write_oks().len() as int),
    )))
    &&& r == Err::<(), ScreenError>(ScreenError::Io) ==> fails_at_end(
        after.write_oks().subrange(before.write_oks().len() as int, after.write_oks().len() as int),
    )
}

/// A display of the first hardware revision, reached through `port`.
pub struct ScreenRevA<P: ScreenPort> {
    pub port: P,
    orientation: Orientation,
    /// The display's picture in RGB565, two bytes per pixel, row by row at
    /// the current width.
    pub fb565_raw: Vec<u8>,
    sent: Ghost<Seq<Seq<u8>>>,
    oks: Ghost<Seq<bool>>,
    received: Ghost<Seq<(usize, Option<Seq<u8>>)>>,
}

impl<P: ScreenPort> ScreenRevA<P> {
    /// Every buffer handed to the port's `write`, oldest first.
    pub closed spec fn sent_log(&self) -> Seq<Seq<u8>> {
        self.sent@
    }

    /// The transport.
    pub closed spec fn port_state(&self) -> P {
        self.port
    }

    /// Whether each write of `sent_log` succeeded, in the same order.
    pub closed spec fn write_oks(&self) -> Seq<bool> {
        self.oks@
    }

    /// Every read asked of the port, oldest first: how many bytes were
    /// asked for, and what the port returned (`None` when it failed).
    pub closed spec fn received_log(&self) -> Seq<(usize, Option<Seq<u8>>)> {
        self.received@
    }

    /// How many bytes each read asked the port for, oldest first.
    pub open spec fn read_requests(&self) -> Seq<usize> {
        self.received_log().map_values(|e: (usize, Option<Seq<u8>>)| e.0)
    }

    pub closed spec fn current_orientation(&self) -> Orientation {
        self.orientation
    }

    /// The RGB565 picture buffer.
    pub closed spec fn fb(&self) -> Seq<u8> {
        self.fb565_raw@
    }

    /// A display in portrait orientation with a blank picture buffer.
    pub fn new(port: P) -> (s: Self)
        ensures
            s.sent_log() == Seq::<Seq<u8>>::empty(),
            s.write_oks() == Seq::<bool>::empty(),
            s.received_log() == Seq::<(usize, Option<Seq<u8>>)>::empty(),
            s.current_orientation() == Orientation::Portrait,
            s.fb().len() == 2 * PANEL_WIDTH * PANEL_HEIGHT,
            forall|i: int| 0 <= i < s.fb().len() ==> s.fb()[i] == 0u8,
    {
        ScreenRevA {
            port,
            orientation: Orientation::Portrait,
            fb565_raw: vec![0u8; 2 * PANEL_WIDTH * PANEL_HEIGHT],
            sent: Ghost(Seq::empty()),
            oks: Ghost(Seq::empty()),
            received: Ghost(Seq::empty()),
        }
    }

    /// Width and height of the display in its current orientation.
    pub fn screen_size(&self) -> (r: (usize, usize))
        ensures
            r == screen_dims(self.current_orientation()),
    {
        screen_size_in(self.orientation)
    }

    /// Hands `data` to the transport.
    pub fn write(&mut self, data: &[u8]) -> (r: Result<usize, ScreenError>)
        ensures
            final(self).sent_log() == old(self).sent_log().push(data@),
            final(self).write_oks() == old(self).write_oks().push(r is Ok),
            final(self).received_log() == old(self).received_log(),
            final(self).current_orientation() == old(self).current_orientation(),
            final(self).fb() == old(self).fb(),
            r is Err ==> r == Err::<usize, ScreenError>(ScreenError::Io),
    {
        let r = self.port.write(data);
        self.sent = Ghost(self.sent@.push(data@));
        self.oks = Ghost(self.oks@.push(r is Ok));
        match r {
            Ok(n) => Ok(n),
            Err(_) => Err(ScreenError::Io),
        }
    }

    /// Reads exactly `n` bytes from the transport: the port's reply when it
    /// holds `n` bytes, `Io` otherwise (see `accept_read`).
    pub fn read(&mut self, n: usize) -> (r: Result<Vec<u8>, ScreenError>)
        ensures
            final(self).sent_log() == old(self).sent_log(),
            final(self).write_oks() == old(self).write_oks(),
            final(self).current_orientation() == old(self).current_orientation(),
            final(self).fb() == old(self).fb(),
            final(self).received_log().len() == old(self).received_log().len() + 1,
            final(self).received_log().drop_last() == old(self).received_log(),
            final(self).received_log().last().0 == n,
            final(self).read_requests() == old(self).read_requests().push(n),
            read_outcome(final(self).received_log().last().1, n, r),
    {
        let got = self.port.read(n);
        let ghost reply = port_reply(got);
        self.received = Ghost(self.received@.push((n, reply)));
        proof {
            assert(self.received@.drop_last() =~= old(self).received@);
            assert(self.read_requests() =~= old(self).read_requests().push(n));
        }
        accept_read(got, n)
    }

    /// Sends the hello command, asks the display for its six-byte answer and
    /// checks that it is the one of the supported model.
    pub fn init(&mut self) -> (r: Result<(), ScreenError>)
        ensures
            final(self).sent_log() == old(self).sent_log().push(plain_frame(Command::Hello)),
            final(self).current_orientation() == old(self).current_orientation(),
            final(self).fb() == old(self).fb(),
            final(self).write_oks().len() == old(self).write_oks().len() + 1,
            final(self).write_oks().drop_last() == old(self).write_oks(),
            !final(self).write_oks().last() ==> r == Err::<(), ScreenError>(ScreenError::Io)
                && final(self).received_log() == old(self).received_log(),
            final(self).write_oks().last() ==> {
                let reply = final(self).received_log().last().1;
                &&& final(self).received_log().len() == old(self).received_log().len() + 1
                &&& final(self).received_log().drop_last() == old(self).received_log()
                &&& final(self).read_requests() == old(self).read_requests().push(6)
                &&& (r is Ok <==> reply == Some(hello_reply()))
                &&& (r == Err::<(), ScreenError>(ScreenError::Io) <==> !(reply is Some && reply->Some_0.len()
                    == 6))
            },
            r is Err ==> r == Err::<(), ScreenError>(ScreenError::Io) || r == Err::<(), ScreenError>(
                ScreenError::IncompatibleDevice,
            ),
    {
        let hello = encode_plain(Command::Hello);
        let w = self.write(hello.as_slice());
        proof {
            assert(self.write_oks().drop_last() =~= old(self).write_oks());
        }
        if w.is_err() {
            return Err(ScreenError::Io);
        }
        let reply = match self.read(6) {
            Ok(v) => v,
            Err(e) => {
                return Err(e);
            },
        };
        check_hello_reply(reply.as_slice())
    }

    /// Turns the display to `o` and announces its new size.
    pub fn set_orientation(&mut self, o: Orientation) -> (r: Result<(), ScreenError>)
        ensures
            final(self).current_orientation() == o,
            final(self).sent_log() == old(self).sent_log().push(
                orientation_frame(o, screen_dims(o).0, screen_dims(o).1),
            ),
            final(self).write_oks() == old(self).write_oks().push(r is Ok),
            r is Err ==> r == Err::<(), ScreenError>(ScreenError::Io),
            final(self).received_log() == old(self).received_log(),
            final(self).fb() == old(self).fb(),
    {
        self.orientation = o;
        let (width, height) = self.screen_size();
        let f = encode_orientation(o, width, height);
        match self.write(f.as_slice()) {
            Ok(_) => Ok(()),
            Err(e) => Err(e),
        }
    }

    /// Clears the display. The display only accepts this in portrait
    /// orientation, so the orientation is set to portrait first.
    pub fn clear(&mut self) -> (r: Result<(), ScreenError>)
        ensures
            final(self).current_orientation() == Orientation::Portrait,
            final(self).received_log() == old(self).received_log(),
            final(self).fb() == old(self).fb(),
            ({
                let o = old(self).sent_log().push(
                    orientation_frame(Orientation::Portrait, PANEL_WIDTH, PANEL_HEIGHT),
                );
                let w = old(self).write_oks();
                ||| (final(self).sent_log() == o && final(self).write_oks() == w.push(false) && r
                    == Err::<(), ScreenError>(ScreenError::Io))
                ||| (final(self).sent_log() == o.push(plain_frame(Command::Clear))
                    && final(self).write_oks() == w.push(true).push(r is Ok) && (r is Err ==> r
                    == Err::<(), ScreenError>(ScreenError::Io)))
            }),
    {
        self.set_orientation(Orientation::Portrait)?;
        let f = encode_plain(Command::Clear);
        match self.write(f.as_slice()) {
            Ok(_) => Ok(()),
            Err(e) => Err(e),
        }
    }

    fn send_plain(&mut self, c: Command) -> (r: Result<(), ScreenError>)
        ensures
            final(self).sent_log() == old(self).sent_log().push(plain_frame(c)),
            final(self).write_oks() == old(self).write_oks().push(r is Ok),
            r is Err ==> r == Err::<(), ScreenError>(ScreenError::Io),
            final(self).received_log() == old(self).received_log(),
            final(self).current_orientation() == old(self).current_orientation(),
            final(self).fb() == old(self).fb(),
    {
        let f = encode_plain(c);
        match self.write(f.as_slice()) {
            Ok(_) => Ok(()),
            Err(e) => Err(e),
        }
    }

    pub fn screen_on(&mut self) -> (r: Result<(), ScreenError>)
        ensures
            final(self).sent_log() == old(self).sent_log().push(plain_frame(Command::ScreenOn)),
            final(self).write_oks() == old(self).write_oks().push(r is Ok),
            r is Err ==> r == Err::<(), ScreenError>(ScreenError::Io),
            final(self).received_log() == old(self).received_log(),
            final(self).current_orientation() == old(self).current_orientation(),
            final(self).fb() == old(self).fb(),
    {
        self.send_plain(Command::ScreenOn)
    }

    pub fn screen_off(&mut self) -> (r: Result<(), ScreenError>)
        ensures
            final(self).sent_log() == old(self).sent_log().push(plain_frame(Command::ScreenOff)),
            final(self).write_oks() == old(self).write_oks().push(r is Ok),
            r is Err ==> r == Err::<(), ScreenError>(ScreenError::Io),
            final(self).received_log() == old(self).received_log(),
            final(self).current_orientation() == old(self).current_orientation(),
            final(self).fb() == old(self).fb(),
    {
        self.send_plain(Command::ScreenOff)
    }

    /// Sets the backlight level; the display takes it bitwise inverted.
    pub fn set_brightness(&mut self, level: usize) -> (r: Result<(), ScreenError>)
        ensures
            final(self).sent_log() == old(self).sent_log().push(
                crate::protocol::param_frame(Command::SetBrightness, brightness_param(level)),
            ),
            final(self).write_oks() == old(self).write_oks().push(r is Ok),
            r is Err ==> r == Err::<(), ScreenError>(ScreenError::Io),
            final(self).received_log() == old(self).received_log(),
            final(self).current_orientation() == old(self).current_orientation(),
            final(self).fb() == old(self).fb(),
    {
        let f = encode_brightness(level);
        match self.write(f.as_slice()) {
            Ok(_) => Ok(()),
            Err(e) => Err(e),
        }
    }

    /// Converts the `rect` area of `image` to RGB565 into the picture
    /// buffer, with its top-left corner at `pos` on the display.
    pub fn downmix(&mut self, image: &Image, rect: &Rect, pos: &Coord)
        requires
            image.wf(),
            rect.x + rect.w <= image.width,
            rect.y + rect.h <= image.height,
            pos.x + rect.w <= screen_dims(old(self).current_orientation()).0,
            2 * (pos.y + rect.h) * screen_dims(old(self).current_orientation()).0 <= old(self).fb().len(),
        ensures
            final(self).fb().len() == old(self).fb().len(),
            final(self).sent_log() == old(self).sent_log(),
            final(self).write_oks() == old(self).write_oks(),
            final(self).received_log() == old(self).received_log(),
            final(self).port_state() == old(self).port_state(),
            final(self).current_orientation() == old(self).current_orientation(),
            ({
                let sw = screen_dims(old(self).current_orientation()).0 as int;
                forall|x: int, y: int, b: int|
                    0 <= x < sw && 0 <= y && 0 <= b < 2 && byte_index(sw, x, y, b) < old(self).fb().len()
                        ==> #[trigger] fb_byte(final(self).fb(), sw, x, y, b) == if inside(
                        x,
                        y,
                        pos.x as int,
                        pos.y as int,
                        rect.w as int,
                        rect.h as int,
                    ) {
                        if b == 0 {
                            rgb565_lo(image.pixel(rect.x + x - pos.x, rect.y + y - pos.y))
                        } else {
                            rgb565_hi(image.pixel(rect.x + x - pos.x, rect.y + y - pos.y))
                        }
                    } else {
                        fb_byte(old(self).fb(), sw, x, y, b)
                    }
            }),
            forall|x: int, y: int|
                #![trigger fb_byte(final(self).fb(), screen_dims(old(self).current_orientation()).0 as int, x, y, 0)]
                inside(x, y, pos.x as int, pos.y as int, rect.w as int, rect.h as int) ==> {
                    let sw = screen_dims(old(self).current_orientation()).0 as int;
                    let p = image.pixel(rect.x + x - pos.x, rect.y + y - pos.y);
                    rgb565_channels(fb_byte(final(self).fb(), sw, x, y, 0), fb_byte(final(self).fb(), sw, x, y, 1))
                        == (p.r & 0xf8, p.g & 0xfc, p.b & 0xf8)
                },
    {
        let (sw, _) = self.screen_size();
        let ghost orig = self.fb565_raw@;
        let ghost len = orig.len();
        let _ = (image.buffer.len(), self.fb565_raw.len());
        let mut k: usize = 0;
        while k < rect.h
            invariant
                image.wf(),
                rect.x + rect.w <= image.width,
                rect.y + rect.h <= image.height,
                pos.x + rect.w <= sw,
                2 * (pos.y + rect.h) * sw <= len,
                len == orig.len(),
                len <= usize::MAX,
                image.buffer@.len() <= usize::MAX,
                self.fb565_raw@.len() == len,
                sw == screen_dims(self.orientation).0,
                self.orientation == old(self).orientation,
                self.sent == old(self).sent,
                self.oks == old(self).oks,
                self.port == old(self).port,
                self.received == old(self).received,
                orig == old(self).fb565_raw@,
                k <= rect.h,
                forall|x: int, y: int, b: int|
                    0 <= x < sw && 0 <= y && 0 <= b < 2 && byte_index(sw as int, x, y, b) < len
                        ==> #[trigger] fb_byte(self.fb565_raw@, sw as int, x, y, b) == if inside(
                        x,
                        y,
                        pos.x as int,
                        pos.y as int,
                        rect.w as int,
                        k as int,
                    ) {
                        if b == 0 {
                            rgb565_lo(image.pixel(rect.x + x - pos.x, rect.y + y - pos.y))
                        } else {
                            rgb565_hi(image.pixel(rect.x + x - pos.x, rect.y + y - pos.y))
                        }
                    } else {
                        fb_byte(orig, sw as int, x, y, b)
                    },
            decreases rect.h - k,
        {
            let mut c: usize = 0;
            while c < rect.w
                invariant
                    image.wf(),
                    rect.x + rect.w <= image.width,
                    rect.y + rect.h <= image.height,
                    pos.x + rect.w <= sw,
                    2 * (pos.y + rect.h) * sw <= len,
                    len == orig.len(),
                    len <= usize::MAX,
                    image.buffer@.len() <= usize::MAX,
                    self.fb565_raw@.len() == len,
                    sw == screen_dims(self.orientation).0,
                    self.orientation == old(self).orientation,
                    self.sent == old(self).sent,
                    self.oks == old(self).oks,
                    self.port == old(self).port,
                    self.received == old(self).received,
                    orig == old(self).fb565_raw@,
                    k < rect.h,
                    c <= rect.w,
                    forall|x: int, y: int, b: int|
                        0 <= x < sw && 0 <= y && 0 <= b < 2 && byte_index(sw as int, x, y, b) < len
                            ==> #[trigger] fb_byte(self.fb565_raw@, sw as int, x, y, b) == if inside(
                            x,
                            y,
                            pos.x as int,
                            pos.y as int,
                            rect.w as int,
                            k as int,
                        ) || (y == pos.y + k && pos.x <= x < pos.x + c) {
                            if b == 0 {
                                rgb565_lo(image.pixel(rect.x + x - pos.x, rect.y + y - pos.y))
                            } else {
                                rgb565_hi(image.pixel(rect.x + x - pos.x, rect.y + y - pos.y))
                            }
                        } else {
                            fb_byte(orig, sw as int, x, y, b)
                        },
                decreases rect.w - c,
            {
                proof {
                    lemma_index_bound(image.width as int, image.height as int, (rect.x + c) as int, (rect.y + k) as int);
                    lemma_index_bound(sw as int, (pos.y + rect.h) as int, (pos.x + c) as int, (pos.y + k) as int);
                }
                let p = image.buffer[(rect.y + k) * image.width + rect.x + c];
                let (lo, hi) = pack_rgb565(p);
                let d = 2 * ((pos.y + k) * sw + pos.x + c);
                let ghost prev = self.fb565_raw@;
                self.fb565_raw.set(d, lo);
                self.fb565_raw.set(d + 1, hi);
                proof {
                    assert forall|x: int, y: int, b: int|
                        0 <= x < sw && 0 <= y && 0 <= b < 2 && byte_index(sw as int, x, y, b) < len
                        implies #[trigger] fb_byte(self.fb565_raw@, sw as int, x, y, b) == if inside(
                            x,
                            y,
                            pos.x as int,
                            pos.y as int,
                            rect.w as int,
                            k as int,
                        ) || (y == pos.y + k && pos.x <= x < pos.x + c + 1) {
                            if b == 0 {
                                rgb565_lo(image.pixel(rect.x + x - pos.x, rect.y + y - pos.y))
                            } else {
                                rgb565_hi(image.pixel(rect.x + x - pos.x, rect.y + y - pos.y))
                            }
                        } else {
                            fb_byte(orig, sw as int, x, y, b)
                        } by {
                        let e = byte_index(sw as int, x, y, b);
                        if e == d {
                            lemma_byte_index_unique(sw as int, x, y, b, (pos.x + c) as int, (pos.y + k) as int, 0);
                        } else if e == d + 1 {
                            lemma_byte_index_unique(sw as int, x, y, b, (pos.x + c) as int, (pos.y + k) as int, 1);
                        } else {
                            assert(fb_byte(prev, sw as int, x, y, b) == fb_byte(self.fb565_raw@, sw as int, x, y, b));
                        }
                    }
                }
                c += 1;
            }
            k += 1;
        }
        proof {
            assert forall|x: int, y: int|
                inside(x, y, pos.x as int, pos.y as int, rect.w as int, rect.h as int) implies {
                    let p = image.pixel(rect.x + x - pos.x, rect.y + y - pos.y);
                    rgb565_channels(fb_byte(self.fb565_raw@, sw as int, x, y, 0), fb_byte(self.fb565_raw@, sw as int, x, y, 1))
                        == (p.r & 0xf8, p.g & 0xfc, p.b & 0xf8)
                } by {
                lemma_byte_in_rows(sw as int, (pos.y + rect.h) as int, x, y, 1);
                lemma_byte_in_rows(sw as int, (pos.y + rect.h) as int, x, y, 0);
                rgb565_round_trip(image.pixel(rect.x + x - pos.x, rect.y + y - pos.y));
            }
        }
    }

    /// `n` bytes of the picture buffer from `start`.
    fn fb_row(&self, start: usize, n: usize) -> (r: Vec<u8>)
        requires
            start + n <= self.fb().len(),
        ensures
            r@ == self.fb().subrange(start as int, start + n),
    {
        let _ = self.fb565_raw.len();
        let mut r: Vec<u8> = Vec::new();
        let mut b: usize = 0;
        while b < n
            invariant
                start + n <= self.fb565_raw@.len(),
                self.fb565_raw@.len() <= usize::MAX,
                b <= n,
                r@ == self.fb565_raw@.subrange(start as int, start + b),
            decreases n - b,
        {
            r.push(self.fb565_raw[start + b]);
            b += 1;
            assert(r@ =~= self.fb565_raw@.subrange(start as int, start + b));
        }
        r
    }

    /// Shows the `crop` area of `image` on the display with its top-left
    /// corner at `pos`.
    ///
    /// The area is first cut to what fits on the display from `pos`; when
    /// nothing is left, nothing is sent. When what is left reaches past the
    /// image (or past the picture buffer), the call fails with `Geometry` and
    /// sends nothing. Otherwise the pixels go to the picture buffer in
    /// RGB565, and the display receives the bitmap command for the area
    /// followed by the area's rows.
    pub fn display_image(&mut self, image: &Image, crop: &Rect, pos: &Coord) -> (r: Result<(), ScreenError>)
        requires
            image.wf(),
        ensures
            final(self).current_orientation() == old(self).current_orientation(),
            final(self).received_log() == old(self).received_log(),
            final(self).fb().len() == old(self).fb().len(),
            shows_image(*old(self), *final(self), *image, *crop, *pos, r),
    {
        let (sw, sh) = self.screen_size();
        let vis = Rect::new(pos.x, pos.y, crop.w, crop.h).clip(sw, sh);
        let ghost oks0 = self.oks@;
        if vis.w == 0 || vis.h == 0 {
            proof {
                assert(self.oks@.subrange(oks0.len() as int, oks0.len() as int) =~= Seq::<bool>::empty());
                assert(oks0 =~= self.oks@.subrange(0, oks0.len() as int));
            }
            return Ok(());
        }
        proof {
            let frames = bitmap_frames(*image, (crop.x as int, crop.y as int), *pos, vis.w as int, vis.h as int);
            lemma_prefix_take(self.sent@, frames, 0);
            assert(self.sent@ + frames.take(0) =~= self.sent@);
        }
        if vis.w > image.width || crop.x > image.width - vis.w || vis.h > image.height || crop.y
            > image.height - vis.h {
            proof {
                assert(oks0 =~= self.oks@.subrange(0, oks0.len() as int));
            }
            return Err(ScreenError::Geometry);
        }
        if 2 * (pos.y + vis.h) * sw > self.fb565_raw.len() {
            proof {
                assert(oks0 =~= self.oks@.subrange(0, oks0.len() as int));
            }
            return Err(ScreenError::Geometry);
        }
        let region = Rect::new(crop.x, crop.y, vis.w, vis.h);
        self.downmix(image, &region, pos);
        let ghost fb1 = self.fb565_raw@;
        let ghost frames = bitmap_frames(*image, (crop.x as int, crop.y as int), *pos, vis.w as int, vis.h as int);
        let ghost sent0 = self.sent@;
        let cmd = encode_bitmap(pos.x, pos.y, pos.x + vis.w - 1, pos.y + vis.h - 1);
        let first = self.write(cmd.as_slice());
        proof {
            assert(self.sent@ =~= sent0 + frames.take(1));
            lemma_prefix_take(sent0, frames, 1);
        }
        proof {
            assert(oks0 =~= self.oks@.subrange(0, oks0.len() as int));
            assert(self.oks@.subrange(oks0.len() as int, self.oks@.len() as int) =~= seq![first is Ok]);
            assert(seq![first is Ok].drop_last() =~= Seq::<bool>::empty());
        }
        if first.is_err() {
            proof {
                let new_oks = self.oks@.subrange(oks0.len() as int, self.oks@.len() as int);
                assert(!new_oks[0]);
                assert(!all_ok(new_oks));
            }
            return Err(ScreenError::Io);
        }
        proof {
            assert(self.oks@ =~= oks0 + Seq::new(1nat, |_i: int| true));
        }
        let mut k: usize = 0;
        while k < vis.h
            invariant
                image.wf(),
                vis.w > 0,
                vis.h > 0,
                crop.x + vis.w <= image.width,
                crop.y + vis.h <= image.height,
                pos.x + vis.w <= sw,
                2 * (pos.y + vis.h) * sw <= fb1.len(),
                fb1.len() <= usize::MAX,
                fb1.len() == old(self).fb565_raw@.len(),
                sw == screen_dims(self.orientation).0,
                sh == screen_dims(self.orientation).1,
                vis.w == clipped_len(pos.x as int, crop.w as int, pos.y as int, sh as int, sw as int),
                vis.h == clipped_len(pos.y as int, crop.h as int, pos.x as int, sw as int, sh as int),
                self.orientation == old(self).orientation,
                self.received == old(self).received,
                self.fb565_raw@ == fb1,
                frames == bitmap_frames(*image, (crop.x as int, crop.y as int), *pos, vis.w as int, vis.h as int),
                sent0 == old(self).sent@,
                k <= vis.h,
                self.sent@ == sent0 + frames.take(k + 1),
                oks0 == old(self).oks@,
                self.oks@ == oks0 + Seq::new((k + 1) as nat, |_i: int| true),
                forall|x: int, y: int, b: int|
                    0 <= x < sw && 0 <= y && 0 <= b < 2 && byte_index(sw as int, x, y, b) < fb1.len()
                        ==> #[trigger] fb_byte(fb1, sw as int, x, y, b) == if inside(
                        x,
                        y,
                        pos.x as int,
                        pos.y as int,
                        vis.w as int,
                        vis.h as int,
                    ) {
                        if b == 0 {
                            rgb565_lo(image.pixel(crop.x + x - pos.x, crop.y + y - pos.y))
                        } else {
                            rgb565_hi(image.pixel(crop.x + x - pos.x, crop.y + y - pos.y))
                        }
                    } else {
                        fb_byte(old(self).fb565_raw@, sw as int, x, y, b)
                    },
            decreases vis.h - k,
        {
            proof {
                lemma_byte_in_rows(sw as int, (pos.y + vis.h) as int, (pos.x + vis.w - 1) as int, (pos.y + k) as int, 1);
            }
            let start = 2 * ((pos.y + k) * sw + pos.x);
            let row = self.fb_row(start, 2 * vis.w);
            proof {
                assert forall|b: int| 0 <= b < 2 * vis.w implies row@[b] == row_byte(
                    *image,
                    crop.x as int,
                    crop.y + k,
                    b,
                ) by {
                    let x = pos.x + b / 2;
                    let y = (pos.y + k) as int;
                    lemma_byte_in_rows(sw as int, (pos.y + vis.h) as int, x, y, b % 2);
                    assert(byte_index(sw as int, x, y, b % 2) == start + b);
                    assert(fb_byte(fb1, sw as int, x, y, b % 2) == row@[b]);
                }
                assert(row@ =~= row_bytes(*image, crop.x as int, crop.y + k, vis.w as int));
                assert(frames[k + 1] == row@);
            }
            let ghost oks1 = self.oks@;
            let wr = self.write(row.as_slice());
            proof {
                assert(self.sent@ =~= sent0 + frames.take(k + 2));
                lemma_prefix_take(sent0, frames, k + 2);
                let new_oks = self.oks@.subrange(oks0.len() as int, self.oks@.len() as int);
                assert(new_oks =~= Seq::new((k + 1) as nat, |_i: int| true).push(wr is Ok));
                assert(new_oks.drop_last() =~= Seq::new((k + 1) as nat, |_i: int| true));
                assert(oks0 =~= self.oks@.subrange(0, oks0.len() as int));
                if wr.is_err() {
                    assert(!all_ok(new_oks)) by {
                        assert(!new_oks[k + 1]);
                    }
                } else {
                    assert(self.oks@ =~= oks0 + Seq::new((k + 2) as nat, |_i: int| true));
                }
            }
            if wr.is_err() {
                return Err(ScreenError::Io);
            }
            k += 1;
        }
        proof {
            assert(frames.take(vis.h + 1) =~= frames);
            assert(oks0 =~= self.oks@.subrange(0, oks0.len() as int));
            assert(self.oks@.subrange(oks0.len() as int, self.oks@.len() as int) =~= Seq::new(
                (vis.h + 1) as nat,
                |_i: int| true,
            ));
        }
        Ok(())
    }
}

impl Image {
    /// Shows the `crop` area of this image on `scr` at `pos` (see
    /// `ScreenRevA::display_image`).
    pub fn render_on<P: ScreenPort>(&self, scr: &mut ScreenRevA<P>, crop: &Rect, pos: &Coord) -> (r: Result<(), ScreenError>)
        requires
            self.wf(),
        ensures
            final(scr).current_orientation() == old(scr).current_orientation(),
            final(scr).received_log() == old(scr).received_log(),
            final(scr).fb().len() == old(scr).fb().len(),
            shows_image(*old(scr), *final(scr), *self, *crop, *pos, r),
    {
        scr.display_image(self, crop, pos)
    }
}

} // verus!
