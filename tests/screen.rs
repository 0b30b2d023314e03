use std::io::{Cursor, Read, Write};

use turing_screen::colors::{pack_rgb565, unpack_rgb565};
use turing_screen::protocol::{encode_bitmap, orientation, PANEL_HEIGHT, PANEL_WIDTH};
use turing_screen::screen::{accept_read, check_hello_reply};
use turing_screen::{Coord, Framebuffer, Image, Orientation, Rect, Rgba, ScreenError, ScreenPort, ScreenRevA};

struct FakePort(Cursor<Vec<u8>>);

impl FakePort {
    fn new(data: Vec<u8>) -> Self {
        FakePort(Cursor::new(data))
    }
}

impl ScreenPort for FakePort {
    fn write(&mut self, data: &[u8]) -> Result<usize, ScreenError> {
        self.0.write(data).map_err(|_| ScreenError::Io)
    }

    fn read(&mut self, n: usize) -> Result<Vec<u8>, ScreenError> {
        let mut data = vec![0; n];
        self.0.read_exact(&mut data).map_err(|_| ScreenError::Io)?;
        Ok(data)
    }

    fn get_buf(&self) -> Vec<u8> {
        self.0.get_ref().to_vec()
    }
}

/// A port whose writes always fail.
struct BrokenPort;

impl ScreenPort for BrokenPort {
    fn write(&mut self, _data: &[u8]) -> Result<usize, ScreenError> {
        Err(ScreenError::Io)
    }

    fn read(&mut self, _n: usize) -> Result<Vec<u8>, ScreenError> {
        Err(ScreenError::Io)
    }

    fn get_buf(&self) -> Vec<u8> {
        Vec::new()
    }
}

fn fake_screen(port: FakePort) -> ScreenRevA<FakePort> {
    let mut scr = ScreenRevA::new(port);
    scr.fb565_raw = Vec::<u8>::new();
    scr
}

#[test]
fn test_screen_size() {
    let fake_port = FakePort::new(Vec::new());
    let scr = fake_screen(fake_port);
    let (w, h) = scr.screen_size();
    assert_eq!(w, PANEL_WIDTH);
    assert_eq!(h, PANEL_HEIGHT);
}

#[test]
fn test_write() {
    let fake_port = FakePort::new(Vec::new());
    let mut scr = fake_screen(fake_port);
    let res = scr.write(&[1, 2, 3, 4, 5]).unwrap();
    assert_eq!(res, 5);
    assert_eq!(scr.port.get_buf(), vec![1, 2, 3, 4, 5]);
}

#[test]
fn test_read() {
    let fake_port = FakePort::new(vec![1u8, 2, 3, 4, 5]);
    let mut scr = fake_screen(fake_port);
    let buf = scr.read(5).unwrap();
    assert_eq!(buf, &[1, 2, 3, 4, 5]);
}

#[test]
fn test_init() {
    let fake_port = FakePort::new(vec![0u8, 0, 0, 0, 0, 0, 1, 1, 1, 1, 1, 1]);
    let mut scr = ScreenRevA::new(fake_port);
    assert!(scr.init().is_ok());
}

#[test]
fn test_init_fail() {
    let fake_port = FakePort::new(vec![0u8, 0, 0, 0, 0, 0, 1, 1, 1, 1, 1, 2]);
    let mut scr = fake_screen(fake_port);
    assert!(scr.init().is_err());
}

#[test]
fn test_clear() {
    let fake_port = FakePort::new(Vec::new());
    let mut scr = fake_screen(fake_port);
    scr.clear().unwrap();
    assert_eq!(
        scr.port.get_buf(),
        vec![
            0, 0, 0, 0, 0, 121, // Command::SetOrientation
            100, // Orientation::Portrait
            1, 64, // Width MSB:LSB (0x0140 == 320)
            1, 224, // Height MSB:LSB (0x01e0 == 480)
            0, 0, 0, 0, 0, //
            0, 0, 0, 0, 0, 102 // Command::Clear
        ]
    );
}

#[test]
fn test_screen_on() {
    let fake_port = FakePort::new(Vec::new());
    let mut scr = fake_screen(fake_port);
    scr.screen_on().unwrap();
    assert_eq!(scr.port.get_buf(), vec![0, 0, 0, 0, 0, 109]);
}

#[test]
fn test_screen_off() {
    let fake_port = FakePort::new(Vec::new());
    let mut scr = fake_screen(fake_port);
    scr.screen_off().unwrap();
    assert_eq!(scr.port.get_buf(), vec![0, 0, 0, 0, 0, 108]);
}

#[test]
fn test_set_brightness() {
    let fake_port = FakePort::new(Vec::new());
    let mut scr = fake_screen(fake_port);
    scr.set_brightness(0x55).unwrap();
    assert_eq!(scr.port.get_buf(), vec![0xaa, 0, 0, 0, 0, 110]);
}

#[test]
fn test_downmix() {
    let fake_port = FakePort::new(Vec::<u8>::new());
    let mut scr = fake_screen(fake_port);
    scr.fb565_raw = vec![0u8; 2 * 320 * 20]; // framebuffer is 320x20

    // image is 20x10
    let mut rgba = vec![Rgba::new(0x80, 0x80, 0x80, 0x00); 20 * 10];

    // 2x2 area to be converted
    rgba[21] = Rgba::new(0xff, 0x00, 0xff, 0x1f);
    rgba[22] = Rgba::new(0x11, 0x22, 0x44, 0x88);
    rgba[41] = Rgba::new(0x00, 0xff, 0x00, 0xff);
    rgba[42] = Rgba::new(0x55, 0xaa, 0xff, 0x00);

    let image = Image { buffer: rgba, width: 20, height: 10 };

    // rgb565 data contains only the converted area
    let r = Rect::new(1, 1, 2, 2);
    scr.downmix(&image, &r, &Coord::new(1, 1));

    let mut expected = vec![0u8; 2 * 320 * 20];
    expected[321 * 2 + 0] = 0b00011111;
    expected[321 * 2 + 1] = 0b11111000;
    expected[322 * 2 + 0] = 0b00001000;
    expected[322 * 2 + 1] = 0b00010001;
    expected[641 * 2 + 0] = 0b11100000;
    expected[641 * 2 + 1] = 0b00000111;
    expected[642 * 2 + 0] = 0b01011111;
    expected[642 * 2 + 1] = 0b01010101;

    assert_eq!(scr.fb565_raw, expected);
}

#[test]
fn test_display_image() {
    let fake_port = FakePort::new(Vec::<u8>::new());
    let mut scr = fake_screen(fake_port);
    scr.fb565_raw = vec![0u8; 2 * 320 * 2];
    let image = Image { buffer: vec![Rgba::new(4, 4, 4, 0); 320 * 2], width: 320, height: 2 };
    scr.display_image(&image, &Rect::new(1, 1, 4, 1), &Coord::new(1, 1)).unwrap();
    assert_eq!(
        scr.port.get_buf(),
        vec![0x00, 0x40, 0x10, 0x10, 0x01, 197, 32, 0, 32, 0, 32, 0, 32, 0]
    );
}

#[test]
fn test_display_image_offscreen() {
    let fake_port = FakePort::new(Vec::<u8>::new());
    let mut scr = fake_screen(fake_port);
    let image = Image { buffer: vec![Rgba::new(4, 4, 4, 0); 320 * 2], width: 320, height: 2 };
    scr.display_image(&image, &Rect::new(10, 20, 0, 0), &Coord::new(0, 0)).unwrap();
    assert_eq!(scr.port.get_buf(), Vec::<u8>::new());
}

#[test]
fn bitmap_command_packs_ten_bit_coordinates() {
    assert_eq!(encode_bitmap(1, 1, 4, 1), vec![0x00, 0x40, 0x10, 0x10, 0x01, 197]);
    assert_eq!(encode_bitmap(0, 0, 319, 479), vec![0x00, 0x00, 0x04, 0xfd, 0xdf, 197]);
    assert_eq!(encode_bitmap(1023, 1023, 1023, 1023), vec![0xff, 0xff, 0xff, 0xff, 0xff, 197]);
    // coordinates are taken modulo 1024
    assert_eq!(encode_bitmap(1024 + 1, 1, 4, 1), encode_bitmap(1, 1, 4, 1));
}

#[test]
fn rgb565_round_trip_drops_low_bits_only() {
    let (lo, hi) = pack_rgb565(Rgba::new(0xff, 0x00, 0xff, 0x12));
    assert_eq!((lo, hi), (0x1f, 0xf8));
    assert_eq!(unpack_rgb565(lo, hi), (0xff & 0xf8, 0x00 & 0xfc, 0xff & 0xf8));
    for (r, g, b) in [(0x12u8, 0x34u8, 0x56u8), (0xffu8, 0xffu8, 0xffu8), (0x07, 0x03, 0x07), (0xa5, 0x5a, 0xc3)] {
        let (lo, hi) = pack_rgb565(Rgba::new(r, g, b, 0));
        assert_eq!(unpack_rgb565(lo, hi), (r & 0xf8, g & 0xfc, b & 0xf8));
    }
}

#[test]
fn orientation_codes_and_sizes() {
    assert_eq!(orientation(Orientation::Portrait), 0);
    assert_eq!(orientation(Orientation::ReversePortrait), 1);
    assert_eq!(orientation(Orientation::Landscape), 2);
    assert_eq!(orientation(Orientation::ReverseLandscape), 3);

    let mut scr = ScreenRevA::new(FakePort::new(Vec::new()));
    scr.set_orientation(Orientation::Landscape).unwrap();
    assert_eq!(scr.screen_size(), (480, 320));
    assert_eq!(
        scr.port.get_buf(),
        vec![0, 0, 0, 0, 0, 121, 102, 1, 224, 1, 64, 0, 0, 0, 0, 0]
    );
}

#[test]
fn hello_reply_must_match_exactly() {
    assert_eq!(check_hello_reply(&[1, 1, 1, 1, 1, 1]), Ok(()));
    assert_eq!(check_hello_reply(&[1, 1, 1, 1, 1, 2]), Err(ScreenError::IncompatibleDevice));
    assert_eq!(check_hello_reply(&[1, 1, 1, 1, 1]), Err(ScreenError::IncompatibleDevice));
}

#[test]
fn init_sends_hello_and_fails_on_short_reply() {
    let mut scr = ScreenRevA::new(FakePort::new(vec![0u8, 0, 0, 0, 0, 0, 1, 1, 1]));
    assert_eq!(scr.init(), Err(ScreenError::Io));
    assert_eq!(&scr.port.get_buf()[..6], &[0, 0, 0, 0, 0, 69]);
}

#[test]
fn display_image_past_the_image_is_a_geometry_error() {
    let mut scr = ScreenRevA::new(FakePort::new(Vec::new()));
    let image = Image::new(4, 4);
    let r = scr.display_image(&image, &Rect::new(2, 0, 4, 2), &Coord::new(0, 0));
    assert_eq!(r, Err(ScreenError::Geometry));
    assert_eq!(scr.port.get_buf(), Vec::<u8>::new());
}

#[test]
fn display_image_clips_to_the_screen() {
    let mut scr = ScreenRevA::new(FakePort::new(Vec::new()));
    let mut image = Image::new(4, 2);
    image.buffer[3] = Rgba::new(0xff, 0xff, 0xff, 0xff);
    // only one column fits at x = 319
    scr.display_image(&image, &Rect::new(3, 0, 4, 1), &Coord::new(319, 0)).unwrap();
    let mut expected = encode_bitmap(319, 0, 319, 0);
    expected.extend_from_slice(&[0xff, 0xff]);
    assert_eq!(scr.port.get_buf(), expected);
}

#[test]
fn display_write_failure_is_an_io_error() {
    let mut scr = ScreenRevA::new(BrokenPort);
    let image = Image::new(2, 2);
    let r = scr.display_image(&image, &image.full(), &Coord::new(0, 0));
    assert_eq!(r, Err(ScreenError::Io));
    assert_eq!(scr.screen_on(), Err(ScreenError::Io));
}

#[test]
fn framebuffer_renders_region_in_place() {
    let mut scr = ScreenRevA::new(FakePort::new(Vec::new()));
    let mut fb = Framebuffer::new(320, 480);
    let white = Image { buffer: vec![Rgba::new(0xff, 0xff, 0xff, 0xff); 4], width: 2, height: 2 };
    fb.copy_image(&white, &white.full(), &Coord::new(10, 20));
    fb.render_on(&mut scr, &Rect::new(10, 20, 2, 1)).unwrap();
    let mut expected = encode_bitmap(10, 20, 11, 20);
    expected.extend_from_slice(&[0xff, 0xff, 0xff, 0xff]);
    assert_eq!(scr.port.get_buf(), expected);
}

#[test]
fn failed_writes_are_reported_not_swallowed() {
    let mut scr = ScreenRevA::new(BrokenPort);
    assert_eq!(scr.init(), Err(ScreenError::Io));
    assert_eq!(scr.clear(), Err(ScreenError::Io));
    assert_eq!(scr.set_brightness(3), Err(ScreenError::Io));
    assert_eq!(scr.set_orientation(Orientation::Landscape), Err(ScreenError::Io));
    assert_eq!(scr.screen_off(), Err(ScreenError::Io));
}

#[test]
fn accepted_writes_give_ok() {
    let mut scr = ScreenRevA::new(FakePort::new(Vec::new()));
    assert_eq!(scr.clear(), Ok(()));
    assert_eq!(scr.set_brightness(0x55), Ok(()));
    let image = Image::new(3, 2);
    assert_eq!(scr.display_image(&image, &image.full(), &Coord::new(5, 5)), Ok(()));
}

#[test]
fn read_accepts_only_replies_of_the_asked_length() {
    assert_eq!(accept_read(Ok(vec![1, 2, 3]), 3), Ok(vec![1, 2, 3]));
    assert_eq!(accept_read(Ok(vec![1, 2]), 3), Err(ScreenError::Io));
    assert_eq!(accept_read(Ok(vec![1, 2, 3, 4]), 3), Err(ScreenError::Io));
    assert_eq!(accept_read(Err(ScreenError::Geometry), 3), Err(ScreenError::Io));
    let mut scr = ScreenRevA::new(FakePort::new(vec![1u8, 2, 3]));
    assert_eq!(scr.read(5), Err(ScreenError::Io));
}
