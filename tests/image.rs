use turing_screen::{Coord, Image, Rect, Rgba};

fn source() -> Image {
    Image {
        buffer: vec![
            Rgba::new(1, 1, 1, 1),
            Rgba::new(2, 2, 2, 2),
            Rgba::new(3, 3, 3, 3),
            Rgba::new(4, 4, 4, 4),
        ],
        width: 2,
        height: 2,
    }
}

#[test]
fn test_full() {
    let image = Image::new(20, 30);
    assert_eq!(image.full(), Rect::new(0, 0, 20, 30));
}

#[test]
fn image_new_is_opaque_black() {
    let image = Image::new(4, 3);
    assert_eq!(image.buffer.len(), 12);
    assert!(image.buffer.iter().all(|p| *p == Rgba::new(0, 0, 0, 255)));
    assert_eq!(Rgba::black(), Rgba::new(0, 0, 0, 255));
    assert_eq!(Rgba::white(), Rgba::new(255, 255, 255, 255));
    assert_eq!(Rgba::transparent(), Rgba::new(0, 0, 0, 0));
}

#[test]
fn image_test_copy_image() {
    let image = source();

    let mut background = Image::new(3, 3);
    background.copy_image(&image, &image.full(), &Coord::new(1, 1));

    assert_eq!(
        background.buffer,
        &[
            Rgba::new(0, 0, 0, 255),
            Rgba::new(0, 0, 0, 255),
            Rgba::new(0, 0, 0, 255),
            Rgba::new(0, 0, 0, 255),
            Rgba::new(1, 1, 1, 1),
            Rgba::new(2, 2, 2, 2),
            Rgba::new(0, 0, 0, 255),
            Rgba::new(3, 3, 3, 3),
            Rgba::new(4, 4, 4, 4),
        ]
    );
}

#[test]
fn image_test_copy_image_cropped() {
    let image = source();

    let mut background = Image::new(3, 3);
    background.copy_image(&image, &Rect::new(0, 1, 2, 1), &Coord::new(1, 1));

    assert_eq!(
        background.buffer,
        &[
            Rgba::new(0, 0, 0, 255),
            Rgba::new(0, 0, 0, 255),
            Rgba::new(0, 0, 0, 255),
            Rgba::new(0, 0, 0, 255),
            Rgba::new(3, 3, 3, 3),
            Rgba::new(4, 4, 4, 4),
            Rgba::new(0, 0, 0, 255),
            Rgba::new(0, 0, 0, 255),
            Rgba::new(0, 0, 0, 255),
        ]
    );
}

#[test]
fn image_test_copy_image_clipped() {
    let image = source();

    let mut background = Image::new(3, 3);
    background.copy_image(&image, &Rect::new(0, 0, 2, 2), &Coord::new(2, 2));

    assert_eq!(
        background.buffer,
        &[
            Rgba::new(0, 0, 0, 255),
            Rgba::new(0, 0, 0, 255),
            Rgba::new(0, 0, 0, 255),
            Rgba::new(0, 0, 0, 255),
            Rgba::new(0, 0, 0, 255),
            Rgba::new(0, 0, 0, 255),
            Rgba::new(0, 0, 0, 255),
            Rgba::new(0, 0, 0, 255),
            Rgba::new(1, 1, 1, 1),
        ]
    );
}

#[test]
fn image_test_blend_alpha() {
    for tc in vec![
        (Rgba::new(0x00, 0x80, 0xff, 0x00), Rgba::new(0x40, 0x80, 0xc0, 0xff)),
        (Rgba::new(0x00, 0x80, 0xff, 0x80), Rgba::new(0x1f, 0x7f, 0xde, 0xff)),
        (Rgba::new(0x00, 0x80, 0xff, 0xff), Rgba::new(0x00, 0x80, 0xff, 0xff)),
    ] {
        let bg = &mut Rgba::new(0x40, 0x80, 0xc0, 0xff);

        Image::blend_alpha(bg, tc.0);
        assert_eq!(bg.r, tc.1.r);
        assert_eq!(bg.g, tc.1.g);
        assert_eq!(bg.b, tc.1.b);
    }
}

#[test]
fn image_test_blend_image() {
    let image = Image {
        buffer: vec![
            Rgba::new(0x80, 0x40, 0x20, 0xff),
            Rgba::new(0x80, 0x40, 0x20, 0x80),
            Rgba::new(0x80, 0x40, 0x20, 0x40),
            Rgba::new(0x80, 0x40, 0x20, 0x00),
        ],
        width: 2,
        height: 2,
    };

    let mut background = Image::new(3, 3);
    background.blend_image(&image, &Rect::new(0, 0, 3, 3), &Coord::new(1, 1));

    assert_eq!(
        background.buffer,
        &[
            Rgba::new(0, 0, 0, 255),
            Rgba::new(0, 0, 0, 255),
            Rgba::new(0, 0, 0, 255),
            Rgba::new(0, 0, 0, 255),
            Rgba::new(0x80, 0x40, 0x20, 255),
            Rgba::new(0x40, 0x20, 0x10, 255),
            Rgba::new(0, 0, 0, 255),
            Rgba::new(0x20, 0x10, 0x08, 255),
            Rgba::new(0x00, 0x00, 0x00, 255),
        ]
    );
}

#[test]
fn test_blend_to_background() {
    let mut image = Image {
        buffer: vec![
            Rgba::new(0x80, 0x40, 0x20, 0xff),
            Rgba::new(0x80, 0x40, 0x20, 0x80),
            Rgba::new(0x80, 0x40, 0x20, 0x40),
            Rgba::new(0x80, 0x40, 0x20, 0x00),
        ],
        width: 2,
        height: 2,
    };

    let background = Image::new(3, 3);
    image.blend_to_background(&Rect::new(0, 0, 3, 3), &Coord::new(1, 1), &background);

    assert_eq!(
        image.buffer,
        &[
            Rgba::new(0x80, 0x40, 0x20, 0xff),
            Rgba::new(0x40, 0x20, 0x10, 0xff),
            Rgba::new(0x20, 0x10, 0x08, 0xff),
            Rgba::new(0x00, 0x00, 0x00, 0xff),
        ]
    );
}

#[test]
fn blend_extremes_leave_or_replace_background() {
    for bg0 in [Rgba::new(0x12, 0x34, 0x56, 0x78), Rgba::new(0, 0, 0, 0), Rgba::new(255, 255, 255, 255)] {
        let mut bg = bg0;
        Image::blend_alpha(&mut bg, Rgba::new(0xaa, 0xbb, 0xcc, 0x00));
        assert_eq!(bg, bg0);
        Image::blend_alpha(&mut bg, Rgba::new(0xaa, 0xbb, 0xcc, 0xff));
        assert_eq!(bg, Rgba::new(0xaa, 0xbb, 0xcc, 0xff));
    }
}

#[test]
fn blend_follows_the_fixed_point_formula() {
    let mut bg = Rgba::new(0x40, 0x80, 0xc0, 0x33);
    Image::blend_alpha(&mut bg, Rgba::new(0x00, 0x80, 0xff, 0x80));
    // (0x40 * 127 + 0x00 * 128) >> 8 = 0x1f, (0x80 * 127 + 0x80 * 128) >> 8 = 0x7f,
    // (0xc0 * 127 + 0xff * 128) >> 8 = 0xde; the background keeps its alpha.
    assert_eq!(bg, Rgba::new(0x1f, 0x7f, 0xde, 0x33));
    let mut bg = Rgba::new(255, 255, 255, 255);
    Image::blend_alpha(&mut bg, Rgba::new(255, 255, 255, 254));
    assert_eq!(bg, Rgba::new(254, 254, 254, 255));
}

#[test]
fn opaque_image_composited_inside_black_background() {
    let image = Image {
        buffer: vec![
            Rgba::new(10, 20, 30, 255),
            Rgba::new(40, 50, 60, 255),
            Rgba::new(70, 80, 90, 255),
            Rgba::new(100, 110, 120, 255),
        ],
        width: 2,
        height: 2,
    };
    let black = Rgba::new(0, 0, 0, 255);
    let expected = vec![
        black,
        black,
        black,
        black,
        Rgba::new(10, 20, 30, 255),
        Rgba::new(40, 50, 60, 255),
        black,
        Rgba::new(70, 80, 90, 255),
        Rgba::new(100, 110, 120, 255),
    ];
    let mut copied = Image::new(3, 3);
    copied.copy_image(&image, &image.full(), &Coord::new(1, 1));
    assert_eq!(copied.buffer, expected);
    let mut blended = Image::new(3, 3);
    blended.blend_image(&image, &image.full(), &Coord::new(1, 1));
    assert_eq!(blended.buffer, expected);
}

#[test]
fn copy_with_offset_crop_lands_at_destination() {
    let image = Image {
        buffer: (0..9u8).map(|i| Rgba::new(i, i, i, 255)).collect(),
        width: 3,
        height: 3,
    };
    let mut dest = Image::new(2, 2);
    dest.copy_image(&image, &Rect::new(1, 1, 5, 5), &Coord::new(0, 0));
    assert_eq!(
        dest.buffer,
        vec![
            Rgba::new(4, 4, 4, 255),
            Rgba::new(5, 5, 5, 255),
            Rgba::new(7, 7, 7, 255),
            Rgba::new(8, 8, 8, 255),
        ]
    );
}

#[test]
fn out_of_range_geometry_changes_nothing() {
    let image = source();
    let mut background = Image::new(3, 3);
    let before = background.buffer.clone();
    background.copy_image(&image, &image.full(), &Coord::new(3, 0));
    background.copy_image(&image, &image.full(), &Coord::new(0, 7));
    background.copy_image(&image, &Rect::new(2, 0, 2, 2), &Coord::new(0, 0));
    background.blend_image(&image, &Rect::new(0, 5, 2, 2), &Coord::new(0, 0));
    background.copy_image(&image, &Rect::new(0, 0, 0, 2), &Coord::new(0, 0));
    assert_eq!(background.buffer, before);
}
