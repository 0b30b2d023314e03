use turing_screen::{Coord, Rect};

#[test]
fn test_coord() {
    let pos = Coord::new(10, 20);
    assert_eq!(pos.x, 10);
    assert_eq!(pos.y, 20);
    assert_eq!(pos.to_string(), "@10,20");
}

#[test]
fn test_rect() {
    let r = Rect::new(2, 3, 4, 5);
    assert_eq!(r.x, 2);
    assert_eq!(r.y, 3);
    assert_eq!(r.w, 4);
    assert_eq!(r.h, 5);
    assert_eq!(r.to_string(), "@2,3+4x5");
}

#[test]
fn test_rect_clip() {
    for tc in vec![
        (Rect::new(5, 10, 15, 20), Rect::new(5, 10, 15, 20)), // fully inside
        (Rect::new(5, 10, 50, 50), Rect::new(5, 10, 20, 25)), // clipped
        (Rect::new(30, 10, 50, 50), Rect::new(30, 10, 0, 0)), // off-screen x
        (Rect::new(5, 40, 50, 50), Rect::new(5, 40, 0, 0)),   // off-screen y
    ] {
        let r = tc.0.clip(25, 35);
        assert_eq!(r.x, tc.1.x);
        assert_eq!(r.y, tc.1.y);
        assert_eq!(r.w, tc.1.w);
        assert_eq!(r.h, tc.1.h);
    }
}

#[test]
fn rect_clip_stays_in_bounds() {
    for x in 0..12usize {
        for y in 0..12usize {
            for w in [0usize, 1, 3, 9, 40] {
                for h in [0usize, 2, 7, 50] {
                    let r = Rect::new(x, y, w, h).clip(8, 10);
                    assert_eq!((r.x, r.y), (x, y));
                    if x >= 8 || y >= 10 {
                        assert_eq!((r.w, r.h), (0, 0));
                    } else {
                        assert!(r.x + r.w <= 8 && r.y + r.h <= 10);
                        assert_eq!(r.w, w.min(8 - x));
                        assert_eq!(r.h, h.min(10 - y));
                    }
                }
            }
        }
    }
}

#[test]
fn rect_clip_at_the_edges() {
    assert_eq!(Rect::new(0, 0, usize::MAX, usize::MAX).clip(320, 480), Rect::new(0, 0, 320, 480));
    assert_eq!(Rect::new(319, 479, 5, 5).clip(320, 480), Rect::new(319, 479, 1, 1));
    assert_eq!(Rect::new(320, 0, 5, 5).clip(320, 480), Rect::new(320, 0, 0, 0));
    assert_eq!(Rect::new(0, 0, 5, 5).clip(0, 0), Rect::new(0, 0, 0, 0));
}

#[test]
fn text_forms_use_plain_decimal() {
    assert_eq!(Coord::new(0, 0).to_string(), "@0,0");
    assert_eq!(Rect::new(1234, 0, 10, 987654).to_string(), "@1234,0+10x987654");
}

#[test]
fn text_forms_of_extreme_values() {
    assert_eq!(Coord::new(usize::MAX, 9).to_string(), format!("@{},9", usize::MAX));
    assert_eq!(Rect::new(10, 100, 1000, 0).to_string(), "@10,100+1000x0");
}
