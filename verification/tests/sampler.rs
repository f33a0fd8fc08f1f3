use whatcolor::{CaptureRegion, LoupeCapture, Rgb};

fn square(size: usize) -> LoupeCapture {
    let buf: Vec<u32> = (0..(size * size) as u32).map(|i| 0xFF00_0000 | (i << 16) | (i << 8) | i).collect();
    LoupeCapture::from_dib_pixels(buf, size)
}

#[test]
fn dib_pixels_decode_bgra() {
    let cap = LoupeCapture::from_dib_pixels(vec![0xFF112233, 0x00ABCDEF], 1);
    assert_eq!(cap.size, 1);
    assert_eq!(cap.pixels, vec![Rgb::new(0x11, 0x22, 0x33), Rgb::new(0xAB, 0xCD, 0xEF)]);
}

#[test]
fn get_is_row_major() {
    let cap = square(3);
    assert_eq!(cap.get(0, 0), Rgb::new(0, 0, 0));
    assert_eq!(cap.get(2, 0), Rgb::new(2, 2, 2));
    assert_eq!(cap.get(0, 1), Rgb::new(3, 3, 3));
    assert_eq!(cap.get(2, 2), Rgb::new(8, 8, 8));
}

#[test]
fn get_past_end_is_black() {
    let cap = square(3);
    assert_eq!(cap.get(0, 3), Rgb::new(0, 0, 0));
    assert_eq!(cap.get(100, 100), Rgb::new(0, 0, 0));
}

#[test]
fn center_of_loupe() {
    let cap = square(15);
    assert_eq!(cap.center(), Rgb::new(112, 112, 112));
    let empty = LoupeCapture { pixels: Vec::new(), size: 15 };
    assert_eq!(empty.center(), Rgb::new(0, 0, 0));
}

#[test]
fn region_centered_on_cursor() {
    let reg = CaptureRegion::centered(100, -50, 7);
    assert_eq!(reg, CaptureRegion { x0: 93, y0: -57, size: 15 });
    assert_eq!(reg.pixel_count(), 225);
    assert_eq!(reg.x0 + (reg.size / 2) as i32, 100);
}
