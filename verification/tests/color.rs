use whatcolor::{copied_notice, hsl_string, hsv_string, HueSector, Rgb};

#[test]
fn bgr_decode() {
    // Windows COLORREF for RGB(234,234,234) = 0x00EAEAEA
    let c = Rgb::from_u32_bgr(0x00EAEAEA);
    assert_eq!(c.r, 0xEA);
    assert_eq!(c.g, 0xEA);
    assert_eq!(c.b, 0xEA);
}

#[test]
fn rgb_string() {
    let c = Rgb::new(10, 20, 30);
    assert_eq!(c.to_rgb_string(), "rgb(10, 20, 30)");
}

#[test]
fn bgr_decode_channel_order_and_top_byte() {
    let c = Rgb::from_u32_bgr(0xFF112233);
    assert_eq!(c, Rgb::new(0x33, 0x22, 0x11));
}

#[test]
fn hex_of_reference_colors() {
    assert_eq!(Rgb::new(0, 0, 0).to_hex(), "#000000");
    assert_eq!(Rgb::new(255, 255, 255).to_hex(), "#FFFFFF");
    assert_eq!(Rgb::new(255, 0, 0).to_hex(), "#FF0000");
    assert_eq!(Rgb::new(0, 255, 0).to_hex(), "#00FF00");
    assert_eq!(Rgb::new(0, 0, 255).to_hex(), "#0000FF");
    assert_eq!(Rgb::new(0xEA, 0xEA, 0xEA).to_hex(), "#EAEAEA");
    assert_eq!(Rgb::new(0x0A, 0xB1, 0x7C).to_hex(), "#0AB17C");
}

#[test]
fn rgb_string_extremes() {
    assert_eq!(Rgb::new(0, 0, 0).to_rgb_string(), "rgb(0, 0, 0)");
    assert_eq!(Rgb::new(255, 100, 9).to_rgb_string(), "rgb(255, 100, 9)");
}

#[test]
fn hsl_and_hsv_strings() {
    assert_eq!(hsl_string(0, 100, 50), "hsl(0, 100%, 50%)");
    assert_eq!(hsv_string(240, 7, 0), "hsv(240, 7%, 0%)");
    assert_eq!(hsl_string(359, 0, 92), "hsl(359, 0%, 92%)");
}

#[test]
fn hue_sectors() {
    assert_eq!(Rgb::new(0, 0, 0).hue_sector(), HueSector::Achromatic);
    assert_eq!(Rgb::new(0xEA, 0xEA, 0xEA).hue_sector(), HueSector::Achromatic);
    assert_eq!(Rgb::new(255, 0, 0).hue_sector(), HueSector::Red);
    assert_eq!(Rgb::new(0, 255, 0).hue_sector(), HueSector::Green);
    assert_eq!(Rgb::new(0, 0, 255).hue_sector(), HueSector::Blue);
    // ties go to red, then green
    assert_eq!(Rgb::new(200, 200, 10).hue_sector(), HueSector::Red);
    assert_eq!(Rgb::new(10, 200, 200).hue_sector(), HueSector::Green);
}

#[test]
fn channel_extremes() {
    let c = Rgb::new(12, 250, 3);
    assert_eq!(c.max_channel(), 250);
    assert_eq!(c.min_channel(), 3);
}

#[test]
fn egui_color_keeps_channels() {
    let c = Rgb::new(1, 2, 3).to_egui_color();
    assert_eq!((c.r(), c.g(), c.b(), c.a()), (1, 2, 3, 255));
    assert_eq!(c, egui::Color32::from_rgb(1, 2, 3));
}

#[test]
fn copied_notice_text() {
    assert_eq!(copied_notice("#EAEAEA"), "Copied #EAEAEA");
}

#[test]
fn notice_lasts_three_seconds() {
    assert!(!whatcolor::notice_expired(0));
    assert!(!whatcolor::notice_expired(3_000_000_000));
    assert!(whatcolor::notice_expired(3_000_000_001));
}
