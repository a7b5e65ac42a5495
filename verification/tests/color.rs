//! Color constructors and the pixel a drawing call writes.

use teremder::Color;
use teremder::Pixel;

#[test]
fn rgb_is_opaque() {
    let c = Color::rgb(10, 20, 30);
    assert_eq!((c.r, c.g, c.b, c.a), (10, 20, 30, 255));
}

#[test]
fn rgba_keeps_alpha() {
    let c = Color::rgba(10, 20, 30, 40);
    assert_eq!((c.r, c.g, c.b, c.a), (10, 20, 30, 40));
}

#[test]
fn hex_unpacks_rgb() {
    let c = Color::hex(0x112233);
    assert_eq!((c.r, c.g, c.b, c.a), (0x11, 0x22, 0x33, 255));
    let white = Color::hex(0xFFFFFF);
    assert_eq!((white.r, white.g, white.b, white.a), (255, 255, 255, 255));
}

#[test]
fn hex_a_unpacks_rgba() {
    let c = Color::hex_a(0x11223344);
    assert_eq!((c.r, c.g, c.b, c.a), (0x11, 0x22, 0x33, 0x44));
}

#[test]
fn hex_ignores_high_byte() {
    let c = Color::hex(0xAA112233);
    assert_eq!((c.r, c.g, c.b), (0x11, 0x22, 0x33));
}

#[test]
fn pixel_drops_alpha() {
    let c = Color::rgba(1, 2, 3, 200);
    assert_eq!(c.pixel(), Pixel { r: 1, g: 2, b: 3 });
}

#[test]
fn sentinel_differs_from_black() {
    assert_ne!(Pixel::dirty(), Pixel::black());
    assert_eq!(Pixel::black(), Pixel { r: 0, g: 0, b: 0 });
    assert_eq!(Pixel::dirty(), Pixel { r: 1, g: 2, b: 3 });
}
