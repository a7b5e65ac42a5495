//! The drawing primitives: clipped rectangles, disks and the signed-area
//! triangle rule.

use teremder::Color;
use teremder::Context;
use teremder::Pixel;

fn pixel_at(ctx: &Context, x: usize, y: usize) -> Pixel {
    *ctx.drawing_buffer.get(x, y)
}

#[test]
fn fill_rect_clips_instead_of_failing() {
    // A 10 x 10 pixel surface; the rectangle hangs over both edges.
    let mut ctx = Context::new(10, 5, 0);
    ctx.clear_background(Color::rgb(0, 0, 0));
    ctx.fill_rect(8, 8, 5, 5, Color::rgb(0, 121, 241));
    let blue = Pixel { r: 0, g: 121, b: 241 };
    for y in 0..10 {
        for x in 0..10 {
            let expected = if x >= 8 && y >= 8 { blue } else { Pixel::black() };
            assert_eq!(pixel_at(&ctx, x, y), expected);
        }
    }
}

#[test]
fn fill_rect_paints_exact_extent() {
    let mut ctx = Context::new(6, 3, 0);
    ctx.clear_background(Color::rgb(0, 0, 0));
    ctx.fill_rect(1, 2, 3, 2, Color::rgb(9, 9, 9));
    let ink = Pixel { r: 9, g: 9, b: 9 };
    for y in 0..6 {
        for x in 0..6 {
            let inside = (1..4).contains(&x) && (2..4).contains(&y);
            assert_eq!(pixel_at(&ctx, x, y), if inside { ink } else { Pixel::black() });
        }
    }
}

#[test]
fn fill_rect_of_zero_extent_paints_nothing() {
    let mut ctx = Context::new(4, 2, 0);
    ctx.clear_background(Color::rgb(0, 0, 0));
    ctx.fill_rect(1, 1, 0, 3, Color::rgb(7, 7, 7));
    for y in 0..4 {
        for x in 0..4 {
            assert_eq!(pixel_at(&ctx, x, y), Pixel::black());
        }
    }
}

#[test]
fn clear_background_paints_every_pixel() {
    let mut ctx = Context::new(3, 2, 0);
    ctx.clear_background(Color::rgb(130, 130, 130));
    for y in 0..4 {
        for x in 0..3 {
            assert_eq!(pixel_at(&ctx, x, y), Pixel { r: 130, g: 130, b: 130 });
        }
    }
}

#[test]
fn fill_circle_uses_strict_squared_distance() {
    let mut ctx = Context::new(5, 3, 0);
    ctx.clear_background(Color::rgb(0, 0, 0));
    ctx.fill_circle(2, 2, 2, Color::rgb(1, 1, 1));
    let ink = Pixel { r: 1, g: 1, b: 1 };
    // Strictly inside radius 2 of (2, 2).
    assert_eq!(pixel_at(&ctx, 2, 2), ink);
    assert_eq!(pixel_at(&ctx, 1, 1), ink);
    assert_eq!(pixel_at(&ctx, 3, 3), ink);
    assert_eq!(pixel_at(&ctx, 2, 3), ink);
    // On the rim: squared distance equals the squared radius, not drawn.
    assert_eq!(pixel_at(&ctx, 0, 2), Pixel::black());
    assert_eq!(pixel_at(&ctx, 2, 0), Pixel::black());
    assert_eq!(pixel_at(&ctx, 4, 2), Pixel::black());
    // Far corner stays untouched.
    assert_eq!(pixel_at(&ctx, 0, 0), Pixel::black());
}

#[test]
fn fill_circle_with_offscreen_center_clips() {
    let mut ctx = Context::new(4, 2, 0);
    ctx.clear_background(Color::rgb(0, 0, 0));
    ctx.fill_circle(-1, 0, 2, Color::rgb(2, 2, 2));
    let ink = Pixel { r: 2, g: 2, b: 2 };
    assert_eq!(pixel_at(&ctx, 0, 0), ink);
    assert_eq!(pixel_at(&ctx, 0, 1), ink);
    assert_eq!(pixel_at(&ctx, 1, 0), Pixel::black());
    assert_eq!(pixel_at(&ctx, 3, 3), Pixel::black());
}

#[test]
fn fill_triangle_follows_area_rule() {
    let mut ctx = Context::new(6, 3, 0);
    ctx.clear_background(Color::rgb(0, 0, 0));
    ctx.fill_triangle(0, 0, 4, 0, 0, 4, Color::rgb(3, 3, 3));
    let ink = Pixel { r: 3, g: 3, b: 3 };
    // Interior and vertices satisfy the area identity.
    assert_eq!(pixel_at(&ctx, 1, 1), ink);
    assert_eq!(pixel_at(&ctx, 0, 0), ink);
    assert_eq!(pixel_at(&ctx, 4, 0), ink);
    assert_eq!(pixel_at(&ctx, 0, 4), ink);
    // The hypotenuse passes through (2, 2): area sum still matches.
    assert_eq!(pixel_at(&ctx, 2, 2), ink);
    // Outside the triangle the sum overshoots.
    assert_eq!(pixel_at(&ctx, 3, 3), Pixel::black());
    assert_eq!(pixel_at(&ctx, 5, 5), Pixel::black());
    assert_eq!(pixel_at(&ctx, 5, 0), Pixel::black());
}

#[test]
fn degenerate_triangle_paints_its_line() {
    let mut ctx = Context::new(4, 2, 0);
    ctx.clear_background(Color::rgb(0, 0, 0));
    // All three vertices on one horizontal line: total area zero, so the
    // rule paints exactly the points whose three sub-areas are all zero.
    ctx.fill_triangle(0, 1, 2, 1, 3, 1, Color::rgb(4, 4, 4));
    let ink = Pixel { r: 4, g: 4, b: 4 };
    assert_eq!(pixel_at(&ctx, 0, 1), ink);
    assert_eq!(pixel_at(&ctx, 1, 1), ink);
    assert_eq!(pixel_at(&ctx, 3, 1), ink);
    assert_eq!(pixel_at(&ctx, 1, 0), Pixel::black());
}
