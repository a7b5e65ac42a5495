//! The pixel grid: writes, reads, fills and resizes.

use teremder::Color;
use teremder::Pixel;
use teremder::Vec2d;

#[test]
fn set_then_get_returns_written_value() {
    let mut g: Vec2d<u32> = Vec2d::new_with(4, 3, 7);
    g.set(1, 2, 99);
    assert_eq!(*g.get(1, 2), 99);
    assert_eq!(*g.get(0, 2), 7);
    assert_eq!(*g.get(1, 1), 7);
    g.set(0, 0, 5);
    assert_eq!(*g.get(0, 0), 5);
    assert_eq!(*g.get(1, 2), 99);
}

#[test]
fn fill_overwrites_every_cell() {
    let mut g: Vec2d<u32> = Vec2d::new_with(3, 2, 1);
    g.set(2, 1, 42);
    g.fill(8);
    for y in 0..2 {
        for x in 0..3 {
            assert_eq!(*g.get(x, y), 8);
        }
    }
}

#[test]
fn new_fills_with_default() {
    let g: Vec2d<Pixel> = Vec2d::new(2, 2);
    for y in 0..2 {
        for x in 0..2 {
            assert_eq!(*g.get(x, y), Pixel { r: 0, g: 0, b: 0 });
        }
    }
}

#[test]
fn resize_keeps_intersection_and_fills_rest() {
    // Shrink in x while growing in y: the intersection is 2 wide, 3 tall.
    let mut g: Vec2d<u32> = Vec2d::new_with(4, 3, 0);
    for y in 0..3 {
        for x in 0..4 {
            g.set(x, y, (10 * y + x) as u32);
        }
    }
    g.resize_with(2, 5, 77);
    assert_eq!(g.width(), 2);
    assert_eq!(g.height(), 5);
    for y in 0..3 {
        for x in 0..2 {
            assert_eq!(*g.get(x, y), (10 * y + x) as u32);
        }
    }
    for y in 3..5 {
        for x in 0..2 {
            assert_eq!(*g.get(x, y), 77);
        }
    }
}

#[test]
fn resize_grow_both_axes() {
    let mut g: Vec2d<u32> = Vec2d::new_with(2, 2, 1);
    g.set(1, 1, 9);
    g.resize_with(3, 3, 4);
    assert_eq!(*g.get(1, 1), 9);
    assert_eq!(*g.get(0, 0), 1);
    assert_eq!(*g.get(2, 0), 4);
    assert_eq!(*g.get(0, 2), 4);
    assert_eq!(*g.get(2, 2), 4);
}

#[test]
fn resize_with_default_fill() {
    let mut g: Vec2d<Pixel> = Vec2d::new_with(1, 1, Pixel { r: 9, g: 9, b: 9 });
    g.resize(2, 1);
    assert_eq!(*g.get(0, 0), Pixel { r: 9, g: 9, b: 9 });
    assert_eq!(*g.get(1, 0), Pixel { r: 0, g: 0, b: 0 });
}

#[test]
fn clone_copies_cells() {
    let mut g: Vec2d<u32> = Vec2d::new_with(2, 2, 3);
    g.set(0, 1, 11);
    let c = g.clone();
    assert_eq!(*c.get(0, 1), 11);
    assert_eq!(*c.get(1, 0), 3);
    assert_eq!(c.width(), 2);
    assert_eq!(c.height(), 2);
}

#[test]
fn grid_of_colors_holds_alpha() {
    let mut g: Vec2d<Color> = Vec2d::new_with(2, 1, Color::rgba(0, 0, 0, 0));
    g.set(1, 0, Color::rgba(1, 2, 3, 4));
    let c = *g.get(1, 0);
    assert_eq!((c.r, c.g, c.b, c.a), (1, 2, 3, 4));
}
