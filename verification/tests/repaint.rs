//! The diff-based repaint: full first paint, idempotence, minimal diffs,
//! and the half-block split of a terminal cell into two pixels.

use teremder::Color;
use teremder::Context;
use teremder::Pixel;

#[test]
fn first_repaint_covers_every_cell() {
    // A 10-column, 5-row terminal: a 10 x 10 pixel surface seeded dirty.
    let mut ctx = Context::new(10, 5, 0);
    let updates = ctx.commit_drawing_buffer_to_display();
    assert_eq!(updates.len(), 50);
    for u in &updates {
        assert_eq!(u.fg, Pixel::black());
        assert_eq!(u.bg, Pixel::black());
    }
    // Scan order: row-major, column fastest.
    assert_eq!((updates[0].x, updates[0].y), (0, 0));
    assert_eq!((updates[9].x, updates[9].y), (9, 0));
    assert_eq!((updates[10].x, updates[10].y), (0, 1));
    assert_eq!((updates[49].x, updates[49].y), (9, 4));
}

#[test]
fn repaint_twice_emits_nothing() {
    let mut ctx = Context::new(8, 4, 0);
    ctx.clear_background(Color::rgb(50, 60, 70));
    let first = ctx.commit_drawing_buffer_to_display();
    assert_eq!(first.len(), 32);
    let second = ctx.commit_drawing_buffer_to_display();
    assert_eq!(second.len(), 0);
}

#[test]
fn single_pixel_changes_one_cell() {
    let mut ctx = Context::new(10, 5, 0);
    ctx.clear_background(Color::rgb(255, 255, 255));
    ctx.commit_drawing_buffer_to_display();
    // Pixel (3, 4) sits in terminal row 2: rows 4 and 5 share that cell,
    // row 4 on top (the foreground of the half-block glyph).
    ctx.set_pixel(3, 4, Color::rgb(230, 41, 55));
    let updates = ctx.commit_drawing_buffer_to_display();
    assert_eq!(updates.len(), 1);
    assert_eq!(updates[0].x, 3);
    assert_eq!(updates[0].y, 2);
    assert_eq!(updates[0].fg, Pixel { r: 230, g: 41, b: 55 });
    assert_eq!(updates[0].bg, Pixel { r: 255, g: 255, b: 255 });
}

#[test]
fn bottom_pixel_lands_in_background() {
    let mut ctx = Context::new(4, 4, 0);
    ctx.clear_background(Color::rgb(0, 0, 0));
    ctx.commit_drawing_buffer_to_display();
    // Pixel row 3 is odd: the bottom half of terminal row 1.
    ctx.set_pixel(2, 3, Color::rgb(1, 1, 1));
    let updates = ctx.commit_drawing_buffer_to_display();
    assert_eq!(updates.len(), 1);
    assert_eq!(updates[0].x, 2);
    assert_eq!(updates[0].y, 1);
    assert_eq!(updates[0].fg, Pixel { r: 0, g: 0, b: 0 });
    assert_eq!(updates[0].bg, Pixel { r: 1, g: 1, b: 1 });
}

#[test]
fn two_pixels_of_one_cell_emit_once() {
    let mut ctx = Context::new(4, 4, 0);
    ctx.clear_background(Color::rgb(0, 0, 0));
    ctx.commit_drawing_buffer_to_display();
    ctx.set_pixel(1, 2, Color::rgb(10, 0, 0));
    ctx.set_pixel(1, 3, Color::rgb(0, 10, 0));
    let updates = ctx.commit_drawing_buffer_to_display();
    assert_eq!(updates.len(), 1);
    assert_eq!((updates[0].x, updates[0].y), (1, 1));
    assert_eq!(updates[0].fg, Pixel { r: 10, g: 0, b: 0 });
    assert_eq!(updates[0].bg, Pixel { r: 0, g: 10, b: 0 });
}

#[test]
fn commit_copies_drawing_to_display() {
    let mut ctx = Context::new(3, 2, 0);
    ctx.clear_background(Color::rgb(9, 8, 7));
    ctx.commit_drawing_buffer_to_display();
    for y in 0..4 {
        for x in 0..3 {
            assert_eq!(*ctx.display_buffer.get(x, y), Pixel { r: 9, g: 8, b: 7 });
        }
    }
}

#[test]
fn resize_reshapes_and_repaints_fully() {
    let mut ctx = Context::new(6, 3, 0);
    ctx.commit_drawing_buffer_to_display();
    let updates = ctx.handle_resize_event(4, 3);
    // 4 columns x 3 rows: every cell repainted black on black.
    assert_eq!(updates.len(), 12);
    for u in &updates {
        assert_eq!(u.fg, Pixel::black());
        assert_eq!(u.bg, Pixel::black());
    }
    assert_eq!(ctx.width(), 4);
    assert_eq!(ctx.height(), 3);
    // The resize already reconciled the buffers.
    let after = ctx.commit_drawing_buffer_to_display();
    assert_eq!(after.len(), 0);
}
