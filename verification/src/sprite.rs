//! A small off-screen image: a grid of colors the application composes
//! once and blits into the drawing buffer, clipped to the screen.

use vstd::prelude::*;

use crate::Context;
use crate::ContextView;
use crate::color::Color;
use crate::vec2d::Vec2d;
use crate::vec2d::grid_const;

verus! {

/// A sprite: its own grid of colors, blitted pixel by pixel.
pub struct Sprite {
    data: Vec2d<Color>,
}

impl View for Sprite {
    type V = Seq<Seq<Color>>;

    /// The sprite as rows of colors, `self@[y][x]` being the color at
    /// column `x` of row `y`.
    closed spec fn view(&self) -> Seq<Seq<Color>> {
        self.data@
    }
}

impl Sprite {
    /// The backing grid is well-formed.
    pub closed spec fn wf(self) -> bool {
        self.data.wf()
    }

    pub closed spec fn spec_width(self) -> usize {
        self.data.spec_width()
    }

    pub closed spec fn spec_height(self) -> usize {
        self.data.spec_height()
    }

    /// The fully transparent color a fresh sprite is filled with.
    pub open spec fn spec_blank() -> Color {
        Color { r: 0u8, g: 0u8, b: 0u8, a: 0u8 }
    }

    /// A `width` x `height` sprite, fully transparent.
    pub fn new(width: usize, height: usize) -> (s: Sprite)
        requires
            width * height <= usize::MAX,
        ensures
            s.wf(),
            s.spec_width() == width,
            s.spec_height() == height,
            s@ == grid_const(width as int, height as int, Sprite::spec_blank()),
    {
        let data = Vec2d::new_with(width, height, Color::rgba(0, 0, 0, 0));
        Sprite { data }
    }

    /// Overwrites the pixel at `(x, y)`. Out-of-range coordinates are a
    /// caller error.
    pub fn set_pixel(&mut self, x: usize, y: usize, color: Color)
        requires
            old(self).wf(),
            x < old(self).spec_width(),
            y < old(self).spec_height(),
        ensures
            final(self).wf(),
            final(self).spec_width() == old(self).spec_width(),
            final(self).spec_height() == old(self).spec_height(),
            final(self)@ == old(self)@.update(
                y as int,
                old(self)@[y as int].update(x as int, color),
            ),
    {
        self.data.set(x, y, color);
    }

    /// The pixel at `(x, y)`. Out-of-range coordinates are a caller
    /// error.
    pub fn get_pixel(&self, x: usize, y: usize) -> (c: Color)
        requires
            self.wf(),
            x < self.spec_width(),
            y < self.spec_height(),
        ensures
            c == self@[y as int][x as int],
    {
        *self.data.get(x, y)
    }

    /// The sprite's width, in pixels.
    pub fn width(&self) -> (w: usize)
        ensures
            w == self.spec_width(),
    {
        self.data.width()
    }

    /// The sprite's height, in pixels.
    pub fn height(&self) -> (h: usize)
        ensures
            h == self.spec_height(),
    {
        self.data.height()
    }

    /// Resizes the sprite, keeping the overlapping region and filling
    /// newly exposed pixels with transparency.
    pub fn resize(&mut self, width: usize, height: usize)
        requires
            old(self).wf(),
            width * height <= usize::MAX,
        ensures
            final(self).wf(),
            final(self).spec_width() == width,
            final(self).spec_height() == height,
            forall|x: int, y: int|
                0 <= x < width && 0 <= y < height ==> #[trigger] final(self)@[y][x] == (
                if x < old(self).spec_width() && y < old(self).spec_height() {
                    old(self)@[y][x]
                } else {
                    Sprite::spec_blank()
                }),
    {
        self.data.resize_with(width, height, Color::rgba(0, 0, 0, 0));
    }

    /// Blits the sprite into the drawing buffer with its top-left corner
    /// at `(x, y)`, clipped to the screen: every sprite pixel that lands
    /// on the buffer is written (opaquely - alpha is carried but not
    /// blended), and everything outside is silently dropped.
    pub fn draw_with_ctx(&self, ctx: &mut Context, x: usize, y: usize)
        requires
            self.wf(),
            old(ctx).wf(),
            x + self.spec_width() <= usize::MAX,
            y + self.spec_height() <= usize::MAX,
        ensures
            final(ctx).wf(),
            final(ctx).spec_width() == old(ctx).spec_width(),
            final(ctx).spec_height() == old(ctx).spec_height(),
            final(ctx)@ == (ContextView { drawing: final(ctx)@.drawing, ..old(ctx)@ }),
            forall|px: int, py: int|
                0 <= px < old(ctx).spec_width() && 0 <= py < old(ctx).spec_height()
                    ==> #[trigger] final(ctx)@.drawing[py][px] == (
                if x <= px < x + self.spec_width() && y <= py < y + self.spec_height() {
                    self@[py - y][px - x].spec_pixel()
                } else {
                    old(ctx)@.drawing[py][px]
                }),
    {
        let ghost w = ctx.spec_width() as int;
        let ghost h = ctx.spec_height() as int;
        let x_end: usize = x + self.width();
        let y_end: usize = y + self.height();
        let bw: usize = ctx.screen_width();
        let bh: usize = ctx.screen_height();
        let x_hi: usize = if x_end < bw {
            x_end
        } else {
            bw
        };
        let y_hi: usize = if y_end < bh {
            y_end
        } else {
            bh
        };
        let mut px: usize = x;
        while px < x_hi
            invariant
                self.wf(),
                ctx.wf(),
                ctx.spec_width() == old(ctx).spec_width(),
                ctx.spec_height() == old(ctx).spec_height(),
                w == ctx.spec_width() as int,
                h == ctx.spec_height() as int,
                x <= px,
                px <= x_hi || px == x,
                x_hi <= x_end && x_hi <= w,
                y_hi <= y_end && y_hi <= h,
                x_end < w ==> x_hi == x_end,
                x_end >= w ==> x_hi == w,
                y_end < h ==> y_hi == y_end,
                y_end >= h ==> y_hi == h,
                x_end == x + self.spec_width(),
                y_end == y + self.spec_height(),
                ctx@ == (ContextView { drawing: ctx@.drawing, ..old(ctx)@ }),
                forall|qx: int, qy: int|
                    0 <= qx < w && 0 <= qy < h ==> #[trigger] ctx@.drawing[qy][qx] == (
                    if x <= qx < px && y <= qy < y_hi {
                        self@[qy - y][qx - x].spec_pixel()
                    } else {
                        old(ctx)@.drawing[qy][qx]
                    }),
            decreases x_hi - px,
        {
            let mut py: usize = y;
            while py < y_hi
                invariant
                    self.wf(),
                    ctx.wf(),
                    ctx.spec_width() == old(ctx).spec_width(),
                    ctx.spec_height() == old(ctx).spec_height(),
                    w == ctx.spec_width() as int,
                    h == ctx.spec_height() as int,
                    x <= px < x_hi,
                    x_hi <= w,
                    x_hi <= x_end,
                    y <= py,
                    py <= y_hi || py == y,
                    y_hi <= h,
                    y_hi <= y_end,
                    x_end == x + self.spec_width(),
                    y_end == y + self.spec_height(),
                    ctx@ == (ContextView { drawing: ctx@.drawing, ..old(ctx)@ }),
                    forall|qx: int, qy: int|
                        0 <= qx < w && 0 <= qy < h ==> #[trigger] ctx@.drawing[qy][qx] == (
                        if (x <= qx < px && y <= qy < y_hi) || (qx == px && y <= qy < py) {
                            self@[qy - y][qx - x].spec_pixel()
                        } else {
                            old(ctx)@.drawing[qy][qx]
                        }),
                decreases y_hi - py,
            {
                proof {
                    ctx.drawing_buffer.lemma_view_shape();
                }
                let color = self.get_pixel(px - x, py - y);
                ctx.set_pixel(px, py, color);
                proof {
                    ctx.drawing_buffer.lemma_view_shape();
                }
                py = py + 1;
            }
            px = px + 1;
        }
        proof {
            assert forall|qx: int, qy: int|
                0 <= qx < w && 0 <= qy < h implies #[trigger] ctx@.drawing[qy][qx] == (
            if x <= qx < x + self.spec_width() && y <= qy < y + self.spec_height() {
                self@[qy - y][qx - x].spec_pixel()
            } else {
                old(ctx)@.drawing[qy][qx]
            }) by {}
        }
    }
}

} // verus!
