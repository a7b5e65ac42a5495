//! The repaint engine and the drawing primitives. Repaint walks every
//! terminal cell in row-major order, collects an update for each cell whose
//! two stacked pixels differ between the drawing and the display buffer,
//! and then makes the display buffer mirror the drawing buffer. The
//! primitives write pixels into the drawing buffer only.

use vstd::prelude::*;
use vstd::arithmetic::div_mod::lemma_fundamental_div_mod_converse;

use crate::Context;
use crate::ContextView;
use crate::color::Color;
use crate::color::Pixel;
use crate::vec2d::lemma_flat_index_in_range;

verus! {

/// One terminal cell to redraw: move the cursor to column `x`, row `y`,
/// set the foreground to `fg` (the upper pixel) and the background to `bg`
/// (the lower pixel), and print the upper-half-block glyph.
#[derive(Debug, Clone, Copy, PartialEq, Eq, Structural)]
pub struct CellUpdate {
    pub x: u16,
    pub y: u16,
    pub fg: Pixel,
    pub bg: Pixel,
}

/// Whether terminal cell `(x, y)` shows something other than what the
/// drawing buffer asks for: one of its two stacked pixels differs.
pub open spec fn cell_changed(
    drawing: Seq<Seq<Pixel>>,
    display: Seq<Seq<Pixel>>,
    x: int,
    y: int,
) -> bool {
    drawing[2 * y][x] != display[2 * y][x] || drawing[2 * y + 1][x] != display[2 * y + 1][x]
}

/// The update repainting terminal cell `(x, y)` emits: the upper pixel as
/// foreground, the lower as background.
pub open spec fn update_at(drawing: Seq<Seq<Pixel>>, x: int, y: int) -> CellUpdate {
    CellUpdate { x: x as u16, y: y as u16, fg: drawing[2 * y][x], bg: drawing[2 * y + 1][x] }
}

/// The updates emitted for the first `n` terminal cells in row-major scan
/// order over a `w`-column terminal: cell `i` of the scan is column
/// `i % w` of row `i / w`.
pub open spec fn diff_prefix(
    drawing: Seq<Seq<Pixel>>,
    display: Seq<Seq<Pixel>>,
    w: int,
    n: int,
) -> Seq<CellUpdate>
    decreases n,
{
    if n <= 0 {
        Seq::empty()
    } else {
        let i = n - 1;
        diff_prefix(drawing, display, w, i) + (if cell_changed(drawing, display, i % w, i / w) {
            seq![update_at(drawing, i % w, i / w)]
        } else {
            Seq::empty()
        })
    }
}

/// Everything one repaint of a `w` x `th` terminal emits, in scan order.
pub open spec fn repaint_updates(
    drawing: Seq<Seq<Pixel>>,
    display: Seq<Seq<Pixel>>,
    w: int,
    th: int,
) -> Seq<CellUpdate> {
    diff_prefix(drawing, display, w, w * th)
}

/// Whether pixel `(px, py)` lies strictly inside the disk of center
/// `(cx, cy)` and the given radius.
pub open spec fn in_circle(cx: int, cy: int, radius: int, px: int, py: int) -> bool {
    (px - cx) * (px - cx) + (py - cy) * (py - cy) < radius * radius
}

/// Twice the unsigned area of the triangle with the given vertices.
pub open spec fn tri_area2(x1: int, y1: int, x2: int, y2: int, x3: int, y3: int) -> int {
    vstd::math::abs(x1 * (y2 - y3) + x2 * (y3 - y1) + x3 * (y1 - y2)) as int
}

/// Whether pixel `(px, py)` passes the signed-area-sum inclusion rule: the
/// three triangles it forms with the edges have areas summing to the whole
/// triangle's area.
pub open spec fn in_triangle(
    x1: int,
    y1: int,
    x2: int,
    y2: int,
    x3: int,
    y3: int,
    px: int,
    py: int,
) -> bool {
    tri_area2(x1, y1, x2, y2, x3, y3) == tri_area2(px, py, x2, y2, x3, y3) + tri_area2(
        x1,
        y1,
        px,
        py,
        x3,
        y3,
    ) + tri_area2(x1, y1, x2, y2, px, py)
}

/// A value bounded in magnitude has a square bounded by the bound's
/// square.
proof fn lemma_square_bound(a: int, b: int)
    by (nonlinear_arith)
    requires
        -b <= a <= b,
        0 <= b,
    ensures
        0 <= a * a <= b * b,
{
}

/// The product of two magnitude-bounded values is magnitude-bounded by the
/// product of the bounds.
proof fn lemma_mul_bound(a: int, b: int, ba: int, bb: int)
    by (nonlinear_arith)
    requires
        -ba <= a <= ba,
        -bb <= b <= bb,
        0 <= ba,
        0 <= bb,
    ensures
        -(ba * bb) <= a * b <= ba * bb,
{
}

/// Twice the unsigned triangle area, as executable code.
fn tri_area2_of(x1: i32, y1: i32, x2: i32, y2: i32, x3: i32, y3: i32) -> (a: i128)
    ensures
        a == tri_area2(x1 as int, y1 as int, x2 as int, y2 as int, x3 as int, y3 as int),
        0 <= a <= 0x6000_0000_0000_0000_0000,
{
    proof {
        lemma_mul_bound(x1 as int, y2 - y3, 0x8000_0000, 0x1_0000_0000);
        lemma_mul_bound(x2 as int, y3 - y1, 0x8000_0000, 0x1_0000_0000);
        lemma_mul_bound(x3 as int, y1 - y2, 0x8000_0000, 0x1_0000_0000);
    }
    let t: i128 = (x1 as i128) * ((y2 as i128) - (y3 as i128)) + (x2 as i128) * ((y3 as i128)
        - (y1 as i128)) + (x3 as i128) * ((y1 as i128) - (y2 as i128));
    if t < 0 {
        -t
    } else {
        t
    }
}

/// Unfolds one scan step: the updates for `n + 1` cells are those for `n`
/// cells, plus the cell at scan position `n` when it changed.
proof fn lemma_diff_prefix_step(
    drawing: Seq<Seq<Pixel>>,
    display: Seq<Seq<Pixel>>,
    w: int,
    n: int,
)
    requires
        n >= 0,
    ensures
        diff_prefix(drawing, display, w, n + 1) == diff_prefix(drawing, display, w, n) + (
        if cell_changed(drawing, display, n % w, n / w) {
            seq![update_at(drawing, n % w, n / w)]
        } else {
            Seq::empty()
        }),
{
}

/// Repaint idempotence: a repaint whose display buffer already mirrors
/// the drawing buffer emits no updates. A second repaint right after a
/// commit, with no drawing writes in between, therefore emits zero cell
/// updates.
pub proof fn lemma_repaint_idempotent(g: Seq<Seq<Pixel>>, w: int, th: int)
    ensures
        repaint_updates(g, g, w, th) == Seq::<CellUpdate>::empty(),
{
    lemma_diff_prefix_same(g, w, w * th);
}

/// No scan prefix over identical buffers collects an update.
proof fn lemma_diff_prefix_same(g: Seq<Seq<Pixel>>, w: int, n: int)
    ensures
        diff_prefix(g, g, w, n) == Seq::<CellUpdate>::empty(),
    decreases n,
{
    if n <= 0 {
    } else {
        lemma_diff_prefix_same(g, w, n - 1);
        assert(diff_prefix(g, g, w, n) =~= Seq::<CellUpdate>::empty());
    }
}

/// A nonnegative value below `d * q` divides by `d` to something below
/// `q`.
proof fn lemma_div_below(x: int, d: int, q: int)
    requires
        0 <= x,
        0 < d,
        x < d * q,
    ensures
        0 <= x / d < q,
{
    vstd::arithmetic::div_mod::lemma_fundamental_div_mod(x, d);
    vstd::arithmetic::div_mod::lemma_mod_division_less_than_divisor(x, d);
    if x / d < 0 {
        assert(d * (x / d) <= -d) by (nonlinear_arith)
            requires
                0 < d,
                x / d <= -1,
        ;
    }
    if x / d >= q {
        assert(d * (x / d) >= d * q) by (nonlinear_arith)
            requires
                0 < d,
                x / d >= q,
        ;
    }
}

/// Repaint diff minimality: when exactly one terminal cell differs, the
/// scan prefix holds exactly that cell's update once it has passed it,
/// and nothing before.
proof fn lemma_diff_prefix_single(
    dw: Seq<Seq<Pixel>>,
    dp: Seq<Seq<Pixel>>,
    w: int,
    th: int,
    n: int,
    cx: int,
    cy: int,
)
    requires
        w > 0,
        0 <= n <= w * th,
        0 <= cx < w,
        0 <= cy < th,
        forall|x: int, y: int|
            0 <= x < w && 0 <= y < th ==> (cell_changed(dw, dp, x, y) <==> (x == cx && y == cy)),
    ensures
        diff_prefix(dw, dp, w, n) == (if cy * w + cx < n {
            seq![update_at(dw, cx, cy)]
        } else {
            Seq::<CellUpdate>::empty()
        }),
    decreases n,
{
    if n <= 0 {
    } else {
        let i = n - 1;
        lemma_diff_prefix_single(dw, dp, w, th, i, cx, cy);
        let x = i % w;
        let y = i / w;
        vstd::arithmetic::div_mod::lemma_fundamental_div_mod(i, w);
        vstd::arithmetic::div_mod::lemma_mod_division_less_than_divisor(i, w);
        lemma_div_below(i, w, th);
        if x == cx && y == cy {
            assert(w * y == y * w) by (nonlinear_arith);
            assert(i == cy * w + cx);
            assert(diff_prefix(dw, dp, w, n) =~= seq![update_at(dw, cx, cy)]);
        } else {
            assert(i != cy * w + cx) by {
                if i == cy * w + cx {
                    lemma_fundamental_div_mod_converse(i, w, cy, cx);
                }
            }
            assert(diff_prefix(dw, dp, w, n) =~= diff_prefix(dw, dp, w, i));
        }
    }
}

/// Repaint diff minimality: when exactly one pixel of the drawing buffer
/// differs from the display buffer, the repaint emits exactly one cell
/// update — the one for the terminal cell holding that pixel.
pub proof fn lemma_repaint_minimal(
    dw: Seq<Seq<Pixel>>,
    dp: Seq<Seq<Pixel>>,
    w: int,
    th: int,
    px: int,
    py: int,
)
    requires
        w > 0,
        th > 0,
        0 <= px < w,
        0 <= py < 2 * th,
        dw[py][px] != dp[py][px],
        forall|x: int, y: int|
            0 <= x < w && 0 <= y < 2 * th && !(x == px && y == py) ==> #[trigger] dw[y][x]
                == #[trigger] dp[y][x],
    ensures
        repaint_updates(dw, dp, w, th) == seq![update_at(dw, px, py / 2)],
        repaint_updates(dw, dp, w, th).len() == 1,
{
    let cy = py / 2;
    assert(py == 2 * cy || py == 2 * cy + 1);
    assert forall|x: int, y: int| 0 <= x < w && 0 <= y < th implies (cell_changed(dw, dp, x, y)
        <==> (x == px && y == cy)) by {
        if cell_changed(dw, dp, x, y) {
            if dw[2 * y][x] != dp[2 * y][x] {
                assert(x == px && 2 * y == py);
            } else {
                assert(x == px && 2 * y + 1 == py);
            }
        }
        if x == px && y == cy {
            assert(dw[py][px] != dp[py][px]);
        }
    }
    lemma_diff_prefix_single(dw, dp, w, th, w * th, px, cy);
    assert(cy * w + px < w * th) by (nonlinear_arith)
        requires
            0 <= px < w,
            0 <= cy < th,
    ;
}

impl Context {
    /// The repaint: scans every terminal cell, emits an update for each
    /// cell whose two stacked drawing-buffer pixels differ from the
    /// display buffer, then copies the drawing buffer over the display
    /// buffer. The caller draws the returned updates in order and flushes
    /// once.
    pub fn commit_drawing_buffer_to_display(&mut self) -> (updates: Vec<CellUpdate>)
        requires
            old(self).wf(),
        ensures
            final(self).wf(),
            final(self).spec_width() == old(self).spec_width(),
            final(self).spec_height() == old(self).spec_height(),
            final(self)@ == (ContextView { display: old(self)@.drawing, ..old(self)@ }),
            updates@ == repaint_updates(
                old(self)@.drawing,
                old(self)@.display,
                old(self).spec_width() as int,
                old(self).spec_height() as int / 2,
            ),
    {
        let ghost dw = self@.drawing;
        let ghost dp = self@.display;
        let w: usize = self.drawing_buffer.width();
        let th: usize = self.drawing_buffer.height() / 2;
        let mut updates: Vec<CellUpdate> = Vec::new();
        let mut y: usize = 0;
        proof {
            self.drawing_buffer.lemma_size_bound();
            assert(w as int * th as int <= w as int * (2 * th as int)) by (nonlinear_arith)
                requires
                    0 <= w,
                    0 <= th,
            ;
        }
        while y < th
            invariant
                self == old(self),
                self.wf(),
                dw == self@.drawing,
                dp == self@.display,
                w == self.spec_width(),
                th == self.spec_height() as int / 2,
                y <= th,
                w * th <= usize::MAX,
                updates@ == diff_prefix(dw, dp, w as int, y * w),
            decreases th - y,
        {
            let mut x: usize = 0;
            while x < w
                invariant
                    self == old(self),
                    self.wf(),
                    dw == self@.drawing,
                    dp == self@.display,
                    w == self.spec_width(),
                    th == self.spec_height() as int / 2,
                    y < th,
                    x <= w,
                    w * th <= usize::MAX,
                    updates@ == diff_prefix(dw, dp, w as int, y * w + x),
                decreases w - x,
            {
                proof {
                    lemma_flat_index_in_range(x as int, y as int, w as int, th as int);
                }
                let fg = *self.drawing_buffer.get(x, 2 * y);
                let bg = *self.drawing_buffer.get(x, 2 * y + 1);
                let dfg = *self.display_buffer.get(x, 2 * y);
                let dbg = *self.display_buffer.get(x, 2 * y + 1);
                let ghost n = y * w + x;
                proof {
                    lemma_fundamental_div_mod_converse(n as int, w as int, y as int, x as int);
                    lemma_diff_prefix_step(dw, dp, w as int, n as int);
                }
                if !(fg == dfg && bg == dbg) {
                    updates.push(CellUpdate { x: x as u16, y: y as u16, fg, bg });
                    proof {
                        assert(cell_changed(dw, dp, x as int, y as int));
                        assert(updates@ =~= diff_prefix(dw, dp, w as int, n + 1));
                    }
                } else {
                    proof {
                        assert(!cell_changed(dw, dp, x as int, y as int));
                        assert(updates@ =~= diff_prefix(dw, dp, w as int, n + 1));
                    }
                }
                x = x + 1;
            }
            proof {
                assert((y as int + 1) * (w as int) == y as int * (w as int) + w as int)
                    by (nonlinear_arith);
            }
            y = y + 1;
        }
        proof {
            assert(y * w == w as int * (th as int)) by (nonlinear_arith)
                requires
                    y == th,
            ;
        }
        self.display_buffer = self.drawing_buffer.clone();
        updates
    }

    /// Writes one pixel of the drawing buffer. Out-of-range coordinates
    /// are a caller error; the color's alpha channel is dropped.
    pub fn set_pixel(&mut self, x: usize, y: usize, color: Color)
        requires
            old(self).wf(),
            x < old(self).spec_width(),
            y < old(self).spec_height(),
        ensures
            final(self).wf(),
            final(self).spec_width() == old(self).spec_width(),
            final(self).spec_height() == old(self).spec_height(),
            final(self)@ == (ContextView {
                drawing: old(self)@.drawing.update(
                    y as int,
                    old(self)@.drawing[y as int].update(x as int, color.spec_pixel()),
                ),
                ..old(self)@
            }),
    {
        let p = color.pixel();
        self.drawing_buffer.set(x, y, p);
    }

    /// Fills the axis-aligned rectangle with corner `(x, y)` and the given
    /// extent, clipped to the buffer: the part outside the buffer is
    /// silently dropped, never an error.
    pub fn fill_rect(&mut self, x: usize, y: usize, width: usize, height: usize, color: Color)
        requires
            old(self).wf(),
            x + width <= usize::MAX,
            y + height <= usize::MAX,
        ensures
            final(self).wf(),
            final(self).spec_width() == old(self).spec_width(),
            final(self).spec_height() == old(self).spec_height(),
            final(self)@ == (ContextView { drawing: final(self)@.drawing, ..old(self)@ }),
            forall|cx: int, cy: int|
                0 <= cx < old(self).spec_width() && 0 <= cy < old(self).spec_height()
                    ==> #[trigger] final(self)@.drawing[cy][cx] == (
                if x <= cx < x + width && y <= cy < y + height {
                    color.spec_pixel()
                } else {
                    old(self)@.drawing[cy][cx]
                }),
    {
        let ghost w = self.spec_width() as int;
        let ghost h = self.spec_height() as int;
        let x_end: usize = x + width;
        let y_end: usize = y + height;
        let bw: usize = self.drawing_buffer.width();
        let bh: usize = self.drawing_buffer.height();
        let x_hi: usize = if x_end < bw {
            x_end
        } else {
            bw
        };
        let y_hi: usize = if y_end < bh {
            y_end
        } else {
            bh
        };
        let mut cx: usize = x;
        while cx < x_hi
            invariant
                self.wf(),
                self.spec_width() == old(self).spec_width(),
                self.spec_height() == old(self).spec_height(),
                w == self.spec_width() as int,
                h == self.spec_height() as int,
                x <= cx,
                cx <= x_hi || cx == x,
                x_hi <= x_end && x_hi <= w,
                y_hi <= y_end && y_hi <= h,
                x_end < w ==> x_hi == x_end,
                x_end >= w ==> x_hi == w,
                y_end < h ==> y_hi == y_end,
                y_end >= h ==> y_hi == h,
                x_end == x + width,
                y_end == y + height,
                self@ == (ContextView { drawing: self@.drawing, ..old(self)@ }),
                forall|px: int, py: int|
                    0 <= px < w && 0 <= py < h ==> #[trigger] self@.drawing[py][px] == (
                    if x <= px < cx && y <= py < y_hi {
                        color.spec_pixel()
                    } else {
                        old(self)@.drawing[py][px]
                    }),
            decreases x_hi - cx,
        {
            let mut cy: usize = y;
            while cy < y_hi
                invariant
                    self.wf(),
                    self.spec_width() == old(self).spec_width(),
                    self.spec_height() == old(self).spec_height(),
                    w == self.spec_width() as int,
                    h == self.spec_height() as int,
                    x <= cx < x_hi,
                    x_hi <= w,
                    y <= cy,
                    cy <= y_hi || cy == y,
                    y_hi <= h,
                    self@ == (ContextView { drawing: self@.drawing, ..old(self)@ }),
                    forall|px: int, py: int|
                        0 <= px < w && 0 <= py < h ==> #[trigger] self@.drawing[py][px] == (
                        if (x <= px < cx && y <= py < y_hi) || (px == cx && y <= py < cy) {
                            color.spec_pixel()
                        } else {
                            old(self)@.drawing[py][px]
                        }),
                decreases y_hi - cy,
            {
                proof {
                    self.drawing_buffer.lemma_view_shape();
                }
                self.set_pixel(cx, cy, color);
                proof {
                    self.drawing_buffer.lemma_view_shape();
                }
                cy = cy + 1;
            }
            cx = cx + 1;
        }
        proof {
            assert forall|px: int, py: int|
                0 <= px < w && 0 <= py < h implies #[trigger] self@.drawing[py][px] == (
            if x <= px < x + width && y <= py < y + height {
                color.spec_pixel()
            } else {
                old(self)@.drawing[py][px]
            }) by {}
        }
    }

    /// Fills the disk of the given center and radius: writes every
    /// drawing-buffer pixel whose squared distance to the center is below
    /// the squared radius, testing every buffer cell.
    pub fn fill_circle(&mut self, cx: i32, cy: i32, radius: i32, color: Color)
        requires
            old(self).wf(),
        ensures
            final(self).wf(),
            final(self).spec_width() == old(self).spec_width(),
            final(self).spec_height() == old(self).spec_height(),
            final(self)@ == (ContextView { drawing: final(self)@.drawing, ..old(self)@ }),
            forall|px: int, py: int|
                0 <= px < old(self).spec_width() && 0 <= py < old(self).spec_height()
                    ==> #[trigger] final(self)@.drawing[py][px] == (
                if in_circle(cx as int, cy as int, radius as int, px, py) {
                    color.spec_pixel()
                } else {
                    old(self)@.drawing[py][px]
                }),
    {
        let ghost w = self.spec_width() as int;
        let ghost h = self.spec_height() as int;
        let bw: usize = self.drawing_buffer.width();
        let bh: usize = self.drawing_buffer.height();
        proof {
            lemma_square_bound(radius as int, 0x8000_0000);
        }
        let rr: i128 = (radius as i128) * (radius as i128);
        let mut mx: usize = 0;
        while mx < bw
            invariant
                self.wf(),
                self.spec_width() == old(self).spec_width(),
                self.spec_height() == old(self).spec_height(),
                w == self.spec_width() as int,
                h == self.spec_height() as int,
                bw == w,
                bh == h,
                mx <= bw,
                rr == (radius as int) * (radius as int),
                self@ == (ContextView { drawing: self@.drawing, ..old(self)@ }),
                forall|px: int, py: int|
                    0 <= px < w && 0 <= py < h ==> #[trigger] self@.drawing[py][px] == (
                    if px < mx && in_circle(cx as int, cy as int, radius as int, px, py) {
                        color.spec_pixel()
                    } else {
                        old(self)@.drawing[py][px]
                    }),
            decreases bw - mx,
        {
            let mut my: usize = 0;
            while my < bh
                invariant
                    self.wf(),
                    self.spec_width() == old(self).spec_width(),
                    self.spec_height() == old(self).spec_height(),
                    w == self.spec_width() as int,
                    h == self.spec_height() as int,
                    bw == w,
                    bh == h,
                    mx < bw,
                    my <= bh,
                    rr == (radius as int) * (radius as int),
                    self@ == (ContextView { drawing: self@.drawing, ..old(self)@ }),
                    forall|px: int, py: int|
                        0 <= px < w && 0 <= py < h ==> #[trigger] self@.drawing[py][px] == (
                        if (px < mx || (px == mx && py < my)) && in_circle(
                            cx as int,
                            cy as int,
                            radius as int,
                            px,
                            py,
                        ) {
                            color.spec_pixel()
                        } else {
                            old(self)@.drawing[py][px]
                        }),
                decreases bh - my,
            {
                let dx: i128 = (mx as i128) - (cx as i128);
                let dy: i128 = (my as i128) - (cy as i128);
                proof {
                    lemma_square_bound(dx as int, 0x1_0000_0000);
                    lemma_square_bound(dy as int, 0x1_0000_0000);
                    self.drawing_buffer.lemma_view_shape();
                }
                if dx * dx + dy * dy < rr {
                    self.set_pixel(mx, my, color);
                    proof {
                        self.drawing_buffer.lemma_view_shape();
                    }
                }
                my = my + 1;
            }
            mx = mx + 1;
        }
    }

    /// Fills the triangle with the given vertices: a pixel is written when
    /// the areas of the three triangles it forms with the edges sum to the
    /// whole triangle's area, testing every buffer cell. Pixels right on
    /// an edge follow this area rule, a deliberate approximation kept from
    /// the signed-area method.
    pub fn fill_triangle(
        &mut self,
        x1: i32,
        y1: i32,
        x2: i32,
        y2: i32,
        x3: i32,
        y3: i32,
        color: Color,
    )
        requires
            old(self).wf(),
        ensures
            final(self).wf(),
            final(self).spec_width() == old(self).spec_width(),
            final(self).spec_height() == old(self).spec_height(),
            final(self)@ == (ContextView { drawing: final(self)@.drawing, ..old(self)@ }),
            forall|px: int, py: int|
                0 <= px < old(self).spec_width() && 0 <= py < old(self).spec_height()
                    ==> #[trigger] final(self)@.drawing[py][px] == (
                if in_triangle(
                    x1 as int,
                    y1 as int,
                    x2 as int,
                    y2 as int,
                    x3 as int,
                    y3 as int,
                    px,
                    py,
                ) {
                    color.spec_pixel()
                } else {
                    old(self)@.drawing[py][px]
                }),
    {
        let ghost w = self.spec_width() as int;
        let ghost h = self.spec_height() as int;
        let bw: usize = self.drawing_buffer.width();
        let bh: usize = self.drawing_buffer.height();
        let a = tri_area2_of(x1, y1, x2, y2, x3, y3);
        let mut mx: usize = 0;
        while mx < bw
            invariant
                self.wf(),
                self.spec_width() == old(self).spec_width(),
                self.spec_height() == old(self).spec_height(),
                w == self.spec_width() as int,
                h == self.spec_height() as int,
                bw == w,
                bh == h,
                mx <= bw,
                a == tri_area2(x1 as int, y1 as int, x2 as int, y2 as int, x3 as int, y3 as int),
                self@ == (ContextView { drawing: self@.drawing, ..old(self)@ }),
                forall|px: int, py: int|
                    0 <= px < w && 0 <= py < h ==> #[trigger] self@.drawing[py][px] == (
                    if px < mx && in_triangle(
                        x1 as int,
                        y1 as int,
                        x2 as int,
                        y2 as int,
                        x3 as int,
                        y3 as int,
                        px,
                        py,
                    ) {
                        color.spec_pixel()
                    } else {
                        old(self)@.drawing[py][px]
                    }),
            decreases bw - mx,
        {
            let mut my: usize = 0;
            while my < bh
                invariant
                    self.wf(),
                    self.spec_width() == old(self).spec_width(),
                    self.spec_height() == old(self).spec_height(),
                    w == self.spec_width() as int,
                    h == self.spec_height() as int,
                    bw == w,
                    bh == h,
                    mx < bw,
                    my <= bh,
                    a == tri_area2(
                        x1 as int,
                        y1 as int,
                        x2 as int,
                        y2 as int,
                        x3 as int,
                        y3 as int,
                    ),
                    self@ == (ContextView { drawing: self@.drawing, ..old(self)@ }),
                    forall|px: int, py: int|
                        0 <= px < w && 0 <= py < h ==> #[trigger] self@.drawing[py][px] == (
                        if (px < mx || (px == mx && py < my)) && in_triangle(
                            x1 as int,
                            y1 as int,
                            x2 as int,
                            y2 as int,
                            x3 as int,
                            y3 as int,
                            px,
                            py,
                        ) {
                            color.spec_pixel()
                        } else {
                            old(self)@.drawing[py][px]
                        }),
                decreases bh - my,
            {
                let px: i32 = mx as i32;
                let py: i32 = my as i32;
                let b = tri_area2_of(px, py, x2, y2, x3, y3);
                let c = tri_area2_of(x1, y1, px, py, x3, y3);
                let d = tri_area2_of(x1, y1, x2, y2, px, py);
                proof {
                    self.drawing_buffer.lemma_view_shape();
                }
                if a == b + c + d {
                    self.set_pixel(mx, my, color);
                    proof {
                        self.drawing_buffer.lemma_view_shape();
                    }
                }
                my = my + 1;
            }
            mx = mx + 1;
        }
    }

    /// Overwrites every drawing-buffer pixel with the color.
    pub fn clear_background(&mut self, color: Color)
        requires
            old(self).wf(),
        ensures
            final(self).wf(),
            final(self).spec_width() == old(self).spec_width(),
            final(self).spec_height() == old(self).spec_height(),
            final(self)@ == (ContextView {
                drawing: crate::vec2d::grid_const(
                    old(self).spec_width() as int,
                    old(self).spec_height() as int,
                    color.spec_pixel(),
                ),
                ..old(self)@
            }),
    {
        let p = color.pixel();
        self.drawing_buffer.fill(p);
    }
}

} // verus!
