//! A dense, resizable two-dimensional array over a flat row-major backing
//! vector. `get`/`set` fail fast on out-of-range coordinates (their bounds
//! are preconditions); `resize_with` keeps the overlapping region and fills
//! every newly exposed cell with a caller-supplied value.

use vstd::prelude::*;

verus! {

/// A `width` x `height` grid stored row-major: cell `(x, y)` lives at flat
/// index `y * width + x`.
pub struct Vec2d<T> {
    data: Vec<T>,
    width: usize,
    height: usize,
}

impl<T> View for Vec2d<T> {
    type V = Seq<Seq<T>>;

    /// The grid as a sequence of rows, each row a sequence of cells, so
    /// that `self@[y][x]` is the cell at column `x` of row `y`.
    closed spec fn view(&self) -> Seq<Seq<T>> {
        Seq::new(
            self.height as nat,
            |y: int| Seq::new(self.width as nat, |x: int| self.data@[y * self.width + x]),
        )
    }
}

impl<T> Vec2d<T> {
    /// The backing vector holds exactly one cell per coordinate, and the
    /// cell count fits the platform's vector length.
    pub closed spec fn wf(self) -> bool {
        self.data@.len() == self.width * self.height && self.width * self.height <= usize::MAX
    }

    pub closed spec fn spec_width(self) -> usize {
        self.width
    }

    pub closed spec fn spec_height(self) -> usize {
        self.height
    }

    /// A well-formed grid's cell count fits the platform's vector length.
    pub proof fn lemma_size_bound(self)
        requires
            self.wf(),
        ensures
            self.spec_width() * self.spec_height() <= usize::MAX,
    {
    }

    /// The view has one row per `height` and one cell per `width` in each
    /// row.
    pub proof fn lemma_view_shape(self)
        ensures
            self@.len() == self.spec_height(),
            forall|y: int|
                0 <= y < self.spec_height() ==> (#[trigger] self@[y]).len() == self.spec_width(),
    {
    }

    pub fn width(&self) -> (w: usize)
        ensures
            w == self.spec_width(),
    {
        self.width
    }

    pub fn height(&self) -> (h: usize)
        ensures
            h == self.spec_height(),
    {
        self.height
    }

    /// The cell at `(x, y)`. Out-of-range coordinates are a caller error.
    pub fn get(&self, x: usize, y: usize) -> (v: &T)
        requires
            self.wf(),
            x < self.spec_width(),
            y < self.spec_height(),
        ensures
            *v == self@[y as int][x as int],
    {
        proof {
            lemma_flat_index_in_range(x as int, y as int, self.width as int, self.height as int);
        }
        &self.data[y * self.width + x]
    }

    /// Overwrites the cell at `(x, y)`. Out-of-range coordinates are a
    /// caller error.
    pub fn set(&mut self, x: usize, y: usize, value: T)
        requires
            old(self).wf(),
            x < old(self).spec_width(),
            y < old(self).spec_height(),
        ensures
            final(self).wf(),
            final(self).spec_width() == old(self).spec_width(),
            final(self).spec_height() == old(self).spec_height(),
            final(self)@ == old(self)@.update(
                y as int,
                old(self)@[y as int].update(x as int, value),
            ),
    {
        proof {
            lemma_flat_index_in_range(x as int, y as int, self.width as int, self.height as int);
        }
        let i = y * self.width + x;
        self.data.set(i, value);
        proof {
            assert forall|ry: int| 0 <= ry < self.height implies #[trigger] self@[ry]
                == old(self)@.update(y as int, old(self)@[y as int].update(x as int, value))[ry] by {
                lemma_rows_agree_but_one(*old(self), *self, ry, y as int, x as int);
            }
            assert(self@ =~= old(self)@.update(
                y as int,
                old(self)@[y as int].update(x as int, value),
            ));
        }
    }
}

impl<T: Copy> Vec2d<T> {
    /// A `width` x `height` grid with every cell holding `value`.
    pub fn new_with(width: usize, height: usize, value: T) -> (g: Vec2d<T>)
        requires
            width * height <= usize::MAX,
        ensures
            g.wf(),
            g.spec_width() == width,
            g.spec_height() == height,
            g@ == grid_const(width as int, height as int, value),
    {
        let n = width * height;
        let mut data: Vec<T> = Vec::new();
        let mut i: usize = 0;
        while i < n
            invariant
                i <= n,
                data@.len() == i,
                forall|j: int| 0 <= j < i ==> data@[j] == value,
            decreases n - i,
        {
            data.push(value);
            i = i + 1;
        }
        let g = Vec2d { data, width, height };
        proof {
            assert forall|y: int| 0 <= y < height implies #[trigger] g@[y]
                == grid_const(width as int, height as int, value)[y] by {
                assert forall|x: int| 0 <= x < width implies #[trigger] g@[y][x] == value by {
                    lemma_flat_index_in_range(x, y, width as int, height as int);
                }
                assert(g@[y] =~= grid_const(width as int, height as int, value)[y]);
            }
            assert(g@ =~= grid_const(width as int, height as int, value));
        }
        g
    }

    /// Overwrites every cell with `value`.
    pub fn fill(&mut self, value: T)
        requires
            old(self).wf(),
        ensures
            final(self).wf(),
            final(self).spec_width() == old(self).spec_width(),
            final(self).spec_height() == old(self).spec_height(),
            final(self)@ == grid_const(
                old(self).spec_width() as int,
                old(self).spec_height() as int,
                value,
            ),
    {
        let n = self.data.len();
        let mut i: usize = 0;
        while i < n
            invariant
                i <= n,
                self.data@.len() == n,
                self.width == old(self).width,
                self.height == old(self).height,
                forall|j: int| 0 <= j < i ==> self.data@[j] == value,
            decreases n - i,
        {
            self.data.set(i, value);
            i = i + 1;
        }
        proof {
            let w = self.width as int;
            let h = self.height as int;
            assert forall|y: int| 0 <= y < h implies #[trigger] self@[y]
                == grid_const(w, h, value)[y] by {
                assert forall|x: int| 0 <= x < w implies #[trigger] self@[y][x] == value by {
                    lemma_flat_index_in_range(x, y, w, h);
                }
                assert(self@[y] =~= grid_const(w, h, value)[y]);
            }
            assert(self@ =~= grid_const(w, h, value));
        }
    }

    /// Replaces the grid with a fresh `width` x `height` one: every cell in
    /// the intersection of the old and new dimensions keeps its old value,
    /// and every cell outside it takes `value` - also when one axis shrinks
    /// while the other grows.
    pub fn resize_with(&mut self, width: usize, height: usize, value: T)
        requires
            old(self).wf(),
            width * height <= usize::MAX,
        ensures
            final(self).wf(),
            final(self).spec_width() == width,
            final(self).spec_height() == height,
            forall|x: int, y: int|
                0 <= x < width && 0 <= y < height ==> #[trigger] final(self)@[y][x] == (
                if x < old(self).spec_width() && y < old(self).spec_height() {
                    old(self)@[y][x]
                } else {
                    value
                }),
    {
        let ghost old_grid = self@;
        let ghost ow = self.width as int;
        let ghost oh = self.height as int;
        let mut new: Vec2d<T> = Vec2d::new_with(width, height, value);
        let mut x: usize = 0;
        while x < width
            invariant
                x <= width,
                self == old(self),
                self.wf(),
                ow == self.spec_width() as int,
                oh == self.spec_height() as int,
                old_grid == self@,
                new.wf(),
                new.spec_width() == width,
                new.spec_height() == height,
                forall|cx: int, cy: int|
                    0 <= cx < width && 0 <= cy < height ==> #[trigger] new@[cy][cx] == (
                    if cx < x && cx < ow && cy < oh {
                        old_grid[cy][cx]
                    } else {
                        value
                    }),
            decreases width - x,
        {
            if x < self.width {
                let mut y: usize = 0;
                while y < height
                    invariant
                        y <= height,
                        x < width,
                        x < self.width,
                        self == old(self),
                        self.wf(),
                        ow == self.spec_width() as int,
                        oh == self.spec_height() as int,
                        old_grid == self@,
                        new.wf(),
                        new.spec_width() == width,
                        new.spec_height() == height,
                        forall|cx: int, cy: int|
                            0 <= cx < width && 0 <= cy < height ==> #[trigger] new@[cy][cx] == (
                            if (cx < x && cx < ow && cy < oh) || (cx == x && cy < y && cy < oh) {
                                old_grid[cy][cx]
                            } else {
                                value
                            }),
                    decreases height - y,
                {
                    if y < self.height {
                        let v = *self.get(x, y);
                        new.set(x, y, v);
                    }
                    y = y + 1;
                }
            }
            x = x + 1;
        }
        *self = new;
    }

}

impl<T: Copy> Clone for Vec2d<T> {
    /// A cell-for-cell copy of the grid.
    fn clone(&self) -> (g: Vec2d<T>)
        ensures
            self.wf() ==> g.wf() && g.spec_width() == self.spec_width() && g.spec_height()
                == self.spec_height() && g@ == self@,
    {
        let mut data: Vec<T> = Vec::new();
        let n = self.data.len();
        let mut i: usize = 0;
        while i < n
            invariant
                i <= n,
                n == self.data@.len(),
                data@.len() == i,
                forall|j: int| 0 <= j < i ==> data@[j] == self.data@[j],
            decreases n - i,
        {
            data.push(self.data[i]);
            i = i + 1;
        }
        proof {
            assert(data@ =~= self.data@);
        }
        let g = Vec2d { data, width: self.width, height: self.height };
        proof {
            if self.wf() {
                assert(g@ =~= self@);
            }
        }
        g
    }
}

impl<T: Default + Copy> Vec2d<T> {
    /// A `width` x `height` grid with every cell holding the element
    /// type's default value.
    pub fn new(width: usize, height: usize) -> (g: Vec2d<T>)
        requires
            width * height <= usize::MAX,
        ensures
            g.wf(),
            g.spec_width() == width,
            g.spec_height() == height,
            exists|d: T|
                call_ensures(T::default, (), d) && g@ == #[trigger] grid_const(
                    width as int,
                    height as int,
                    d,
                ),
    {
        let d = T::default();
        Vec2d::new_with(width, height, d)
    }

    /// `resize_with`, filling newly exposed cells with the element type's
    /// default value.
    pub fn resize(&mut self, width: usize, height: usize)
        requires
            old(self).wf(),
            width * height <= usize::MAX,
        ensures
            final(self).wf(),
            final(self).spec_width() == width,
            final(self).spec_height() == height,
            forall|x: int, y: int|
                0 <= x < width && 0 <= y < height && x < old(self).spec_width() && y < old(
                    self,
                ).spec_height() ==> #[trigger] final(self)@[y][x] == old(self)@[y][x],
            exists|d: T|
                call_ensures(T::default, (), d) && (forall|x: int, y: int|
                    0 <= x < width && 0 <= y < height && !(x < old(self).spec_width() && y < old(
                        self,
                    ).spec_height()) ==> #[trigger] final(self)@[y][x] == d),
    {
        let d = T::default();
        self.resize_with(width, height, d);
    }
}

/// The view of a grid whose every cell holds `value`.
pub open spec fn grid_const<T>(width: int, height: int, value: T) -> Seq<Seq<T>> {
    Seq::new(height as nat, |y: int| Seq::new(width as nat, |x: int| value))
}

/// Writing a cell and reading the same coordinates back yields the
/// written value: `get` after `set(x, y, v)` returns `v`, in the terms of
/// their contracts.
pub proof fn lemma_set_then_get<T>(g: Seq<Seq<T>>, x: int, y: int, v: T)
    requires
        0 <= y < g.len(),
        0 <= x < g[y].len(),
    ensures
        g.update(y, g[y].update(x, v))[y][x] == v,
{
}

/// After a fill, every in-range read returns the fill value.
pub proof fn lemma_fill_then_get<T>(width: int, height: int, v: T, x: int, y: int)
    requires
        0 <= x < width,
        0 <= y < height,
    ensures
        grid_const(width, height, v)[y][x] == v,
{
}

/// In-range coordinates give a flat index inside the backing vector, and
/// row-major indices below `width * height` decode back to their row and
/// column.
pub(crate) proof fn lemma_flat_index_in_range(x: int, y: int, width: int, height: int)
    by (nonlinear_arith)
    requires
        0 <= x < width,
        0 <= y < height,
    ensures
        0 <= y * width + x < width * height,
{
}

/// After one cell changes at flat index `y * width + x`, every row of the
/// new view equals the corresponding row of the old view with only that
/// cell replaced.
proof fn lemma_rows_agree_but_one<T>(g0: Vec2d<T>, g1: Vec2d<T>, ry: int, y: int, x: int)
    requires
        g0.wf(),
        g1.wf(),
        g0.spec_width() == g1.spec_width(),
        g0.spec_height() == g1.spec_height(),
        0 <= x < g0.spec_width(),
        0 <= y < g0.spec_height(),
        0 <= ry < g0.spec_height(),
        g1.data@ == g0.data@.update(y * g0.spec_width() + x, g1.data@[y * g0.spec_width() + x]),
        g1.data@.len() == g0.data@.len(),
    ensures
        ry != y ==> g1@[ry] == g0@[ry],
        ry == y ==> g1@[ry] == g0@[ry].update(x, g1.data@[y * g0.spec_width() + x]),
    {
        let w = g0.spec_width() as int;
        let h = g0.spec_height() as int;
        lemma_flat_index_in_range(x, y, w, h);
        assert forall|cx: int| 0 <= cx < w implies #[trigger] g1@[ry][cx] == (
            if ry == y && cx == x {
                g1.data@[y * w + x]
            } else {
                g0@[ry][cx]
            }) by {
            lemma_flat_index_in_range(cx, ry, w, h);
            if ry * w + cx == y * w + x {
                lemma_flat_index_unique(cx, ry, x, y, w);
            }
        }
        if ry != y {
            assert(g1@[ry] =~= g0@[ry]);
        } else {
            assert(g1@[ry] =~= g0@[ry].update(x, g1.data@[y * w + x]));
        }
    }

/// Two distinct in-range coordinate pairs never share a flat row-major
/// index.
proof fn lemma_flat_index_unique(x1: int, y1: int, x2: int, y2: int, width: int)
    by (nonlinear_arith)
    requires
        0 <= x1 < width,
        0 <= x2 < width,
        y1 * width + x1 == y2 * width + x2,
    ensures
        x1 == x2 && y1 == y2,
{
}

} // verus!
