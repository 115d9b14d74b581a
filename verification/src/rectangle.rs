//! An axis-aligned rectangle, rasterized by filling its half-open interior
//! column by column.

use vstd::prelude::*;

use crate::canvas::{Canvas, PixelWrite};
use crate::color::Color;
use crate::drawable::Drawable;
use crate::point::Point;

verus! {

/// An axis-aligned box given by two opposite corners. Nothing forces the
/// corners into order: inverted corners simply yield an empty fill.
#[derive(Clone, Copy, PartialEq, Eq, Structural, Debug)]
pub struct Rectangle {
    pub top_left: Point,
    pub bottom_right: Point,
}

/// The fixed color a rectangle draws itself in: pure yellow.
pub open spec fn rect_color() -> Color {
    Color { r: 255, g: 255, b: 0 }
}

/// The writes of one column: `(x, y)` for `y` from `y0` (inclusive) to `y1`
/// (exclusive).
pub open spec fn column_writes(x: int, y0: int, y1: int, col: Color) -> Seq<PixelWrite> {
    if y0 >= y1 {
        Seq::empty()
    } else {
        Seq::new(
            (y1 - y0) as nat,
            |j: int| PixelWrite { x: x as i32, y: (y0 + j) as i32, color: col },
        )
    }
}

/// The writes of a fill of the half-open box `[x0, x1) x [y0, y1)`, column
/// by column from `x0`, increasing `y` inside each column.
pub open spec fn rect_writes(x0: int, x1: int, y0: int, y1: int, col: Color) -> Seq<PixelWrite>
    decreases x1 - x0,
{
    if x0 >= x1 {
        Seq::empty()
    } else {
        column_writes(x0, y0, y1, col) + rect_writes(x0 + 1, x1, y0, y1, col)
    }
}

/// Concatenation membership: an element is in `a + b` exactly when it is in
/// `a` or in `b`.
pub proof fn lemma_seq_add_contains<A>(a: Seq<A>, b: Seq<A>, x: A)
    ensures
        (a + b).contains(x) <==> a.contains(x) || b.contains(x),
{
    if (a + b).contains(x) {
        let i = choose|i: int| 0 <= i < (a + b).len() && (a + b)[i] == x;
        if i < a.len() {
            assert(a[i] == x);
        } else {
            assert(b[i - a.len()] == x);
        }
    }
    if a.contains(x) {
        let i = choose|i: int| 0 <= i < a.len() && a[i] == x;
        assert((a + b)[i] == x);
    }
    if b.contains(x) {
        let i = choose|i: int| 0 <= i < b.len() && b[i] == x;
        assert((a + b)[a.len() + i] == x);
    }
}

/// Extending a fill by one column on the right appends that column's writes.
pub proof fn lemma_rect_writes_snoc(x0: int, x1: int, y0: int, y1: int, col: Color)
    requires
        x0 <= x1,
    ensures
        rect_writes(x0, x1 + 1, y0, y1, col) == rect_writes(x0, x1, y0, y1, col) + column_writes(
            x1,
            y0,
            y1,
            col,
        ),
    decreases x1 - x0,
{
    if x0 == x1 {
        assert(rect_writes(x0 + 1, x1 + 1, y0, y1, col) =~= Seq::<PixelWrite>::empty());
        assert(rect_writes(x0, x1 + 1, y0, y1, col) =~= rect_writes(x0, x1, y0, y1, col)
            + column_writes(x1, y0, y1, col));
    } else {
        lemma_rect_writes_snoc(x0 + 1, x1, y0, y1, col);
        assert(rect_writes(x0, x1 + 1, y0, y1, col) =~= rect_writes(x0, x1, y0, y1, col)
            + column_writes(x1, y0, y1, col));
    }
}

/// A fill with inverted or flat corners makes no pixel write at all; a fill
/// with valid corners makes exactly `(x1 - x0) * (y1 - y0)` of them.
pub proof fn lemma_rect_write_count(x0: int, x1: int, y0: int, y1: int, col: Color)
    ensures
        rect_writes(x0, x1, y0, y1, col).len() == if x0 < x1 && y0 < y1 {
            (x1 - x0) * (y1 - y0)
        } else {
            0
        },
    decreases x1 - x0,
{
    if x0 < x1 {
        lemma_rect_write_count(x0 + 1, x1, y0, y1, col);
        if y0 < y1 {
            assert((x1 - x0) * (y1 - y0) == (y1 - y0) + (x1 - (x0 + 1)) * (y1 - y0))
                by (nonlinear_arith);
        }
    }
}

/// A fill covers exactly the half-open box: a write is among its writes if
/// and only if it carries the fill color and its coordinates lie in
/// `[x0, x1) x [y0, y1)`.
pub proof fn lemma_rect_coverage(x0: int, x1: int, y0: int, y1: int, col: Color, w: PixelWrite)
    requires
        i32::MIN <= x0,
        x1 <= i32::MAX,
        i32::MIN <= y0,
        y1 <= i32::MAX,
    ensures
        rect_writes(x0, x1, y0, y1, col).contains(w) <==> (w.color == col && x0 <= w.x < x1 && y0
            <= w.y < y1),
    decreases x1 - x0,
{
    if x0 < x1 {
        let c = column_writes(x0, y0, y1, col);
        let rest = rect_writes(x0 + 1, x1, y0, y1, col);
        lemma_seq_add_contains(c, rest, w);
        lemma_rect_coverage(x0 + 1, x1, y0, y1, col, w);
        if w.color == col && w.x == x0 && y0 <= w.y < y1 {
            assert(c[w.y - y0] == w);
        }
        if c.contains(w) {
            let j = choose|j: int| 0 <= j < c.len() && c[j] == w;
            assert(w.x == x0 && y0 <= w.y < y1 && w.color == col);
        }
    }
}

impl Rectangle {
    /// Builds a rectangle from two opposite corners; no validation.
    pub fn new(top_left: &Point, bottom_right: &Point) -> (r: Rectangle)
        ensures
            r == (Rectangle { top_left: *top_left, bottom_right: *bottom_right }),
    {
        Rectangle { top_left: *top_left, bottom_right: *bottom_right }
    }
}

impl Drawable for Rectangle {
    open spec fn draw_ens(self, pre: Canvas, post: Canvas) -> bool {
        &&& post.width == pre.width
        &&& post.height == pre.height
        &&& post.writes@ == pre.writes@ + rect_writes(
            self.top_left.x as int,
            self.bottom_right.x as int,
            self.top_left.y as int,
            self.bottom_right.y as int,
            rect_color(),
        )
    }

    open spec fn color_ens(self, c: Color) -> bool {
        c == rect_color()
    }

    /// Fills the half-open interior, iterating `x` over the columns and `y`
    /// inside each column.
    #[verifier::loop_isolation(false)]
    fn draw(&self, image: &mut Canvas) {
        let color = self.color();
        let x0 = self.top_left.x;
        let x1 = self.bottom_right.x;
        let y0 = self.top_left.y;
        let y1 = self.bottom_right.y;
        let mut x = x0;
        while x < x1
            invariant
                x0 <= x,
                x <= x1 || x == x0,
                image.width == old(image).width,
                image.height == old(image).height,
                image.writes@ == old(image).writes@ + rect_writes(
                    x0 as int,
                    x as int,
                    y0 as int,
                    y1 as int,
                    color,
                ),
            decreases x1 - x,
        {
            let mut y = y0;
            while y < y1
                invariant
                    x < x1,
                    y0 <= y,
                    y <= y1 || y == y0,
                    image.width == old(image).width,
                    image.height == old(image).height,
                    image.writes@ == old(image).writes@ + rect_writes(
                        x0 as int,
                        x as int,
                        y0 as int,
                        y1 as int,
                        color,
                    ) + column_writes(x as int, y0 as int, y as int, color),
                decreases y1 - y,
            {
                image.set_pixel(x, y, color);
                proof {
                    assert(column_writes(x as int, y0 as int, y + 1 as int, color)
                        =~= column_writes(x as int, y0 as int, y as int, color).push(
                        PixelWrite { x, y, color },
                    ));
                    assert(image.writes@ =~= old(image).writes@ + rect_writes(
                        x0 as int,
                        x as int,
                        y0 as int,
                        y1 as int,
                        color,
                    ) + column_writes(x as int, y0 as int, y + 1 as int, color));
                }
                y = y + 1;
            }
            proof {
                lemma_rect_writes_snoc(x0 as int, x as int, y0 as int, y1 as int, color);
                assert(column_writes(x as int, y0 as int, y as int, color) == column_writes(
                    x as int,
                    y0 as int,
                    y1 as int,
                    color,
                ));
                assert(image.writes@ =~= old(image).writes@ + rect_writes(
                    x0 as int,
                    x + 1 as int,
                    y0 as int,
                    y1 as int,
                    color,
                ));
            }
            x = x + 1;
        }
    }

    fn color(&self) -> Color {
        Color::rgb(255, 255, 0)
    }
}

} // verus!
