//! A line segment, rasterized by an exact digital differential analyzer:
//! `max(|dx|, |dy|) + 1` pixels, each coordinate interpolated linearly and
//! rounded to the nearest integer.

use vstd::prelude::*;
use vstd::math::{abs, max, min};

use crate::canvas::{Canvas, PixelWrite};
use crate::color::Color;
use crate::drawable::Drawable;
use crate::intmath::{
    div_floor_i128, lemma_round_div_exact, lemma_round_div_mul_bounds, lemma_round_div_step,
    round_div,
};
use crate::point::Point;
use crate::rng::rand_range_i32;

verus! {

/// A segment between two points. A degenerate segment (`start == end`) is
/// valid and rasterizes to a single pixel.
#[derive(Clone, Copy, PartialEq, Eq, Structural, Debug)]
pub struct Line {
    pub start: Point,
    pub end: Point,
}

/// The fixed color a line draws itself in: pure green.
pub open spec fn line_color() -> Color {
    Color { r: 0, g: 255, b: 0 }
}

/// The interpolation step count of the analyzer: `max(|dx|, |dy|)`.
pub open spec fn line_steps(l: Line) -> int {
    max(abs(l.end.x - l.start.x) as int, abs(l.end.y - l.start.y) as int)
}

/// The `i`-th rasterized pixel: both coordinates interpolated independently
/// over the fraction `i / steps` and rounded to the nearest integer. A
/// degenerate segment yields its start point.
pub open spec fn line_pixel(l: Line, i: int) -> (int, int) {
    let s = line_steps(l);
    if s == 0 {
        (l.start.x as int, l.start.y as int)
    } else {
        (
            l.start.x + round_div((l.end.x - l.start.x) * i, s),
            l.start.y + round_div((l.end.y - l.start.y) * i, s),
        )
    }
}

/// The writes one draw of the line makes, in order of increasing `i`.
pub open spec fn line_writes(l: Line, col: Color) -> Seq<PixelWrite> {
    Seq::new(
        (line_steps(l) + 1) as nat,
        |i: int|
            PixelWrite {
                x: line_pixel(l, i).0 as i32,
                y: line_pixel(l, i).1 as i32,
                color: col,
            },
    )
}

/// Every rasterized pixel stays inside the segment's bounding box.
pub proof fn lemma_line_pixel_bounds(l: Line, i: int)
    requires
        0 <= i <= line_steps(l),
    ensures
        min(l.start.x as int, l.end.x as int) <= line_pixel(l, i).0,
        line_pixel(l, i).0 <= max(l.start.x as int, l.end.x as int),
        min(l.start.y as int, l.end.y as int) <= line_pixel(l, i).1,
        line_pixel(l, i).1 <= max(l.start.y as int, l.end.y as int),
{
    let s = line_steps(l);
    if s != 0 {
        lemma_round_div_mul_bounds(l.end.x - l.start.x, i, s);
        lemma_round_div_mul_bounds(l.end.y - l.start.y, i, s);
    }
}

/// A degenerate line (`start == end`) rasterizes to exactly one pixel
/// write, at the start point.
pub proof fn lemma_line_degenerate(l: Line, col: Color)
    requires
        l.start == l.end,
    ensures
        line_writes(l, col) == seq![
            PixelWrite { x: l.start.x, y: l.start.y, color: col },
        ],
{
    assert(line_writes(l, col) =~= seq![
        PixelWrite { x: l.start.x, y: l.start.y, color: col },
    ]);
}

/// One draw of a line makes exactly `max(|dx|, |dy|) + 1` pixel writes.
pub proof fn lemma_line_write_count(l: Line, col: Color)
    ensures
        line_writes(l, col).len() == line_steps(l) + 1,
{
}

/// The rasterized line starts at `start` and ends at `end`: the first and
/// last samples hit the segment's endpoints exactly.
pub proof fn lemma_line_endpoints(l: Line)
    ensures
        line_pixel(l, 0) == (l.start.x as int, l.start.y as int),
        line_pixel(l, line_steps(l)) == (l.end.x as int, l.end.y as int),
{
    let s = line_steps(l);
    if s != 0 {
        lemma_round_div_exact(0, s);
        lemma_round_div_exact(l.end.x - l.start.x, s);
        lemma_round_div_exact(l.end.y - l.start.y, s);
    }
}

/// Consecutive rasterized pixels differ by at most one unit in each axis:
/// the line has no gaps along its dominant axis.
pub proof fn lemma_line_no_gaps(l: Line, i: int)
    requires
        0 <= i < line_steps(l),
    ensures
        abs(line_pixel(l, i + 1).0 - line_pixel(l, i).0) <= 1,
        abs(line_pixel(l, i + 1).1 - line_pixel(l, i).1) <= 1,
{
    let s = line_steps(l);
    let dx = l.end.x - l.start.x;
    let dy = l.end.y - l.start.y;
    assert(dx * (i + 1) == dx * i + dx && dy * (i + 1) == dy * i + dy) by (nonlinear_arith);
    lemma_round_div_step(dx * i, dx * (i + 1), s);
    lemma_round_div_step(dy * i, dy * (i + 1), s);
}

impl Line {
    /// Builds a segment by copying both endpoints; no validation.
    pub fn new(start: &Point, end: &Point) -> (l: Line)
        ensures
            l == (Line { start: *start, end: *end }),
    {
        Line { start: *start, end: *end }
    }

    /// A segment between two independently drawn random points, each
    /// uniform over `[0, width) x [0, height)`. The endpoints may coincide.
    pub fn random(width: u32, height: u32) -> (l: Line)
        requires
            1 <= width <= i32::MAX,
            1 <= height <= i32::MAX,
        ensures
            0 <= l.start.x < width,
            0 <= l.start.y < height,
            0 <= l.end.x < width,
            0 <= l.end.y < height,
    {
        let start_x = rand_range_i32(0, width as i32);
        let start_y = rand_range_i32(0, height as i32);
        let end_x = rand_range_i32(0, width as i32);
        let end_y = rand_range_i32(0, height as i32);
        Line::new(&Point::new(start_x, start_y), &Point::new(end_x, end_y))
    }

    /// Rasterizes the segment in the given color, appending exactly
    /// `line_writes(self, color)` to the canvas.
    #[verifier::loop_isolation(false)]
    pub fn draw_with(&self, color: Color, image: &mut Canvas)
        ensures
            final(image).width == old(image).width,
            final(image).height == old(image).height,
            final(image).writes@ == old(image).writes@ + line_writes(*self, color),
    {
        let sx = self.start.x;
        let sy = self.start.y;
        let dx: i64 = self.end.x as i64 - sx as i64;
        let dy: i64 = self.end.y as i64 - sy as i64;
        let adx: i64 = if dx < 0 { -dx } else { dx };
        let ady: i64 = if dy < 0 { -dy } else { dy };
        let steps: i64 = if adx > ady { adx } else { ady };
        assert(steps == line_steps(*self));
        if steps == 0 {
            image.set_pixel(sx, sy, color);
            proof {
                assert(line_writes(*self, color) =~= seq![
                    PixelWrite { x: sx, y: sy, color },
                ]);
                assert(old(image).writes@.push(PixelWrite { x: sx, y: sy, color }) =~= old(
                    image,
                ).writes@ + line_writes(*self, color));
            }
        } else {
            let ghost all = line_writes(*self, color);
            let mut i: i64 = 0;
            while i <= steps
                invariant
                    0 <= i <= steps + 1,
                    image.width == old(image).width,
                    image.height == old(image).height,
                    image.writes@ == old(image).writes@ + all.take(i as int),
                decreases steps + 1 - i,
            {
                proof {
                    assert(-0x2_0000_0000_0000_0000 <= 2 * (dx as int) * (i as int) <= 0x2_0000_0000_0000_0000
                        && -0x2_0000_0000_0000_0000 <= 2 * (dy as int) * (i as int) <= 0x2_0000_0000_0000_0000)
                        by (nonlinear_arith)
                        requires
                            -0x1_0000_0000 <= dx as int <= 0x1_0000_0000,
                            -0x1_0000_0000 <= dy as int <= 0x1_0000_0000,
                            0 <= i as int <= 0x1_0000_0000,
                    ;
                }
                let nx = div_floor_i128(
                    2 * (dx as i128) * (i as i128) + steps as i128,
                    2 * (steps as i128),
                );
                let ny = div_floor_i128(
                    2 * (dy as i128) * (i as i128) + steps as i128,
                    2 * (steps as i128),
                );
                proof {
                    assert(2 * ((dx as int) * (i as int)) == 2 * (dx as int) * (i as int) && 2 * (
                    (dy as int) * (i as int)) == 2 * (dy as int) * (i as int)) by (nonlinear_arith);
                    assert(nx == round_div(dx as int * i as int, steps as int));
                    assert(ny == round_div(dy as int * i as int, steps as int));
                    lemma_round_div_mul_bounds(dx as int, i as int, steps as int);
                    lemma_round_div_mul_bounds(dy as int, i as int, steps as int);
                    lemma_line_pixel_bounds(*self, i as int);
                }
                let px = ((sx as i64) + (nx as i64)) as i32;
                let py = ((sy as i64) + (ny as i64)) as i32;
                assert(px == line_pixel(*self, i as int).0);
                assert(py == line_pixel(*self, i as int).1);
                image.set_pixel(px, py, color);
                proof {
                    assert(all.take(i + 1) =~= all.take(i as int).push(all[i as int]));
                    assert((old(image).writes@ + all.take(i as int)).push(all[i as int]) =~= old(
                        image,
                    ).writes@ + all.take(i + 1));
                }
                i = i + 1;
            }
            proof {
                assert(all.take(steps + 1) =~= all);
            }
        }
    }
}

impl Drawable for Line {
    open spec fn draw_ens(self, pre: Canvas, post: Canvas) -> bool {
        &&& post.width == pre.width
        &&& post.height == pre.height
        &&& post.writes@ == pre.writes@ + line_writes(self, line_color())
    }

    open spec fn color_ens(self, c: Color) -> bool {
        c == line_color()
    }

    /// Rasterizes the segment in the line's own fixed color.
    fn draw(&self, image: &mut Canvas) {
        let color = self.color();
        self.draw_with(color, image);
    }

    fn color(&self) -> Color {
        Color::rgb(0, 255, 0)
    }
}

} // verus!
