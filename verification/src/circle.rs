//! A circle outline, rasterized by a fixed-resolution angular sweep: one
//! sample per whole degree from 0 to 360 inclusive, each sample written
//! only if it lands inside the surface. The circle is the one shape that
//! guards its own writes against the surface bounds.

use vstd::prelude::*;

use crate::canvas::{Canvas, PixelWrite};
use crate::color::Color;
use crate::drawable::Drawable;
use crate::intmath::{div_trunc_i64, lemma_trunc_div_bound, trunc_div};
use crate::point::Point;
use crate::rng::rand_range_i32;
use crate::trig::{cosine, cosine_scaled, sine, sine_scaled, TRIG_SCALE};

verus! {

/// A circle given by its center and radius. Nothing constrains the radius:
/// a zero or negative radius simply sweeps a degenerate outline.
#[derive(Clone, Copy, PartialEq, Eq, Structural, Debug)]
pub struct Circle {
    pub center: Point,
    pub radius: i32,
}

/// The sweep's sample point at `a` degrees: the center plus the offsets
/// `radius * cos(a)` and `radius * sin(a)`, each truncated toward zero.
pub open spec fn circle_sample(c: Circle, a: int) -> (int, int) {
    (
        c.center.x + trunc_div(c.radius * cosine_scaled(a), TRIG_SCALE as int),
        c.center.y + trunc_div(c.radius * sine_scaled(a), TRIG_SCALE as int),
    )
}

/// Whether a sample lands inside a `w` by `h` surface.
pub open spec fn sample_in_bounds(p: (int, int), w: int, h: int) -> bool {
    0 <= p.0 < w && 0 <= p.1 < h
}

/// The writes of the sweep's first `n` angle samples (degrees `0` to
/// `n - 1`): each in-bounds sample is written, all others are skipped.
pub open spec fn circle_writes_upto(c: Circle, w: int, h: int, col: Color, n: int) -> Seq<
    PixelWrite,
>
    decreases n,
{
    if n <= 0 {
        Seq::empty()
    } else {
        let prev = circle_writes_upto(c, w, h, col, n - 1);
        let p = circle_sample(c, n - 1);
        if sample_in_bounds(p, w, h) {
            prev.push(PixelWrite { x: p.0 as i32, y: p.1 as i32, color: col })
        } else {
            prev
        }
    }
}

/// The writes of one full sweep: degrees 0 to 360 inclusive (361 samples,
/// the closing sample repeating the opening one).
pub open spec fn circle_writes(c: Circle, w: int, h: int, col: Color) -> Seq<PixelWrite> {
    circle_writes_upto(c, w, h, col, 361)
}

/// Every pixel a circle draws lies strictly inside the surface, whatever
/// its center and radius: the bounds guard suppresses off-surface samples.
pub proof fn lemma_circle_writes_in_bounds(c: Circle, w: int, h: int, col: Color, n: int)
    requires
        w <= i32::MAX,
        h <= i32::MAX,
    ensures
        forall|j: int|
            0 <= j < circle_writes_upto(c, w, h, col, n).len() ==> {
                let pw = #[trigger] circle_writes_upto(c, w, h, col, n)[j];
                0 <= pw.x < w && 0 <= pw.y < h && pw.color == col
            },
    decreases n,
{
    if n > 0 {
        lemma_circle_writes_in_bounds(c, w, h, col, n - 1);
        let prev = circle_writes_upto(c, w, h, col, n - 1);
        let s = circle_writes_upto(c, w, h, col, n);
        assert forall|j: int| 0 <= j < s.len() implies {
            let pw = #[trigger] s[j];
            0 <= pw.x < w && 0 <= pw.y < h && pw.color == col
        } by {
            if j < prev.len() {
                assert(s[j] == prev[j]);
            }
        }
    }
}

impl Circle {
    /// Builds a circle from its center and radius; no validation on the
    /// radius sign.
    pub fn new(center: &Point, radius: i32) -> (c: Circle)
        ensures
            c == (Circle { center: *center, radius }),
    {
        Circle { center: *center, radius }
    }

    /// A circle with a random center uniform over `[0, width) x [0, height)`
    /// and an independent radius uniform over `[10, 100)`.
    pub fn random(width: u32, height: u32) -> (c: Circle)
        requires
            1 <= width <= i32::MAX,
            1 <= height <= i32::MAX,
        ensures
            0 <= c.center.x < width,
            0 <= c.center.y < height,
            10 <= c.radius < 100,
    {
        let center_x = rand_range_i32(0, width as i32);
        let center_y = rand_range_i32(0, height as i32);
        let radius = rand_range_i32(10, 100);
        Circle::new(&Point::new(center_x, center_y), radius)
    }
}

impl Drawable for Circle {
    open spec fn draw_ens(self, pre: Canvas, post: Canvas) -> bool {
        &&& post.width == pre.width
        &&& post.height == pre.height
        &&& exists|col: Color|
            col.r < 255 && col.g < 255 && col.b < 255 && post.writes@ == pre.writes@
                + #[trigger] circle_writes(self, pre.width as int, pre.height as int, col)
    }

    open spec fn color_ens(self, c: Color) -> bool {
        c.r < 255 && c.g < 255 && c.b < 255
    }

    /// Sweeps the angles 0 to 360 inclusive, writing each sample that lands
    /// inside the surface. The color is drawn once per call and shared by
    /// every pixel of the outline.
    #[verifier::loop_isolation(false)]
    fn draw(&self, image: &mut Canvas) {
        let color = self.color();
        let w = image.width;
        let h = image.height;
        let mut a: u32 = 0;
        while a <= 360
            invariant
                a <= 361,
                image.width == w,
                image.height == h,
                image.writes@ == old(image).writes@ + circle_writes_upto(
                    *self,
                    w as int,
                    h as int,
                    color,
                    a as int,
                ),
            decreases 361 - a,
        {
            let cosv = cosine(a);
            let sinv = sine(a);
            proof {
                assert(-(0x8000_0000 * (TRIG_SCALE as int)) <= (self.radius as int) * (cosv as int)
                    <= 0x8000_0000 * (TRIG_SCALE as int) && -(0x8000_0000 * (TRIG_SCALE as int))
                    <= (self.radius as int) * (sinv as int) <= 0x8000_0000 * (TRIG_SCALE as int))
                    by (nonlinear_arith)
                    requires
                        -0x8000_0000 <= self.radius as int <= 0x8000_0000,
                        -(TRIG_SCALE as int) <= cosv as int <= TRIG_SCALE as int,
                        -(TRIG_SCALE as int) <= sinv as int <= TRIG_SCALE as int,
                ;
                lemma_trunc_div_bound(
                    (self.radius as int) * (cosv as int),
                    TRIG_SCALE as int,
                    0x8000_0000,
                );
                lemma_trunc_div_bound(
                    (self.radius as int) * (sinv as int),
                    TRIG_SCALE as int,
                    0x8000_0000,
                );
            }
            let xoff = div_trunc_i64((self.radius as i64) * cosv, 10000);
            let yoff = div_trunc_i64((self.radius as i64) * sinv, 10000);
            let x = (self.center.x as i64) + xoff;
            let y = (self.center.y as i64) + yoff;
            if 0 <= x && x < w as i64 && 0 <= y && y < h as i64 {
                image.set_pixel(x as i32, y as i32, color);
            }
            proof {
                assert(image.writes@ =~= old(image).writes@ + circle_writes_upto(
                    *self,
                    w as int,
                    h as int,
                    color,
                    a + 1 as int,
                ));
            }
            a = a + 1;
        }
        proof {
            assert(image.writes@ == old(image).writes@ + circle_writes(
                *self,
                w as int,
                h as int,
                color,
            ));
        }
    }

    /// A color drawn afresh on each call: three independent channels, each
    /// uniform over `[0, 255)`.
    fn color(&self) -> Color {
        let r = rand_range_i32(0, 255);
        let g = rand_range_i32(0, 255);
        let b = rand_range_i32(0, 255);
        Color::rgb(r as u8, g as u8, b as u8)
    }
}

} // verus!
