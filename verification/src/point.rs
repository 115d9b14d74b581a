//! A 2D integer coordinate, the leaf value type of every shape.

use vstd::prelude::*;

use crate::canvas::{Canvas, PixelWrite};
use crate::color::Color;
use crate::drawable::Drawable;
use crate::rng::rand_range_i32;

verus! {

/// A 2D integer coordinate. Coordinates may be negative or exceed the
/// canvas extent; bounds play a role only at draw time.
#[derive(Clone, Copy, PartialEq, Eq, Structural, Debug)]
pub struct Point {
    pub x: i32,
    pub y: i32,
}

/// The fixed color a point draws itself in: pure red.
pub open spec fn point_color() -> Color {
    Color { r: 255, g: 0, b: 0 }
}

impl Point {
    /// Builds a point directly from its coordinates, with no validation.
    pub fn new(x: i32, y: i32) -> (p: Point)
        ensures
            p == (Point { x, y }),
    {
        Point { x, y }
    }

    /// Draws a point with both coordinates uniform over `[0, width)` and
    /// `[0, height)`.
    pub fn random(width: u32, height: u32) -> (p: Point)
        requires
            1 <= width <= i32::MAX,
            1 <= height <= i32::MAX,
        ensures
            0 <= p.x < width,
            0 <= p.y < height,
    {
        Point { x: rand_range_i32(0, width as i32), y: rand_range_i32(0, height as i32) }
    }
}

impl Drawable for Point {
    open spec fn draw_ens(self, pre: Canvas, post: Canvas) -> bool {
        &&& post.width == pre.width
        &&& post.height == pre.height
        &&& post.writes@ == pre.writes@.push(
            PixelWrite { x: self.x, y: self.y, color: point_color() },
        )
    }

    open spec fn color_ens(self, c: Color) -> bool {
        c == point_color()
    }

    /// Writes a single pixel at the point's own coordinates.
    fn draw(&self, image: &mut Canvas) {
        let color = self.color();
        image.set_pixel(self.x, self.y, color);
    }

    fn color(&self) -> Color {
        Color::rgb(255, 0, 0)
    }
}

} // verus!
