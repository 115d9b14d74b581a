//! The capability set shared by every shape: draw onto a canvas, and report
//! the shape's color.

use vstd::prelude::*;

use crate::canvas::Canvas;
use crate::color::Color;

verus! {

/// A shape that can rasterize itself onto a canvas. Each implementation
/// says, through `draw_ens`, exactly which pixel writes one `draw` call
/// appends, and through `color_ens` what its `color` method returns.
pub trait Drawable: Sized {
    /// What `draw` guarantees: `pre` is the canvas before the call, `post`
    /// the canvas after it.
    spec fn draw_ens(self, pre: Canvas, post: Canvas) -> bool;

    /// What `color` may return.
    spec fn color_ens(self, c: Color) -> bool;

    /// Rasterizes the shape onto the canvas.
    fn draw(&self, image: &mut Canvas)
        ensures
            self.draw_ens(*old(image), *final(image)),
    ;

    /// The color the shape draws itself in.
    fn color(&self) -> (c: Color)
        ensures
            self.color_ens(c),
    ;
}

} // verus!
