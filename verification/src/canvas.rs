//! The drawing surface: an addressable 2D extent that records pixel writes.
//!
//! The canvas keeps the full sequence of write requests, in order. It does
//! not itself discard out-of-range writes; a consumer that materializes the
//! canvas into an actual pixel buffer applies the in-range writes and drops
//! the rest. Contracts over the write sequence therefore describe exactly
//! which writes each shape requests.

use vstd::prelude::*;

use crate::color::Color;

verus! {

/// One requested pixel write: a coordinate pair and the color written there.
#[derive(Clone, Copy, PartialEq, Eq, Structural, Debug)]
pub struct PixelWrite {
    pub x: i32,
    pub y: i32,
    pub color: Color,
}

/// An in-memory drawing surface of a given extent that records, in order,
/// every pixel write requested against it.
pub struct Canvas {
    pub width: i32,
    pub height: i32,
    pub writes: Vec<PixelWrite>,
}

/// The surface contract consumed by the shapes: a single-pixel-write
/// operation. A type implementing it says, through `display_ens`, how one
/// write relates its old state to its new state.
pub trait Displayable: Sized {
    /// What one call of `display` guarantees: `post` is the receiver after
    /// the call, `pre` the receiver before it.
    spec fn display_ens(post: Self, pre: Self, x: i32, y: i32, color: Color) -> bool;

    /// Requests one pixel write.
    fn display(&mut self, x: i32, y: i32, color: Color)
        ensures
            Self::display_ens(*final(self), *old(self), x, y, color),
    ;
}

impl Canvas {
    /// A fresh canvas of the given extent, with no writes recorded yet.
    pub fn new(width: i32, height: i32) -> (c: Canvas)
        ensures
            c.width == width,
            c.height == height,
            c.writes@ == Seq::<PixelWrite>::empty(),
    {
        Canvas { width, height, writes: Vec::new() }
    }

    /// Records one pixel write at `(x, y)` in the given color.
    pub fn set_pixel(&mut self, x: i32, y: i32, color: Color)
        ensures
            final(self).width == old(self).width,
            final(self).height == old(self).height,
            final(self).writes@ == old(self).writes@.push(PixelWrite { x, y, color }),
    {
        self.writes.push(PixelWrite { x, y, color });
    }
}

impl Displayable for Canvas {
    open spec fn display_ens(post: Canvas, pre: Canvas, x: i32, y: i32, color: Color) -> bool {
        &&& post.width == pre.width
        &&& post.height == pre.height
        &&& post.writes@ == pre.writes@.push(PixelWrite { x, y, color })
    }

    fn display(&mut self, x: i32, y: i32, color: Color) {
        self.set_pixel(x, y, color);
    }
}

} // verus!
