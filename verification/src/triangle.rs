//! A triangle, rasterized as the outline of its three edges: each edge is a
//! line segment handed to the line rasterizer, drawn in the triangle's own
//! color. The interior is never filled.

use vstd::prelude::*;

use crate::canvas::{Canvas, PixelWrite};
use crate::color::Color;
use crate::drawable::Drawable;
use crate::line::{line_writes, Line};
use crate::point::Point;
use crate::rectangle::lemma_seq_add_contains;

verus! {

/// A triangle given by its three vertices. Collinear or repeated vertices
/// are valid and rasterize as a degenerate outline.
#[derive(Clone, Copy, Debug)]
pub struct Triangle {
    pub vertices: [Point; 3],
}

/// The fixed color a triangle draws itself in: pure blue.
pub open spec fn triangle_color() -> Color {
    Color { r: 0, g: 0, b: 255 }
}

/// The edge from vertex `k` to vertex `(k + 1) % 3`.
pub open spec fn triangle_edge(t: Triangle, k: int) -> Line
    recommends
        0 <= k < 3,
{
    Line { start: t.vertices[k], end: t.vertices[if k == 2 { 0int } else { k + 1 }] }
}

/// The writes of one draw of a triangle: its three edges rasterized in
/// order, each in the triangle's color.
pub open spec fn triangle_writes(t: Triangle, col: Color) -> Seq<PixelWrite> {
    line_writes(triangle_edge(t, 0), col) + line_writes(triangle_edge(t, 1), col) + line_writes(
        triangle_edge(t, 2),
        col,
    )
}

/// Every pixel a triangle draws lies on one of its three edges, as the line
/// rasterizer defines them; none lies in the interior.
pub proof fn lemma_triangle_pixels_on_edges(t: Triangle, col: Color, w: PixelWrite)
    requires
        triangle_writes(t, col).contains(w),
    ensures
        line_writes(triangle_edge(t, 0), col).contains(w) || line_writes(
            triangle_edge(t, 1),
            col,
        ).contains(w) || line_writes(triangle_edge(t, 2), col).contains(w),
{
    let e0 = line_writes(triangle_edge(t, 0), col);
    let e1 = line_writes(triangle_edge(t, 1), col);
    let e2 = line_writes(triangle_edge(t, 2), col);
    lemma_seq_add_contains(e0 + e1, e2, w);
    lemma_seq_add_contains(e0, e1, w);
}

impl Triangle {
    /// Builds a triangle from three vertices; no validation.
    pub fn new(p1: &Point, p2: &Point, p3: &Point) -> (t: Triangle)
        ensures
            t.vertices[0] == *p1,
            t.vertices[1] == *p2,
            t.vertices[2] == *p3,
    {
        Triangle { vertices: [*p1, *p2, *p3] }
    }
}

impl Drawable for Triangle {
    open spec fn draw_ens(self, pre: Canvas, post: Canvas) -> bool {
        &&& post.width == pre.width
        &&& post.height == pre.height
        &&& post.writes@ == pre.writes@ + triangle_writes(self, triangle_color())
    }

    open spec fn color_ens(self, c: Color) -> bool {
        c == triangle_color()
    }

    /// Rasterizes the three edges in order, all in the triangle's color.
    fn draw(&self, image: &mut Canvas) {
        let color = self.color();
        let e0 = Line::new(&self.vertices[0], &self.vertices[1]);
        let e1 = Line::new(&self.vertices[1], &self.vertices[2]);
        let e2 = Line::new(&self.vertices[2], &self.vertices[0]);
        e0.draw_with(color, image);
        e1.draw_with(color, image);
        e2.draw_with(color, image);
        proof {
            assert(image.writes@ =~= old(image).writes@ + triangle_writes(
                *self,
                triangle_color(),
            ));
        }
    }

    fn color(&self) -> Color {
        Color::rgb(0, 0, 255)
    }
}

} // verus!
