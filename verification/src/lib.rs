//! A minimal 2D vector-shape rasterization library.
//!
//! Geometric primitives (point, line segment, triangle, rectangle, circle)
//! are converted into pixel writes on an in-memory canvas. All coordinate
//! arithmetic is exact integer arithmetic, and every drawing routine carries
//! a contract that pins down the precise sequence of pixel writes it makes.

pub mod canvas;
pub mod circle;
pub mod color;
pub mod drawable;
pub mod intmath;
pub mod line;
pub mod point;
pub mod rectangle;
mod rng;
pub mod triangle;
pub mod trig;
