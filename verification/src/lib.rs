//! Sierpinski-style triangle fractals as exact drawing-command lists.

pub mod canvas;
pub mod color;
pub mod fixed;
pub mod geometry;
pub mod random;
pub mod render;
