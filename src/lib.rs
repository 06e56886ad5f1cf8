//! A viewer for escape-time fractals (the Mandelbrot and Julia sets).
//!
//! Keyboard and window events become commands (`input`); a state machine
//! applies them to the camera, the iteration bound and the fractal family
//! (`viewer`, `camera`) and derives the values each frame is drawn with; the
//! escape-time evaluator (`escape`) says for a point of the plane when its
//! orbit leaves the disc of radius 2. All numbers are fixed point (`fixed`).
use vstd::prelude::*;

pub mod camera;
pub mod escape;
pub mod fixed;
pub mod input;
pub mod viewer;

verus! {

} // verus!
