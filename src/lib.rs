//! Letterboxed and pillarboxed camera viewports: the rectangle a camera draws
//! into, recomputed from a window's physical size, a target aspect ratio and a
//! scaling mode.
use vstd::prelude::*;

pub mod aspect;
pub mod mapping;

pub use aspect::{AspectRatioError, AspectRatioMode, Dim2, ScaleableViewport};
pub use mapping::{ViewportPlugin, ViewportRect};

verus! {

} // verus!
