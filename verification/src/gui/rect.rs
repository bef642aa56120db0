//! A widget that draws a frame around its bounds.
use vstd::prelude::*;

verus! {

/// A widget that draws a red frame (the drawing is done by the
/// application).
pub struct Rect {}

} // verus!
