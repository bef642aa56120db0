//! What widgets report and are told.
use vstd::prelude::*;

verus! {

/// Whether a widget used an event.
#[derive(Debug, PartialEq, Eq, Structural, Clone, Copy)]
pub enum Outcome {
    Handled,
    Ignored,
}

/// What a widget is told when it draws.
#[derive(Debug, Clone, Copy)]
pub struct DrawInfo {
    pub is_focused: bool,
}

} // verus!
