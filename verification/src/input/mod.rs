//! Modal (vi-like) keyboard input.
pub mod vim_input;

pub use vim_input::{EditorAction, EditorActions, KeybindAction, KeybindActions, Location, Mode, VimInput};
