//! `fed`: the editing core of a small modal text editor.
//!
//! The library holds the document model (lines, cursor, selections), the
//! modal keyboard input machine, the decisions the editor widget takes on
//! each event, the file tree index, and the framing of language server
//! messages. Windowing, drawing, the clipboard, the file system and the
//! language server process live in the application around it.
pub mod ext;
pub mod utf8_text;
pub mod model;
pub mod input;
pub mod lsp;
pub mod gui;

pub use input::{EditorAction, EditorActions, KeybindAction, KeybindActions, Location, Mode, VimInput};
pub use model::{EditorState, Loc, LocDelta, OpenFile, Selection, TextModel};
