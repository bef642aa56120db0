//! The document model: locations, selections, the text of an open file,
//! and the editor's state.
pub mod text_model;
pub mod text_laws;
pub mod text_checks;
pub mod open_file;
pub mod editor_state;

pub use text_model::{Loc, LocDelta, Selection, TextModel};
pub use open_file::OpenFile;
pub use editor_state::EditorState;
