//! The decisions of the editor's widgets: what an event does to the
//! editor state, which file a row of the file tree opens, which child of
//! a container has the focus.
pub mod widget;
pub mod rect;
pub mod files;
pub mod container;
pub mod editor;
pub mod editor_laws;

pub use widget::{DrawInfo, Outcome};
pub use rect::Rect;
