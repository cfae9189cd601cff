//! A modal text editor's core: a cursor-tracking buffer of lines, the edits
//! that can be applied to it and undone, and the key handling that drives them.

pub mod text;
pub mod textarea;
pub mod undo;
pub mod format;
pub mod directory;
pub mod editor;
