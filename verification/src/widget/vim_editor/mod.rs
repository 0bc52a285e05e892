pub mod undo;
pub mod buffer;
pub mod spec;
pub mod editor;
pub mod layout;
pub mod laws;
