//! Markdown rendering for the chat view: the events of a markdown parse are
//! turned into word-wrapped lines of styled text fragments.

pub mod laws;
pub mod parse;
pub mod render;
pub mod style;
pub mod text;
pub mod wrap;
