pub mod cached;
pub mod layout;
pub mod layout_flex;
pub mod overflow;
pub mod text;
