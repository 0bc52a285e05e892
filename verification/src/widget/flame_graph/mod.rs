pub mod data;
pub mod laws;
pub mod paths;
pub mod layout;
pub mod render;
pub mod state;
