pub mod laws;
pub mod model;
pub mod relations;
pub mod state;
