pub mod data;
pub mod layout;
pub mod validate;
pub mod identity;
pub mod search;
pub mod order;
pub mod projection;
pub mod state;
pub mod coverage;
pub mod laws;
pub mod structure;
pub mod records;
