pub mod render_effect;
pub mod render_scheduler;
pub mod key;
pub mod modal;
