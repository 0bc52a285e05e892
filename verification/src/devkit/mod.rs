pub mod vim_editor;
pub mod unified;
pub mod trace_view;
