pub mod bar_selector;
pub mod flame_graph;
pub mod flashcard;
pub mod hotkey_coach;
pub mod queue_list;
pub mod separator;
pub mod tab_bar;
pub mod trace_view;
pub mod vim_editor;
pub mod gauge;
