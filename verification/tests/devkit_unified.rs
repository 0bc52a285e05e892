use mb_tui::devkit::unified::{
    dispatch_top_level, explorer_bindings, explorer_candidates, help_sections, unified_hints, unified_step,
    EntryStatus, PlaygroundMode, TopAction, UnifiedAction, UnifiedContext, UnifiedState, UnifiedView,
};
use mb_tui::input::key::{KeyCode, KeyEvent, ALT, CONTROL, NO_MODIFIERS, SHIFT};
use mb_tui::input::modal::first_match;

fn key(code: KeyCode) -> KeyEvent {
    KeyEvent::new(code, NO_MODIFIERS)
}

fn explorer() -> EntryStatus {
    EntryStatus { mode: PlaygroundMode::Explorer, animated: false }
}

fn live() -> EntryStatus {
    EntryStatus { mode: PlaygroundMode::Live, animated: false }
}

#[test]
fn explorer_hints_include_navigation_and_help() {
    let view = UnifiedView {
        mode: PlaygroundMode::Explorer,
        show_help: false,
        interactive: true,
        animated: false,
        paused: false,
        multiple_entries: true,
    };

    let hints = unified_hints(&view);
    assert!(hints.iter().any(|hint| hint.key == "tab" && hint.action == "switch"));
    assert!(hints.iter().any(|hint| hint.key == "enter" && hint.action == "interact"));
    assert!(hints.iter().any(|hint| hint.key == "?" && hint.action == "help"));
}

#[test]
fn live_hints_exclude_quit() {
    let view = UnifiedView {
        mode: PlaygroundMode::Live,
        show_help: false,
        interactive: true,
        animated: false,
        paused: false,
        multiple_entries: false,
    };

    let hints = unified_hints(&view);
    assert!(hints.iter().any(|hint| hint.key == "esc" && hint.action == "back"));
    assert!(!hints.iter().any(|hint| hint.action == "quit"));
}

#[test]
fn animated_hints_show_step_only_when_paused() {
    let paused_view = UnifiedView {
        mode: PlaygroundMode::Live,
        show_help: false,
        interactive: false,
        animated: true,
        paused: true,
        multiple_entries: false,
    };
    let playing_view = UnifiedView { paused: false, ..paused_view };

    let paused_hints = unified_hints(&paused_view);
    assert!(paused_hints.iter().any(|hint| hint.action == "step"));

    let playing_hints = unified_hints(&playing_view);
    assert!(!playing_hints.iter().any(|hint| hint.action == "step"));
}

#[test]
fn active_context_prefers_help_then_animation_then_mode() {
    let view = UnifiedView {
        mode: PlaygroundMode::Live,
        show_help: true,
        interactive: false,
        animated: true,
        paused: false,
        multiple_entries: false,
    };
    assert_eq!(view.active_context(), UnifiedContext::HelpOverlay);
    assert_eq!(UnifiedView { show_help: false, ..view }.active_context(), UnifiedContext::Animated);
    assert_eq!(UnifiedView { show_help: false, animated: false, ..view }.active_context(), UnifiedContext::Live);
    let explorer_view = UnifiedView { show_help: false, animated: false, mode: PlaygroundMode::Explorer, ..view };
    assert_eq!(explorer_view.active_context(), UnifiedContext::Explorer);
    let overlay = unified_hints(&view);
    assert_eq!(overlay.len(), 2);
    assert!(overlay.iter().all(|hint| hint.action == "close"));
}

#[test]
fn single_entry_hides_switching_and_guards_interaction() {
    let view = UnifiedView {
        mode: PlaygroundMode::Explorer,
        show_help: false,
        interactive: false,
        animated: false,
        paused: false,
        multiple_entries: false,
    };
    let hints = unified_hints(&view);
    let keys: Vec<&str> = hints.iter().map(|hint| hint.key).collect();
    assert_eq!(keys, vec!["→/[]", "←/[]", "q/esc", "?"]);
    assert_eq!(explorer_bindings(&view).len(), 7);
    let tab = explorer_candidates(&view, &key(KeyCode::Tab));
    assert_eq!(first_match(&tab), None);
    let right = explorer_candidates(&view, &key(KeyCode::Char(']')));
    assert_eq!(first_match(&right), Some(2));
    let quit = explorer_candidates(&view, &key(KeyCode::Esc));
    assert_eq!(first_match(&quit), Some(5));
}

#[test]
fn help_sections_list_every_context_without_guards() {
    let view = UnifiedView {
        mode: PlaygroundMode::Explorer,
        show_help: false,
        interactive: false,
        animated: false,
        paused: false,
        multiple_entries: false,
    };
    let sections = help_sections(&view);
    let titles: Vec<&str> = sections.iter().map(|s| s.title).collect();
    assert_eq!(titles, vec!["Explorer", "Live", "Animated", "Help Overlay"]);
    assert_eq!(sections[0].hints.len(), 7);
    assert_eq!(sections[1].hints.len(), 4);
    assert_eq!(sections[2].hints.len(), 6);
    assert_eq!(sections[3].hints.len(), 2);
}

#[test]
fn tab_and_back_tab_wrap_around_the_entries() {
    assert_eq!(dispatch_top_level(&key(KeyCode::Tab), 3, 2, explorer()), (TopAction::Handled, 0));
    assert_eq!(dispatch_top_level(&key(KeyCode::BackTab), 3, 0, explorer()), (TopAction::Handled, 2));
    assert_eq!(dispatch_top_level(&key(KeyCode::BackTab), 3, 2, live()), (TopAction::Handled, 1));
    assert_eq!(dispatch_top_level(&key(KeyCode::Tab), 1, 0, explorer()), (TopAction::Continue, 0));
}

#[test]
fn quitting_depends_on_mode_and_modifiers() {
    assert_eq!(dispatch_top_level(&key(KeyCode::Char('q')), 2, 1, explorer()), (TopAction::Quit, 1));
    assert_eq!(dispatch_top_level(&key(KeyCode::Char('q')), 2, 1, live()), (TopAction::Continue, 1));
    let animated = EntryStatus { mode: PlaygroundMode::Live, animated: true };
    assert_eq!(dispatch_top_level(&key(KeyCode::Char('q')), 2, 1, animated), (TopAction::Quit, 1));
    assert_eq!(dispatch_top_level(&key(KeyCode::Esc), 2, 1, explorer()), (TopAction::Quit, 1));
    assert_eq!(dispatch_top_level(&key(KeyCode::Esc), 2, 1, animated), (TopAction::Continue, 1));
    let ctrl_q = KeyEvent::new(KeyCode::Char('q'), CONTROL);
    assert_eq!(dispatch_top_level(&ctrl_q, 2, 1, explorer()), (TopAction::Continue, 1));
    let shift_q = KeyEvent::new(KeyCode::Char('q'), SHIFT);
    assert_eq!(dispatch_top_level(&shift_q, 2, 1, explorer()), (TopAction::Quit, 1));
}

#[test]
fn help_overlay_swallows_keys_until_closed() {
    let start = UnifiedState { active: 0, show_help: false };
    let (open, action) = unified_step(start, &key(KeyCode::Char('?')), 2, explorer());
    assert_eq!(action, UnifiedAction::Redraw);
    assert!(open.show_help);
    let (same, action) = unified_step(open, &key(KeyCode::Char('q')), 2, explorer());
    assert_eq!(action, UnifiedAction::Ignore);
    assert_eq!(same, open);
    let alt_esc = KeyEvent::new(KeyCode::Esc, ALT);
    assert_eq!(unified_step(open, &alt_esc, 2, explorer()).1, UnifiedAction::Ignore);
    let (closed, action) = unified_step(open, &key(KeyCode::Esc), 2, explorer());
    assert_eq!(action, UnifiedAction::Redraw);
    assert_eq!(closed, start);
}

#[test]
fn keys_switch_quit_or_reach_the_entry() {
    let start = UnifiedState { active: 1, show_help: false };
    let (next, action) = unified_step(start, &key(KeyCode::Tab), 2, live());
    assert_eq!(action, UnifiedAction::Switch(1));
    assert_eq!(next.active, 0);
    assert_eq!(unified_step(start, &key(KeyCode::Char('q')), 2, explorer()).1, UnifiedAction::Quit);
    assert_eq!(unified_step(start, &key(KeyCode::Char('x')), 2, explorer()), (start, UnifiedAction::Forward));
    assert_eq!(unified_step(start, &key(KeyCode::Esc), 2, live()), (start, UnifiedAction::Forward));
}
