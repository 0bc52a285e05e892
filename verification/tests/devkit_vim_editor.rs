use mb_tui::devkit::vim_editor::{
    apply_vim_editor, vim_editor_context, vim_editor_interactive_catalog, vim_editor_static_catalog,
};
use mb_tui::input::key::{KeyCode, KeyEvent, KeyResult, NO_MODIFIERS};
use mb_tui::widget::vim_editor::editor::{EditorEffect, VimEditor};
use mb_tui::widget::vim_editor::spec::VimMode;

fn key(code: KeyCode) -> KeyEvent {
    KeyEvent::new(code, NO_MODIFIERS)
}

#[test]
fn context_names_the_mode_and_pending_commands() {
    let mut editor = VimEditor::new();
    assert_eq!(vim_editor_context(&editor), vec!["vim-editor", "insert"]);
    assert_eq!(apply_vim_editor(&mut editor, &key(KeyCode::Char('h'))), KeyResult::Consumed);
    assert_eq!(apply_vim_editor(&mut editor, &key(KeyCode::Esc)), KeyResult::Consumed);
    assert_eq!(editor.mode(), VimMode::Normal);
    assert_eq!(vim_editor_context(&editor), vec!["vim-editor", "normal"]);
    assert_eq!(apply_vim_editor(&mut editor, &key(KeyCode::Char('d'))), KeyResult::Consumed);
    assert_eq!(vim_editor_context(&editor), vec!["vim-editor", "normal", "pending"]);
    assert_eq!(apply_vim_editor(&mut editor, &key(KeyCode::Esc)), KeyResult::Consumed);
    assert_eq!(apply_vim_editor(&mut editor, &key(KeyCode::Char('v'))), KeyResult::Consumed);
    assert_eq!(vim_editor_context(&editor), vec!["vim-editor", "visual"]);
}

#[test]
fn leaving_the_editor_is_left_to_the_shell() {
    let mut editor = VimEditor::new();
    assert_eq!(apply_vim_editor(&mut editor, &key(KeyCode::Esc)), KeyResult::Consumed);
    assert_eq!(apply_vim_editor(&mut editor, &key(KeyCode::Esc)), KeyResult::Ignored);
    let mut editor = VimEditor::new();
    assert_eq!(apply_vim_editor(&mut editor, &key(KeyCode::Enter)), KeyResult::Consumed);
}

#[test]
fn apply_vim_editor_bubbles_exit_from_normal_mode() {
    let mut editor = VimEditor::new();
    for c in "bye".chars() {
        editor.step(KeyEvent::new(KeyCode::Char(c), NO_MODIFIERS));
    }
    assert_eq!(editor.step(key(KeyCode::Esc)), EditorEffect::Consumed);

    assert_eq!(apply_vim_editor(&mut editor, &key(KeyCode::Esc)), KeyResult::Ignored);
}

#[test]
fn static_scenarios_show_the_named_states() {
    let catalog = vim_editor_static_catalog();
    let names: Vec<&str> = catalog.iter().map(|s| s.name).collect();
    assert_eq!(
        names,
        vec!["insert-empty", "insert-with-text", "normal-mode", "visual-selection", "pending-delete", "pending-find"]
    );
    assert!(catalog.iter().all(|s| s.inputs.is_empty()));
    assert_eq!(catalog[0].state.text(), "");
    assert_eq!(catalog[1].state.mode(), VimMode::Insert);
    assert_eq!(catalog[1].state.text(), "hello world");
    assert_eq!(catalog[1].state.cursor(), 11);
    assert_eq!(catalog[2].state.mode(), VimMode::Normal);
    assert_eq!(catalog[2].state.cursor(), 10);
    assert_eq!(catalog[3].state.mode(), VimMode::Visual);
    assert_eq!(catalog[3].state.selection(), Some((0, 6)));
    assert_eq!(vim_editor_context(&catalog[4].state), vec!["vim-editor", "normal", "pending"]);
    assert_eq!(catalog[4].state.pending_display(), Some("d".to_string()));
    assert_eq!(catalog[5].state.pending_display(), Some("f".to_string()));
}

#[test]
fn interactive_scenarios_play_their_keys() {
    let catalog = vim_editor_interactive_catalog();
    let names: Vec<&str> = catalog.iter().map(|s| s.name).collect();
    assert_eq!(
        names,
        vec!["insert-to-normal", "visual-motion", "pending-command", "submit-behavior", "exit-behavior"]
    );
    let mut results = Vec::new();
    for scenario in catalog {
        let mut editor = scenario.state;
        let mut last = None;
        for input in &scenario.inputs {
            last = Some(editor.step(*input));
        }
        results.push((editor, last));
    }
    assert_eq!(results[0].0.text(), "hello");
    assert_eq!(results[0].0.mode(), VimMode::Normal);
    assert_eq!(results[1].0.selection(), Some((0, 6)));
    assert_eq!(results[2].0.pending_display(), Some("df".to_string()));
    assert_eq!(results[3].1, Some(EditorEffect::Submit("ok".to_string())));
    assert_eq!(results[4].1, Some(EditorEffect::Exit));
}
