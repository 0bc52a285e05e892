use mb_tui::input::key::{KeyCode, KeyEvent, NO_MODIFIERS};
use mb_tui::widget::flashcard::Flashcard;
use mb_tui::widget::tab_bar::{TabBar, TabPiece};
use mb_tui::widget::vim_editor::editor::VimEditor;
use mb_tui::widget::vim_editor::spec::VimMode;

fn labels(names: &[&str]) -> Vec<String> {
    names.iter().map(|n| n.to_string()).collect()
}

fn label(x: usize, text: &str, selected: bool) -> TabPiece {
    TabPiece::Label { x, text: text.to_string(), selected }
}

#[test]
fn tab_cells_place_labels_and_separators() {
    let bar = TabBar::new(labels(&["Alpha", "Beta", "Gamma"]));
    let pieces = bar.tab_cells(40).unwrap();
    assert_eq!(
        pieces,
        vec![
            label(0, "Alpha", true),
            TabPiece::Separator { x: 5 },
            label(8, "Beta", false),
            TabPiece::Separator { x: 12 },
            label(15, "Gamma", false),
        ]
    );
}

#[test]
fn tab_cells_drop_labels_past_the_width() {
    let bar = TabBar::new(labels(&["Alpha", "Beta", "Gamma", "Delta"]));
    let pieces = bar.tab_cells(15).unwrap();
    assert_eq!(pieces, vec![label(0, "Alpha", true), TabPiece::Separator { x: 5 }, label(8, "Beta", false)]);
    assert_eq!(bar.tab_cells(0).unwrap(), vec![]);
    assert_eq!(TabBar::new(vec![]).tab_cells(20).unwrap(), vec![]);
}

#[test]
fn tab_cells_ellipsize_a_label_wider_than_the_strip() {
    let bar = TabBar::new(labels(&["Longername"]));
    assert_eq!(bar.tab_cells(6).unwrap(), vec![label(0, "Longe\u{2026}", true)]);
}

#[test]
fn tab_cells_stop_where_a_separator_does_not_fit() {
    let mut bar = TabBar::new(labels(&["Alpha", "Longername"]));
    bar.select(1);
    assert_eq!(bar.tab_cells(6).unwrap(), vec![label(0, "Alpha", false)]);
}

#[test]
fn card_layout_places_label_text_and_hint() {
    let card = Flashcard::new("What is Rust?".into(), "A language.".into());
    let layout = card.card_layout(30, 20).unwrap();
    assert_eq!(layout.label_x, Some(5));
    assert_eq!(layout.dash_start, Some(10));
    assert_eq!(layout.content_width, 26);
    assert_eq!(layout.content, vec!["What is Rust?".to_string()]);
    assert_eq!(layout.hint, Some((21, 18)));
}

#[test]
fn card_layout_in_small_areas() {
    let card = Flashcard::new("Hello world".into(), "Goodbye".into());
    assert!(card.card_layout(3, 10).is_none());
    assert!(card.card_layout(10, 2).is_none());
    let tiny = card.card_layout(6, 3).unwrap();
    assert_eq!(tiny.label_x, None);
    assert_eq!(tiny.dash_start, None);
    assert!(tiny.content.is_empty());
    assert_eq!(tiny.hint, None);
    let short = card.card_layout(10, 4).unwrap();
    assert_eq!(short.content, vec!["Hello".to_string()]);
}

fn press(editor: &mut VimEditor, keys: &str) {
    for c in keys.chars() {
        editor.step(KeyEvent::new(KeyCode::Char(c), NO_MODIFIERS));
    }
}

fn esc(editor: &mut VimEditor) {
    editor.step(KeyEvent::new(KeyCode::Esc, NO_MODIFIERS));
}

#[test]
fn undo_restores_text_and_cursor_before_a_delete_motion() {
    let mut editor = VimEditor::new();
    press(&mut editor, "hello world");
    esc(&mut editor);
    press(&mut editor, "0dw");
    assert_eq!(editor.text(), "world");
    press(&mut editor, "u");
    assert_eq!(editor.text(), "hello world");
    assert_eq!(editor.cursor(), 0);
    assert_eq!(editor.mode(), VimMode::Normal);
}

#[test]
fn undo_restores_text_and_cursor_before_a_replace() {
    let mut editor = VimEditor::new();
    press(&mut editor, "abc");
    esc(&mut editor);
    press(&mut editor, "0lrx");
    assert_eq!(editor.text(), "axc");
    press(&mut editor, "u");
    assert_eq!(editor.text(), "abc");
    assert_eq!(editor.cursor(), 1);
}

#[test]
fn undo_takes_back_a_whole_insert_session() {
    let mut editor = VimEditor::new();
    press(&mut editor, "ab");
    esc(&mut editor);
    assert_eq!(editor.cursor(), 1);
    press(&mut editor, "Acd");
    editor.step(KeyEvent::new(KeyCode::Backspace, NO_MODIFIERS));
    press(&mut editor, "e");
    esc(&mut editor);
    assert_eq!(editor.text(), "abce");
    press(&mut editor, "u");
    assert_eq!(editor.text(), "ab");
    assert_eq!(editor.cursor(), 1);
}

#[test]
fn selection_ends_are_ordered_and_hold_the_cursor() {
    let mut editor = VimEditor::new();
    press(&mut editor, "hello world");
    esc(&mut editor);
    press(&mut editor, "vb");
    let (start, end) = editor.selection().unwrap();
    assert!(start <= end);
    assert!(editor.cursor() == start || editor.cursor() == end);
    assert_eq!((start, end), (6, 10));
    esc(&mut editor);
    assert_eq!(editor.selection(), None);
}

#[test]
fn undo_takes_back_a_change_command_with_its_insert_session() {
    let mut editor = VimEditor::new();
    press(&mut editor, "hello world");
    esc(&mut editor);
    press(&mut editor, "0cwhey");
    esc(&mut editor);
    assert_eq!(editor.text(), "hey world");
    press(&mut editor, "u");
    assert_eq!(editor.text(), "hello world");
    assert_eq!(editor.cursor(), 0);
}

#[test]
fn undo_takes_back_a_counted_line_delete() {
    let mut editor = VimEditor::new();
    press(&mut editor, "hello world");
    esc(&mut editor);
    press(&mut editor, "0wdd");
    assert_eq!(editor.text(), "");
    press(&mut editor, "u");
    assert_eq!(editor.text(), "hello world");
    assert_eq!(editor.cursor(), 6);
}

#[test]
fn cursor_stays_on_a_char_boundary() {
    let mut editor = VimEditor::new();
    press(&mut editor, "h\u{e9}llo w\u{f6}rld");
    esc(&mut editor);
    let keys = ["0", "l", "l", "w", "l", "$", "b", "h"];
    for k in keys {
        press(&mut editor, k);
        let text = editor.text();
        assert!(text.is_char_boundary(editor.cursor()), "cursor {} in {text:?}", editor.cursor());
    }
    press(&mut editor, "0l");
    assert_eq!(editor.cursor(), 1);
    press(&mut editor, "l");
    assert_eq!(editor.cursor(), 3);
}
