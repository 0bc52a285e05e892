use mb_tui::input::key::{KeyCode, KeyEvent, CONTROL, NO_MODIFIERS, SHIFT};
use mb_tui::render::layout::{Constraints, Size};
use mb_tui::widget::vim_editor::editor::{EditorEffect, VimEditor};
use mb_tui::widget::vim_editor::layout::{compact_editor_summary, COMPACT_EDITOR_HEIGHT, FRAMED_EDITOR_HEIGHT};
use mb_tui::widget::vim_editor::spec::VimMode;
use mb_tui::widget::vim_editor::undo::UNDO_STACK_CAPACITY;
fn key(code: KeyCode) -> KeyEvent {
    KeyEvent::new(code, NO_MODIFIERS)
}

fn char_key(c: char) -> KeyEvent {
    if c.is_uppercase() {
        KeyEvent::new(KeyCode::Char(c), SHIFT)
    } else {
        key(KeyCode::Char(c))
    }
}

/// Feed a string of chars as insert-mode key events.
fn type_str(editor: &mut VimEditor, s: &str) {
    for c in s.chars() {
        // In insert mode, chars are inserted directly regardless of modifiers.
        editor.step(KeyEvent::new(KeyCode::Char(c), NO_MODIFIERS));
    }
}


// -----------------------------------------------------------------------
// Construction
// -----------------------------------------------------------------------

#[test]
fn new_editor_starts_in_insert_mode() {
    let editor = VimEditor::new();
    assert_eq!(editor.mode(), VimMode::Insert);
    assert_eq!(editor.text(), "");
    assert_eq!(editor.cursor(), 0);
}

// -----------------------------------------------------------------------
// Insert mode basics
// -----------------------------------------------------------------------

#[test]
fn insert_chars() {
    let mut ed = VimEditor::new();
    type_str(&mut ed, "hello");
    assert_eq!(ed.text(), "hello");
    assert_eq!(ed.cursor(), 5);
}

#[test]
fn insert_backspace() {
    let mut ed = VimEditor::new();
    type_str(&mut ed, "abc");
    ed.step(key(KeyCode::Backspace));
    assert_eq!(ed.text(), "ab");
    assert_eq!(ed.cursor(), 2);
}

#[test]
fn insert_backspace_on_empty() {
    let mut ed = VimEditor::new();
    let effect = ed.step(key(KeyCode::Backspace));
    assert_eq!(effect, EditorEffect::Consumed);
    assert_eq!(ed.text(), "");
    assert_eq!(ed.cursor(), 0);
}

#[test]
fn insert_delete() {
    let mut ed = VimEditor::new();
    type_str(&mut ed, "abc");
    ed.step(key(KeyCode::Left));
    ed.step(key(KeyCode::Left));
    ed.step(key(KeyCode::Delete));
    assert_eq!(ed.text(), "ac");
    assert_eq!(ed.cursor(), 1);
}

#[test]
fn insert_submit() {
    let mut ed = VimEditor::new();
    type_str(&mut ed, "hello world");
    let effect = ed.step(key(KeyCode::Enter));
    assert_eq!(effect, EditorEffect::Submit("hello world".to_string()));
    assert_eq!(ed.text(), "");
    assert_eq!(ed.cursor(), 0);
}

#[test]
fn insert_esc_enters_normal() {
    let mut ed = VimEditor::new();
    type_str(&mut ed, "abc");
    let effect = ed.step(key(KeyCode::Esc));
    assert_eq!(effect, EditorEffect::Consumed);
    assert_eq!(ed.mode(), VimMode::Normal);
    // Cursor moves back one on Esc.
    assert_eq!(ed.cursor(), 2);
}

#[test]
fn insert_left_right_arrows() {
    let mut ed = VimEditor::new();
    type_str(&mut ed, "abcd");
    ed.step(key(KeyCode::Left));
    ed.step(key(KeyCode::Left));
    assert_eq!(ed.cursor(), 2);
    ed.step(key(KeyCode::Right));
    assert_eq!(ed.cursor(), 3);
}

#[test]
fn insert_unhandled_key_returns_ignored() {
    let mut ed = VimEditor::new();
    let effect = ed.step(key(KeyCode::Other));
    assert_eq!(effect, EditorEffect::Ignored);
}

// -----------------------------------------------------------------------
// Normal mode: motions
// -----------------------------------------------------------------------

fn normal_editor(text: &str) -> VimEditor {
    let mut ed = VimEditor::new();
    type_str(&mut ed, text);
    ed.step(key(KeyCode::Esc));
    ed
}

#[test]
fn desired_height_collapses_for_narrow_widths() {
    let editor = VimEditor::new();
    assert_eq!(
        editor.measure(Constraints::tight_width(20)).height,
        FRAMED_EDITOR_HEIGHT
    );
    assert_eq!(
        editor.measure(Constraints::tight_width(8)).height,
        COMPACT_EDITOR_HEIGHT
    );
}

#[test]
fn measure_collapses_for_short_heights() {
    let editor = VimEditor::new();
    assert_eq!(editor.measure(Constraints::loose(20, 1)), Size::new(10, 1));
    assert_eq!(
        editor.measure(Constraints::loose(20, FRAMED_EDITOR_HEIGHT)),
        Size::new(20, FRAMED_EDITOR_HEIGHT)
    );
}

#[test]
fn measure_prefers_content_width_when_constraints_are_loose() {
    let mut editor = VimEditor::new();
    type_str(&mut editor, "hi");

    let measured = editor.measure(Constraints::loose(40, 10));

    assert!(
        measured.width < 40,
        "expected intrinsic width, got {measured:?}"
    );
    assert_eq!(measured.height, FRAMED_EDITOR_HEIGHT);
}

#[test]
fn compact_render_keeps_mode_and_cursor_excerpt() {
    let mut editor = VimEditor::new();
    type_str(&mut editor, "hello");
    let text = compact_editor_summary(&editor, 8);
    assert!(text.contains('I'));
    assert!(text.contains('|'));
}

#[test]
fn normal_h_moves_left() {
    let mut ed = normal_editor("abc");
    assert_eq!(ed.cursor(), 2); // on 'c'
    ed.step(char_key('h'));
    assert_eq!(ed.cursor(), 1); // on 'b'
}

#[test]
fn normal_h_clamps_at_zero() {
    let mut ed = normal_editor("a");
    ed.step(char_key('h')); // already at 0
    assert_eq!(ed.cursor(), 0);
}

#[test]
fn normal_l_moves_right() {
    let mut ed = normal_editor("abc");
    ed.step(char_key('h')); // move to 'b'
    ed.step(char_key('l')); // move to 'c'
    assert_eq!(ed.cursor(), 2);
}

#[test]
fn normal_l_clamps_at_last_char() {
    let mut ed = normal_editor("abc");
    // Cursor is on 'c' (last char), l should not move.
    ed.step(char_key('l'));
    assert_eq!(ed.cursor(), 2);
}

#[test]
fn normal_zero_moves_to_start() {
    let mut ed = normal_editor("hello world");
    ed.step(char_key('0'));
    assert_eq!(ed.cursor(), 0);
}

#[test]
fn normal_dollar_moves_to_end() {
    let mut ed = normal_editor("hello");
    ed.step(char_key('0'));
    ed.step(char_key('$'));
    assert_eq!(ed.cursor(), 4); // on 'o'
}

#[test]
fn normal_caret_moves_to_first_non_whitespace() {
    let mut ed = VimEditor::new();
    type_str(&mut ed, "   hello");
    ed.step(key(KeyCode::Esc));
    ed.step(char_key('^'));
    assert_eq!(ed.cursor(), 3); // on 'h'
}

#[test]
fn normal_caret_on_no_whitespace() {
    let mut ed = normal_editor("hello");
    ed.step(char_key('^'));
    assert_eq!(ed.cursor(), 0);
}

// -----------------------------------------------------------------------
// Normal mode: word motions
// -----------------------------------------------------------------------

#[test]
fn normal_w_simple() {
    let mut ed = normal_editor("hello world");
    ed.step(char_key('0'));
    ed.step(char_key('w'));
    assert_eq!(ed.cursor(), 6); // on 'w'
}

#[test]
fn normal_w_punctuation_boundary() {
    let mut ed = normal_editor("foo.bar");
    ed.step(char_key('0'));
    ed.step(char_key('w'));
    assert_eq!(ed.cursor(), 3); // on '.'
}

#[test]
fn normal_w_at_end() {
    let mut ed = normal_editor("hi");
    // Cursor on 'i'. w should clamp to last char.
    ed.step(char_key('w'));
    assert_eq!(ed.cursor(), 1);
}

#[test]
fn normal_b_simple() {
    let mut ed = normal_editor("hello world");
    // Cursor on 'd' (last char).
    ed.step(char_key('b'));
    assert_eq!(ed.cursor(), 6); // on 'w'
}

#[test]
fn normal_b_at_start() {
    let mut ed = normal_editor("hello");
    ed.step(char_key('0'));
    ed.step(char_key('b'));
    assert_eq!(ed.cursor(), 0);
}

#[test]
fn normal_b_punctuation() {
    let mut ed = normal_editor("foo.bar");
    // Cursor on 'r'. b -> 'b' (pos 4), b -> '.', b -> 'f'.
    ed.step(char_key('b'));
    assert_eq!(ed.cursor(), 4); // on 'b'
    ed.step(char_key('b'));
    assert_eq!(ed.cursor(), 3); // on '.'
    ed.step(char_key('b'));
    assert_eq!(ed.cursor(), 0); // on 'f'
}

#[test]
fn normal_e_simple() {
    let mut ed = normal_editor("hello world");
    ed.step(char_key('0'));
    ed.step(char_key('e'));
    assert_eq!(ed.cursor(), 4); // on 'o' of "hello"
}

#[test]
fn normal_e_moves_to_next_word_end() {
    let mut ed = normal_editor("hi there");
    ed.step(char_key('0'));
    ed.step(char_key('e'));
    assert_eq!(ed.cursor(), 1); // on 'i'
    ed.step(char_key('e'));
    assert_eq!(ed.cursor(), 7); // on 'e' of "there"
}

// -----------------------------------------------------------------------
// Normal mode: f/t/F/T
// -----------------------------------------------------------------------

#[test]
fn normal_f_finds_char() {
    let mut ed = normal_editor("abcdef");
    ed.step(char_key('0'));
    ed.step(char_key('f'));
    ed.step(char_key('d'));
    assert_eq!(ed.cursor(), 3);
}

#[test]
fn normal_f_not_found() {
    let mut ed = normal_editor("abcdef");
    ed.step(char_key('0'));
    ed.step(char_key('f'));
    ed.step(char_key('z'));
    assert_eq!(ed.cursor(), 0); // unchanged
}

#[test]
fn normal_t_stops_before() {
    let mut ed = normal_editor("abcdef");
    ed.step(char_key('0'));
    ed.step(char_key('t'));
    ed.step(char_key('d'));
    assert_eq!(ed.cursor(), 2); // on 'c', one before 'd'
}

#[test]
fn normal_big_f_finds_backward() {
    let mut ed = normal_editor("abcdef");
    // Cursor on 'f' (pos 5), but after Esc it's on 'e' (pos 4).
    ed.step(char_key('F'));
    ed.step(char_key('b'));
    assert_eq!(ed.cursor(), 1);
}

#[test]
fn normal_big_t_stops_after() {
    let mut ed = normal_editor("abcdef");
    ed.step(char_key('T'));
    ed.step(char_key('b'));
    assert_eq!(ed.cursor(), 2); // on 'c', one after 'b'
}

#[test]
fn pending_cancelled_by_esc() {
    let mut ed = normal_editor("abcdef");
    ed.step(char_key('0'));
    ed.step(char_key('f'));
    ed.step(key(KeyCode::Esc)); // cancel pending
    assert_eq!(ed.cursor(), 0); // unchanged
}

// -----------------------------------------------------------------------
// Normal mode: insert mode transitions
// -----------------------------------------------------------------------

#[test]
fn normal_i_enters_insert_at_cursor() {
    let mut ed = normal_editor("abc");
    ed.step(char_key('h')); // cursor on 'b'
    ed.step(char_key('i'));
    assert_eq!(ed.mode(), VimMode::Insert);
    assert_eq!(ed.cursor(), 1); // still on 'b'
}

#[test]
fn normal_a_enters_insert_after_cursor() {
    let mut ed = normal_editor("abc");
    ed.step(char_key('0'));
    ed.step(char_key('a'));
    assert_eq!(ed.mode(), VimMode::Insert);
    assert_eq!(ed.cursor(), 1); // after 'a'
}

#[test]
fn normal_big_i_enters_insert_at_first_nonwhitespace() {
    let mut ed = VimEditor::new();
    type_str(&mut ed, "  hello");
    ed.step(key(KeyCode::Esc));
    ed.step(char_key('I'));
    assert_eq!(ed.mode(), VimMode::Insert);
    assert_eq!(ed.cursor(), 2);
}

#[test]
fn normal_big_a_enters_insert_at_end() {
    let mut ed = normal_editor("abc");
    ed.step(char_key('0'));
    ed.step(char_key('A'));
    assert_eq!(ed.mode(), VimMode::Insert);
    assert_eq!(ed.cursor(), 3); // past end
}

// -----------------------------------------------------------------------
// Normal mode: deletions
// -----------------------------------------------------------------------

#[test]
fn normal_x_deletes_at_cursor() {
    let mut ed = normal_editor("abc");
    ed.step(char_key('0'));
    ed.step(char_key('x'));
    assert_eq!(ed.text(), "bc");
    assert_eq!(ed.cursor(), 0);
}

#[test]
fn normal_x_on_last_char() {
    let mut ed = normal_editor("abc");
    // Cursor on 'c'.
    ed.step(char_key('x'));
    assert_eq!(ed.text(), "ab");
    // Cursor should move back to 'b'.
    assert_eq!(ed.cursor(), 1);
}

#[test]
fn normal_x_on_single_char() {
    let mut ed = normal_editor("a");
    ed.step(char_key('x'));
    assert_eq!(ed.text(), "");
    assert_eq!(ed.cursor(), 0);
}

#[test]
fn normal_big_x_deletes_before_cursor() {
    let mut ed = normal_editor("abc");
    // Cursor on 'c'.
    ed.step(char_key('X'));
    assert_eq!(ed.text(), "ac");
    assert_eq!(ed.cursor(), 1); // on 'c'
}

#[test]
fn normal_big_x_at_start() {
    let mut ed = normal_editor("abc");
    ed.step(char_key('0'));
    ed.step(char_key('X'));
    assert_eq!(ed.text(), "abc"); // no change
    assert_eq!(ed.cursor(), 0);
}

// -----------------------------------------------------------------------
// Normal mode: Esc exits editor
// -----------------------------------------------------------------------

#[test]
fn normal_esc_returns_exit() {
    let mut ed = normal_editor("hello");
    let effect = ed.step(key(KeyCode::Esc));
    assert_eq!(effect, EditorEffect::Exit);
}

// -----------------------------------------------------------------------
// take_text
// -----------------------------------------------------------------------

#[test]
fn take_text_resets() {
    let mut ed = VimEditor::new();
    type_str(&mut ed, "hello");
    let text = ed.take_text();
    assert_eq!(text, "hello");
    assert_eq!(ed.text(), "");
    assert_eq!(ed.cursor(), 0);
    assert_eq!(ed.mode(), VimMode::Insert);
}

// -----------------------------------------------------------------------
// Empty buffer edge cases
// -----------------------------------------------------------------------

#[test]
fn normal_motions_on_empty() {
    let mut ed = VimEditor::new();
    ed.step(key(KeyCode::Esc));
    assert_eq!(ed.mode(), VimMode::Normal);

    // All motions should be no-ops on empty buffer.
    for k in [
        char_key('h'),
        char_key('l'),
        char_key('w'),
        char_key('b'),
        char_key('e'),
        char_key('0'),
        char_key('$'),
        char_key('^'),
    ] {
        ed.step(k);
        assert_eq!(ed.cursor(), 0);
    }
}

#[test]
fn normal_x_on_empty() {
    let mut ed = VimEditor::new();
    ed.step(key(KeyCode::Esc));
    ed.step(char_key('x'));
    assert_eq!(ed.text(), "");
    assert_eq!(ed.cursor(), 0);
}

// -----------------------------------------------------------------------
// Multi-byte characters
// -----------------------------------------------------------------------

#[test]
fn insert_multibyte() {
    let mut ed = VimEditor::new();
    type_str(&mut ed, "cafe\u{0301}"); // cafe with combining accent
    assert_eq!(ed.text(), "cafe\u{0301}");
}

#[test]
fn normal_motions_with_multibyte() {
    let mut ed = VimEditor::new();
    // Insert some unicode.
    type_str(&mut ed, "\u{00e9}l\u{00e8}ve"); // "eleve" with accents
    ed.step(key(KeyCode::Esc));
    ed.step(char_key('0'));
    assert_eq!(ed.cursor(), 0);
    ed.step(char_key('l'));
    assert_eq!(ed.cursor(), 2); // past the 2-byte e-acute
}

// -----------------------------------------------------------------------
// Arrow keys in normal mode
// -----------------------------------------------------------------------

#[test]
fn normal_arrow_keys() {
    let mut ed = normal_editor("abc");
    ed.step(key(KeyCode::Left));
    assert_eq!(ed.cursor(), 1);
    ed.step(key(KeyCode::Right));
    assert_eq!(ed.cursor(), 2);
}

// -----------------------------------------------------------------------
// Unhandled key in normal mode
// -----------------------------------------------------------------------

#[test]
fn normal_unhandled_key() {
    let mut ed = normal_editor("abc");
    let effect = ed.step(key(KeyCode::Other));
    assert_eq!(effect, EditorEffect::Ignored);
}

// -----------------------------------------------------------------------
// Compound sequences
// -----------------------------------------------------------------------

#[test]
fn insert_esc_motion_insert_again() {
    let mut ed = VimEditor::new();
    type_str(&mut ed, "hello world");
    ed.step(key(KeyCode::Esc));
    ed.step(char_key('0'));
    ed.step(char_key('w'));
    ed.step(char_key('i'));
    type_str(&mut ed, "big ");
    assert_eq!(ed.text(), "hello big world");
}

#[test]
fn f_motion_then_delete() {
    let mut ed = normal_editor("hello world");
    ed.step(char_key('0'));
    ed.step(char_key('f'));
    ed.step(char_key('w'));
    assert_eq!(ed.cursor(), 6);
    ed.step(char_key('x'));
    assert_eq!(ed.text(), "hello orld");
}

// -----------------------------------------------------------------------
// Word motion edge cases
// -----------------------------------------------------------------------

#[test]
fn w_across_multiple_spaces() {
    let mut ed = normal_editor("a   b");
    ed.step(char_key('0'));
    ed.step(char_key('w'));
    assert_eq!(ed.cursor(), 4); // on 'b'
}

#[test]
fn b_across_multiple_spaces() {
    let mut ed = normal_editor("a   b");
    // Cursor on 'b' (pos 4) after Esc.
    ed.step(char_key('b'));
    assert_eq!(ed.cursor(), 0); // on 'a'
}

#[test]
fn e_single_char_word() {
    let mut ed = normal_editor("a b c");
    ed.step(char_key('0'));
    ed.step(char_key('e'));
    // 'a' is a single char word, e from 'a' should go to end of next word.
    // Actually, 'a' at pos 0 is already at its own end. e should move to 'b'.
    assert_eq!(ed.cursor(), 2); // on 'b'
}

#[test]
fn w_on_punctuation_then_word() {
    let mut ed = normal_editor("a..b");
    ed.step(char_key('0'));
    ed.step(char_key('w'));
    assert_eq!(ed.cursor(), 1); // on '.'
    ed.step(char_key('w'));
    assert_eq!(ed.cursor(), 3); // on 'b'
}

// -----------------------------------------------------------------------
// Additional edge case tests
// -----------------------------------------------------------------------

#[test]
fn e_with_trailing_whitespace() {
    let mut ed = normal_editor("hi  ");
    ed.step(char_key('0'));
    ed.step(char_key('e'));
    assert_eq!(ed.cursor(), 1); // on 'i'
}

#[test]
fn w_unicode_word_chars() {
    let mut ed = normal_editor("caf\u{00e9} latte");
    ed.step(char_key('0'));
    ed.step(char_key('w'));
    // With Unicode-aware classification, "café" is one word (5 bytes).
    // w skips the word then the space, landing on 'l' of "latte".
    assert_eq!(ed.cursor(), 6);
}

#[test]
fn t_adjacent_char_no_move() {
    let mut ed = normal_editor("ab");
    ed.step(char_key('0'));
    ed.step(char_key('t'));
    ed.step(char_key('b'));
    assert_eq!(ed.cursor(), 0); // can't stop "before" adjacent char
}

// -----------------------------------------------------------------------
// Replace: r{char}
// -----------------------------------------------------------------------

#[test]
fn replace_basic() {
    let mut ed = normal_editor("abc");
    ed.step(char_key('0'));
    ed.step(char_key('r'));
    ed.step(char_key('z'));
    assert_eq!(ed.text(), "zbc");
    assert_eq!(ed.cursor(), 0);
    assert_eq!(ed.mode(), VimMode::Normal);
}

#[test]
fn replace_at_end() {
    let mut ed = normal_editor("abc");
    // Cursor on 'c' after Esc.
    ed.step(char_key('r'));
    ed.step(char_key('z'));
    assert_eq!(ed.text(), "abz");
    assert_eq!(ed.cursor(), 2);
}

#[test]
fn replace_single_char() {
    let mut ed = normal_editor("x");
    ed.step(char_key('r'));
    ed.step(char_key('y'));
    assert_eq!(ed.text(), "y");
    assert_eq!(ed.cursor(), 0);
}

#[test]
fn replace_with_unicode() {
    let mut ed = normal_editor("abc");
    ed.step(char_key('0'));
    ed.step(char_key('r'));
    ed.step(KeyEvent::new(KeyCode::Char('\u{00e9}'), NO_MODIFIERS));
    assert_eq!(ed.text(), "\u{00e9}bc");
    assert_eq!(ed.cursor(), 0);
}

#[test]
fn replace_on_empty_is_noop() {
    let mut ed = VimEditor::new();
    ed.step(key(KeyCode::Esc));
    ed.step(char_key('r'));
    // Should not enter pending state on empty buffer.
    assert_eq!(ed.pending_display(), None);
    assert_eq!(ed.text(), "");
}

#[test]
fn replace_cancelled_by_esc() {
    let mut ed = normal_editor("abc");
    ed.step(char_key('0'));
    ed.step(char_key('r'));
    assert_eq!(ed.pending_display(), Some("r".into()));
    ed.step(key(KeyCode::Esc));
    assert_eq!(ed.text(), "abc"); // Unchanged.
    assert_eq!(ed.cursor(), 0);
}

// -----------------------------------------------------------------------
// Operator: dw, db, de, d$, d0, dd
// -----------------------------------------------------------------------

#[test]
fn dw_basic() {
    let mut ed = normal_editor("hello world");
    ed.step(char_key('0'));
    ed.step(char_key('d'));
    ed.step(char_key('w'));
    // Deletes "hello " (cursor to next word start).
    assert_eq!(ed.text(), "world");
    assert_eq!(ed.cursor(), 0);
}

#[test]
fn dw_at_end_of_line() {
    let mut ed = normal_editor("hello");
    // Cursor on 'o'. dw from last char deletes nothing if next_word_start == cursor.
    ed.step(char_key('d'));
    ed.step(char_key('w'));
    // "hello" with cursor on 'o' (pos 4), next_word_start returns 5 (len).
    assert_eq!(ed.text(), "hell");
    assert_eq!(ed.cursor(), 3);
}

#[test]
fn dw_across_punctuation() {
    let mut ed = normal_editor("foo.bar");
    ed.step(char_key('0'));
    ed.step(char_key('d'));
    ed.step(char_key('w'));
    // "foo" is a word, next word start is '.', so deletes "foo".
    assert_eq!(ed.text(), ".bar");
    assert_eq!(ed.cursor(), 0);
}

#[test]
fn db_basic() {
    let mut ed = normal_editor("hello world");
    // Cursor on 'd' (pos 10). db deletes back to 'w' (pos 6).
    ed.step(char_key('d'));
    ed.step(char_key('b'));
    assert_eq!(ed.text(), "hello d");
    assert_eq!(ed.cursor(), 6);
}

#[test]
fn db_at_start() {
    let mut ed = normal_editor("hello");
    ed.step(char_key('0'));
    ed.step(char_key('d'));
    ed.step(char_key('b'));
    // At start, prev_word_start is 0, range is (0, 0), no deletion.
    assert_eq!(ed.text(), "hello");
    assert_eq!(ed.cursor(), 0);
}

#[test]
fn de_basic() {
    let mut ed = normal_editor("hello world");
    ed.step(char_key('0'));
    ed.step(char_key('d'));
    ed.step(char_key('e'));
    // Deletes "hello" (inclusive of word end).
    assert_eq!(ed.text(), " world");
    assert_eq!(ed.cursor(), 0);
}

#[test]
fn d_dollar_basic() {
    let mut ed = normal_editor("hello world");
    ed.step(char_key('0'));
    ed.step(char_key('w')); // Move to 'w' of "world".
    ed.step(char_key('d'));
    ed.step(char_key('$'));
    assert_eq!(ed.text(), "hello ");
    assert_eq!(ed.cursor(), 5);
}

#[test]
fn d_zero_basic() {
    let mut ed = normal_editor("hello world");
    // Cursor on 'd' (pos 10).
    ed.step(char_key('d'));
    ed.step(char_key('0'));
    assert_eq!(ed.text(), "d");
    assert_eq!(ed.cursor(), 0);
}

#[test]
fn d_caret() {
    let mut ed = VimEditor::new();
    type_str(&mut ed, "   hello");
    ed.step(key(KeyCode::Esc));
    // Cursor on 'o' (pos 7).
    ed.step(char_key('d'));
    ed.step(char_key('^'));
    // Deletes from first non-ws (pos 3) to cursor (pos 7).
    assert_eq!(ed.text(), "   o");
    assert_eq!(ed.cursor(), 3);
}

#[test]
fn dd_clears_entire_line() {
    let mut ed = normal_editor("hello world");
    ed.step(char_key('d'));
    ed.step(char_key('d'));
    assert_eq!(ed.text(), "");
    assert_eq!(ed.cursor(), 0);
}

#[test]
fn dh_basic() {
    let mut ed = normal_editor("abc");
    // Cursor on 'c' (pos 2).
    ed.step(char_key('d'));
    ed.step(char_key('h'));
    assert_eq!(ed.text(), "ac");
    assert_eq!(ed.cursor(), 1);
}

#[test]
fn dl_basic() {
    let mut ed = normal_editor("abc");
    ed.step(char_key('0'));
    ed.step(char_key('d'));
    ed.step(char_key('l'));
    assert_eq!(ed.text(), "bc");
    assert_eq!(ed.cursor(), 0);
}

// -----------------------------------------------------------------------
// Operator: df{char}, dt{char}
// -----------------------------------------------------------------------

#[test]
fn df_basic() {
    let mut ed = normal_editor("hello world");
    ed.step(char_key('0'));
    ed.step(char_key('d'));
    ed.step(char_key('f'));
    ed.step(char_key('o'));
    // find_forward from 'h' finds 'o' at pos 4, inclusive so deletes [0, 5).
    assert_eq!(ed.text(), " world");
    assert_eq!(ed.cursor(), 0);
}

#[test]
fn df_not_found_is_noop() {
    let mut ed = normal_editor("hello");
    ed.step(char_key('0'));
    ed.step(char_key('d'));
    ed.step(char_key('f'));
    ed.step(char_key('z'));
    assert_eq!(ed.text(), "hello");
    assert_eq!(ed.cursor(), 0);
}

#[test]
fn dt_basic() {
    let mut ed = normal_editor("hello world");
    ed.step(char_key('0'));
    ed.step(char_key('d'));
    ed.step(char_key('t'));
    ed.step(char_key(' '));
    // til_forward finds ' ' at pos 5, stops one before at pos 4.
    // Deletes [0, 4) — but wait, til returns the position before target.
    // From 'h', til ' ' -> prev_boundary(5) = 4, clamped to max(cursor=0).
    // So range is (0, 4).
    assert_eq!(ed.text(), "o world");
    assert_eq!(ed.cursor(), 0);
}

// -----------------------------------------------------------------------
// Operator: c variants (change)
// -----------------------------------------------------------------------

#[test]
fn cc_clears_and_enters_insert() {
    let mut ed = normal_editor("hello world");
    ed.step(char_key('c'));
    ed.step(char_key('c'));
    assert_eq!(ed.text(), "");
    assert_eq!(ed.cursor(), 0);
    assert_eq!(ed.mode(), VimMode::Insert);
}

#[test]
fn cw_basic() {
    let mut ed = normal_editor("hello world");
    ed.step(char_key('0'));
    ed.step(char_key('c'));
    ed.step(char_key('w'));
    assert_eq!(ed.text(), "world");
    assert_eq!(ed.cursor(), 0);
    assert_eq!(ed.mode(), VimMode::Insert);
}

#[test]
fn c_dollar_basic() {
    let mut ed = normal_editor("hello world");
    ed.step(char_key('0'));
    ed.step(char_key('w')); // Move to 'w'.
    ed.step(char_key('c'));
    ed.step(char_key('$'));
    assert_eq!(ed.text(), "hello ");
    assert_eq!(ed.mode(), VimMode::Insert);
    // Can now type replacement text.
    type_str(&mut ed, "there");
    assert_eq!(ed.text(), "hello there");
}

#[test]
fn cf_basic() {
    let mut ed = normal_editor("abcdef");
    ed.step(char_key('0'));
    ed.step(char_key('c'));
    ed.step(char_key('f'));
    ed.step(char_key('d'));
    // Deletes [0, 4) inclusive of 'd', so [0, next_boundary(3)) = [0, 4).
    assert_eq!(ed.text(), "ef");
    assert_eq!(ed.mode(), VimMode::Insert);
    assert_eq!(ed.cursor(), 0);
}

// -----------------------------------------------------------------------
// Operator cancelled by Esc
// -----------------------------------------------------------------------

#[test]
fn operator_cancelled_by_esc() {
    let mut ed = normal_editor("hello");
    ed.step(char_key('0'));
    ed.step(char_key('d'));
    assert_eq!(ed.pending_display(), Some("d".into()));
    ed.step(key(KeyCode::Esc));
    assert_eq!(ed.text(), "hello"); // Unchanged.
    assert_eq!(ed.cursor(), 0);
    assert_eq!(ed.pending_display(), None);
}

#[test]
fn operator_find_cancelled_by_esc() {
    let mut ed = normal_editor("hello");
    ed.step(char_key('0'));
    ed.step(char_key('d'));
    ed.step(char_key('f'));
    assert_eq!(ed.pending_display(), Some("df".into()));
    ed.step(key(KeyCode::Esc));
    assert_eq!(ed.text(), "hello");
    assert_eq!(ed.cursor(), 0);
}

// -----------------------------------------------------------------------
// Pending display
// -----------------------------------------------------------------------

#[test]
fn pending_display_shows_correct_state() {
    let mut ed = normal_editor("hello");
    assert_eq!(ed.pending_display(), None);

    ed.step(char_key('d'));
    assert_eq!(ed.pending_display(), Some("d".into()));

    // Complete the operator to clear pending.
    ed.step(char_key('d'));
    assert_eq!(ed.pending_display(), None);
}

// -----------------------------------------------------------------------
// Undo / redo
// -----------------------------------------------------------------------

#[test]
fn undo_insert_session() {
    // Type text, esc, undo restores empty.
    let mut ed = VimEditor::new();
    type_str(&mut ed, "hello");
    ed.step(key(KeyCode::Esc));
    assert_eq!(ed.text(), "hello");

    ed.step(char_key('u'));
    assert_eq!(ed.text(), "");
    assert_eq!(ed.cursor(), 0);
}

#[test]
fn undo_multiple_commands() {
    // Several commands, undo each one.
    let mut ed = VimEditor::new();
    type_str(&mut ed, "abc");
    ed.step(key(KeyCode::Esc));
    // Now in normal mode on 'c'. Delete 'c' with x.
    ed.step(char_key('x'));
    assert_eq!(ed.text(), "ab");
    // Delete 'b' with x.
    ed.step(char_key('x'));
    assert_eq!(ed.text(), "a");

    // Undo second x.
    ed.step(char_key('u'));
    assert_eq!(ed.text(), "ab");
    // Undo first x.
    ed.step(char_key('u'));
    assert_eq!(ed.text(), "abc");
}

#[test]
fn redo_after_undo() {
    let mut ed = VimEditor::new();
    type_str(&mut ed, "hello");
    ed.step(key(KeyCode::Esc));
    ed.step(char_key('x')); // Delete 'o'.
    assert_eq!(ed.text(), "hell");

    ed.step(char_key('u')); // Undo.
    assert_eq!(ed.text(), "hello");

    // Ctrl+R to redo.
    ed.step(KeyEvent::new(KeyCode::Char('r'), CONTROL));
    assert_eq!(ed.text(), "hell");
}

#[test]
fn redo_truncated_by_new_edit() {
    let mut ed = VimEditor::new();
    type_str(&mut ed, "abc");
    ed.step(key(KeyCode::Esc));
    ed.step(char_key('x')); // Delete 'c' -> "ab".
    ed.step(char_key('u')); // Undo -> "abc".

    // New edit truncates redo history.
    ed.step(char_key('x')); // Delete 'c' again.
    assert_eq!(ed.text(), "ab");

    // Redo should do nothing since history was truncated.
    ed.step(KeyEvent::new(KeyCode::Char('r'), CONTROL));
    assert_eq!(ed.text(), "ab");
}

#[test]
fn undo_after_dw() {
    let mut ed = normal_editor("hello world");
    ed.step(char_key('0'));
    ed.step(char_key('d'));
    ed.step(char_key('w'));
    assert_eq!(ed.text(), "world");

    ed.step(char_key('u'));
    assert_eq!(ed.text(), "hello world");
}

#[test]
fn undo_after_replace() {
    let mut ed = normal_editor("abc");
    ed.step(char_key('0'));
    ed.step(char_key('r'));
    ed.step(char_key('z'));
    assert_eq!(ed.text(), "zbc");

    ed.step(char_key('u'));
    assert_eq!(ed.text(), "abc");
}

#[test]
fn insert_session_is_one_undo_unit() {
    // Enter insert, type multiple chars, esc, undo reverts all of them.
    let mut ed = normal_editor("abc");
    ed.step(char_key('A')); // Append at end.
    type_str(&mut ed, "def");
    ed.step(key(KeyCode::Esc));
    assert_eq!(ed.text(), "abcdef");

    ed.step(char_key('u'));
    assert_eq!(ed.text(), "abc");
}

#[test]
fn undo_on_empty_stack_is_noop() {
    let mut ed = VimEditor::new();
    ed.step(key(KeyCode::Esc));
    // No edits have been made; undo should be a no-op.
    ed.step(char_key('u'));
    assert_eq!(ed.text(), "");
    assert_eq!(ed.cursor(), 0);
}

#[test]
fn redo_on_empty_stack_is_noop() {
    let mut ed = VimEditor::new();
    ed.step(key(KeyCode::Esc));
    // No undos have been performed; redo should be a no-op.
    ed.step(KeyEvent::new(KeyCode::Char('r'), CONTROL));
    assert_eq!(ed.text(), "");
    assert_eq!(ed.cursor(), 0);
}

#[test]
fn undo_restores_cursor_position() {
    let mut ed = normal_editor("hello world");
    let cursor_before = ed.cursor();
    ed.step(char_key('x'));
    assert_ne!(ed.cursor(), cursor_before);

    ed.step(char_key('u'));
    assert_eq!(ed.text(), "hello world");
    // Cursor should be restored to where it was before the command.
    assert_eq!(ed.cursor(), cursor_before);
}

#[test]
fn undo_stack_bounds() {
    // Push more than UNDO_STACK_CAPACITY entries, oldest should be dropped.
    let mut ed = normal_editor("x");
    // Repeatedly replace the char to fill the undo stack.
    for i in 0..120 {
        let c = char::from(b'a' + (i % 26));
        ed.step(char_key('r'));
        ed.step(char_key(c));
    }
    // Should still be able to undo up to UNDO_STACK_CAPACITY times.
    for _ in 0..UNDO_STACK_CAPACITY {
        ed.step(char_key('u'));
    }
    // One more undo should be a no-op (oldest entries dropped).
    let text_before = ed.text().to_string();
    ed.step(char_key('u'));
    assert_eq!(ed.text(), text_before);
}

// -----------------------------------------------------------------------
// Numeric counts
// -----------------------------------------------------------------------

#[test]
fn count_3w_moves_three_words() {
    let mut ed = normal_editor("one two three four");
    ed.step(char_key('0'));
    ed.step(char_key('3'));
    ed.step(char_key('w'));
    // Should land on 'f' of "four".
    assert_eq!(ed.cursor(), 14);
}

#[test]
fn count_3l_moves_three_chars() {
    let mut ed = normal_editor("abcdef");
    ed.step(char_key('0'));
    ed.step(char_key('3'));
    ed.step(char_key('l'));
    assert_eq!(ed.cursor(), 3);
}

#[test]
fn count_2x_deletes_two_chars() {
    let mut ed = normal_editor("abcdef");
    ed.step(char_key('0'));
    ed.step(char_key('2'));
    ed.step(char_key('x'));
    assert_eq!(ed.text(), "cdef");
    assert_eq!(ed.cursor(), 0);
}

#[test]
fn count_3dw_deletes_three_words() {
    let mut ed = normal_editor("one two three four");
    ed.step(char_key('0'));
    ed.step(char_key('3'));
    ed.step(char_key('d'));
    ed.step(char_key('w'));
    assert_eq!(ed.text(), "four");
    assert_eq!(ed.cursor(), 0);
}

#[test]
fn count_d3w_deletes_three_words() {
    // Count after operator also works.
    let mut ed = normal_editor("one two three four");
    ed.step(char_key('0'));
    ed.step(char_key('d'));
    ed.step(char_key('3'));
    ed.step(char_key('w'));
    assert_eq!(ed.text(), "four");
    assert_eq!(ed.cursor(), 0);
}

#[test]
fn zero_still_moves_to_start_without_count() {
    let mut ed = normal_editor("hello world");
    // Cursor on 'd' (last char). Press '0' with no preceding count.
    ed.step(char_key('0'));
    assert_eq!(ed.cursor(), 0);
}

#[test]
fn two_digit_count_10l() {
    let mut ed = normal_editor("abcdefghijklmno");
    ed.step(char_key('0'));
    ed.step(char_key('1'));
    ed.step(char_key('0'));
    ed.step(char_key('l'));
    assert_eq!(ed.cursor(), 10);
}

#[test]
fn count_2fa_finds_second_a() {
    let mut ed = normal_editor("banana");
    ed.step(char_key('0'));
    ed.step(char_key('2'));
    ed.step(char_key('f'));
    ed.step(char_key('a'));
    // First 'a' at pos 1, from there second 'a' at pos 3.
    assert_eq!(ed.cursor(), 3);
}

#[test]
fn count_display_in_pending() {
    let mut ed = normal_editor("hello");
    ed.step(char_key('3'));
    assert_eq!(ed.pending_display(), Some("3".into()));

    ed.step(char_key('d'));
    assert_eq!(ed.pending_display(), Some("3d".into()));

    // Cancel to avoid side effects.
    ed.step(key(KeyCode::Esc));
    assert_eq!(ed.pending_display(), None);
}

#[test]
fn count_3h_moves_left_three() {
    let mut ed = normal_editor("abcdef");
    // Cursor on 'f' (pos 5) after esc.
    assert_eq!(ed.cursor(), 5);
    ed.step(char_key('3'));
    ed.step(char_key('h'));
    // 5 -> 4 -> 3 -> 2
    assert_eq!(ed.cursor(), 2);
}

#[test]
fn count_cleared_on_unhandled_key() {
    let mut ed = normal_editor("hello");
    ed.step(char_key('3'));
    assert_eq!(ed.pending_display(), Some("3".into()));
    ed.step(key(KeyCode::Other)); // Unhandled.
    assert_eq!(ed.pending_display(), None);
}

// -----------------------------------------------------------------------
// Counted undo / redo
// -----------------------------------------------------------------------

#[test]
fn counted_undo() {
    // 3u undoes 3 operations.
    let mut ed = normal_editor("abc");
    ed.step(char_key('x')); // delete c -> "ab"
    ed.step(char_key('x')); // delete b -> "a"
    ed.step(char_key('x')); // delete a -> ""
    // 3u should restore all three.
    ed.step(char_key('3'));
    ed.step(char_key('u'));
    assert_eq!(ed.text(), "abc");
}

#[test]
fn counted_redo() {
    let mut ed = normal_editor("abc");
    ed.step(char_key('x'));
    ed.step(char_key('x'));
    ed.step(char_key('x'));
    ed.step(char_key('3'));
    ed.step(char_key('u'));
    assert_eq!(ed.text(), "abc");
    // 3 Ctrl+R should redo all three.
    ed.step(char_key('3'));
    ed.step(KeyEvent::new(KeyCode::Char('r'), CONTROL));
    assert_eq!(ed.text(), "");
}

// -----------------------------------------------------------------------
// Counted replace
// -----------------------------------------------------------------------

#[test]
fn counted_replace() {
    // 3ra on "hello" at pos 0 -> "aaalo".
    let mut ed = normal_editor("hello");
    ed.step(char_key('0'));
    ed.step(char_key('3'));
    ed.step(char_key('r'));
    ed.step(char_key('a'));
    assert_eq!(ed.text(), "aaalo");
}

#[test]
fn counted_replace_too_few_chars() {
    // 5ra on "ab" -- only 2 chars, should be no-op.
    let mut ed = normal_editor("ab");
    ed.step(char_key('0'));
    ed.step(char_key('5'));
    ed.step(char_key('r'));
    ed.step(char_key('a'));
    assert_eq!(ed.text(), "ab");
}

// -----------------------------------------------------------------------
// Edge case: count exceeding buffer
// -----------------------------------------------------------------------

#[test]
fn count_exceeding_buffer_length() {
    let mut ed = normal_editor("abc");
    ed.step(char_key('0'));
    // 100x on 3-char buffer.
    ed.step(char_key('1'));
    ed.step(char_key('0'));
    ed.step(char_key('0'));
    ed.step(char_key('x'));
    assert_eq!(ed.text(), "");
}

#[test]
fn count_l_clamps_at_end() {
    let mut ed = normal_editor("abc");
    ed.step(char_key('0'));
    ed.step(char_key('1'));
    ed.step(char_key('0'));
    ed.step(char_key('0'));
    ed.step(char_key('l'));
    assert_eq!(ed.cursor(), 2); // Clamped at last char.
}

// -----------------------------------------------------------------------
// Operator count multiplication
// -----------------------------------------------------------------------

#[test]
fn operator_count_multiplication() {
    // 2d3w should delete 6 words.
    let mut ed = normal_editor("a b c d e f g h");
    ed.step(char_key('0'));
    ed.step(char_key('2'));
    ed.step(char_key('d'));
    ed.step(char_key('3'));
    ed.step(char_key('w'));
    assert_eq!(ed.text(), "g h");
}

// -----------------------------------------------------------------------
// Visual mode
// -----------------------------------------------------------------------

#[test]
fn visual_v_enters_and_esc_exits() {
    let mut ed = normal_editor("hello");
    ed.step(char_key('0'));
    ed.step(char_key('v'));
    assert_eq!(ed.mode(), VimMode::Visual);
    assert_eq!(ed.selection(), Some((0, 0)));

    ed.step(key(KeyCode::Esc));
    assert_eq!(ed.mode(), VimMode::Normal);
    assert_eq!(ed.selection(), None);
}

#[test]
fn visual_v_toggles_back_to_normal() {
    let mut ed = normal_editor("hello");
    ed.step(char_key('v'));
    assert_eq!(ed.mode(), VimMode::Visual);
    ed.step(char_key('v'));
    assert_eq!(ed.mode(), VimMode::Normal);
}

#[test]
fn visual_motion_extends_selection() {
    let mut ed = normal_editor("hello world");
    ed.step(char_key('0'));
    ed.step(char_key('v'));
    ed.step(char_key('w'));
    // After w, cursor at 6 ('w'), selection is (0, 6).
    assert_eq!(ed.selection(), Some((0, 6)));
    assert_eq!(ed.cursor(), 6);
}

#[test]
fn visual_dollar_extends_to_end() {
    let mut ed = normal_editor("hello");
    ed.step(char_key('0'));
    ed.step(char_key('v'));
    ed.step(char_key('$'));
    assert_eq!(ed.selection(), Some((0, 4)));
}

#[test]
fn visual_e_extends_to_word_end() {
    let mut ed = normal_editor("hello world");
    ed.step(char_key('0'));
    ed.step(char_key('v'));
    ed.step(char_key('e'));
    assert_eq!(ed.selection(), Some((0, 4)));
}

#[test]
fn visual_d_deletes_selection() {
    let mut ed = normal_editor("hello world");
    ed.step(char_key('0'));
    ed.step(char_key('v'));
    ed.step(char_key('w'));
    ed.step(char_key('d'));
    // Deletes "hello " (0..6, inclusive of cursor char 'w' -> next boundary = 7).
    // Wait: selection is (0, 6), step_visual_operator makes it inclusive of cursor char.
    // anchor=0, cursor=6. start=0, end=next_boundary(6)=7. Deletes "hello w".
    // Actually let me re-check: selection is min(anchor, cursor)..max(anchor, cursor).
    // anchor=0, cursor=6. So selection() returns (0, 6). But step_visual_operator
    // computes end = next_boundary(max(0,6)) = 7. So deletes [0,7) = "hello w".
    assert_eq!(ed.text(), "orld");
    assert_eq!(ed.mode(), VimMode::Normal);
}

#[test]
fn visual_c_changes_selection() {
    let mut ed = normal_editor("hello world");
    ed.step(char_key('0'));
    ed.step(char_key('v'));
    ed.step(char_key('e'));
    ed.step(char_key('c'));
    // Deletes "hello" (0..5, inclusive of 'o' at pos 4 -> next_boundary = 5).
    assert_eq!(ed.text(), " world");
    assert_eq!(ed.mode(), VimMode::Insert);
}

#[test]
fn visual_y_yanks_selection() {
    let mut ed = normal_editor("hello world");
    ed.step(char_key('0'));
    ed.step(char_key('v'));
    ed.step(char_key('e'));
    ed.step(char_key('y'));
    // Text unchanged, back to normal mode.
    assert_eq!(ed.text(), "hello world");
    assert_eq!(ed.mode(), VimMode::Normal);
    // Cursor remains at end of selection (pos 4, on 'o').
    assert_eq!(ed.cursor(), 4);
    // Paste after cursor to verify yanked text.
    ed.step(char_key('p'));
    assert_eq!(ed.text(), "hellohello world");
}

#[test]
fn visual_x_same_as_d() {
    let mut ed = normal_editor("hello");
    ed.step(char_key('0'));
    ed.step(char_key('v'));
    ed.step(char_key('l'));
    ed.step(char_key('x'));
    assert_eq!(ed.text(), "llo");
    assert_eq!(ed.mode(), VimMode::Normal);
}

// -----------------------------------------------------------------------
// Yank / paste
// -----------------------------------------------------------------------

#[test]
fn yank_inner_word_then_paste() {
    let mut ed = normal_editor("hello world");
    ed.step(char_key('0'));
    ed.step(char_key('y'));
    ed.step(char_key('i'));
    ed.step(char_key('w'));
    assert_eq!(ed.text(), "hello world"); // Unchanged.
    // Paste after cursor.
    ed.step(char_key('p'));
    assert_eq!(ed.text(), "hhelloello world");
}

#[test]
fn dd_yanks_then_paste() {
    let mut ed = normal_editor("hello world");
    ed.step(char_key('d'));
    ed.step(char_key('d'));
    assert_eq!(ed.text(), "");
    // Paste the deleted line.
    ed.step(char_key('p'));
    assert_eq!(ed.text(), "hello world");
}

#[test]
fn dw_yanks_deleted_text() {
    let mut ed = normal_editor("hello world");
    ed.step(char_key('0'));
    ed.step(char_key('d'));
    ed.step(char_key('w'));
    assert_eq!(ed.text(), "world");
    // Paste the deleted "hello ".
    ed.step(char_key('p'));
    assert_eq!(ed.text(), "whello orld");
}

#[test]
fn big_p_pastes_before_cursor() {
    let mut ed = normal_editor("hello world");
    ed.step(char_key('0'));
    ed.step(char_key('y'));
    ed.step(char_key('i'));
    ed.step(char_key('w'));
    // Move to 'w' of "world".
    ed.step(char_key('w'));
    ed.step(char_key('P'));
    // P inserts before cursor.
    assert_eq!(ed.text(), "hello helloworld");
}

#[test]
fn paste_on_empty_register_is_noop() {
    let mut ed = normal_editor("hello");
    ed.step(char_key('p'));
    assert_eq!(ed.text(), "hello");
}

#[test]
fn paste_saves_undo_snapshot() {
    let mut ed = normal_editor("hello");
    ed.step(char_key('0'));
    ed.step(char_key('y'));
    ed.step(char_key('i'));
    ed.step(char_key('w'));
    ed.step(char_key('$'));
    ed.step(char_key('p'));
    assert_eq!(ed.text(), "hellohello");
    // Undo should restore.
    ed.step(char_key('u'));
    assert_eq!(ed.text(), "hello");
}

// -----------------------------------------------------------------------
// Text objects
// -----------------------------------------------------------------------

#[test]
fn diw_deletes_inner_word() {
    let mut ed = normal_editor("hello world");
    ed.step(char_key('0'));
    ed.step(char_key('l')); // on 'e'
    ed.step(char_key('d'));
    ed.step(char_key('i'));
    ed.step(char_key('w'));
    assert_eq!(ed.text(), " world");
    assert_eq!(ed.cursor(), 0);
}

#[test]
fn diw_on_whitespace_deletes_whitespace() {
    let mut ed = normal_editor("hello   world");
    // Move to whitespace.
    ed.step(char_key('0'));
    ed.step(char_key('w')); // Now on first space? No, w goes to next word start.
    // Actually w from 'h' skips "hello" and spaces, lands on 'w'.
    // Let me use f to find a space.
    ed.step(char_key('0'));
    ed.step(char_key('f'));
    ed.step(char_key(' ')); // on first space at pos 5
    ed.step(char_key('d'));
    ed.step(char_key('i'));
    ed.step(char_key('w'));
    assert_eq!(ed.text(), "helloworld");
}

#[test]
fn ciw_changes_word() {
    let mut ed = normal_editor("hello world");
    ed.step(char_key('0'));
    ed.step(char_key('c'));
    ed.step(char_key('i'));
    ed.step(char_key('w'));
    assert_eq!(ed.text(), " world");
    assert_eq!(ed.mode(), VimMode::Insert);
    type_str(&mut ed, "goodbye");
    assert_eq!(ed.text(), "goodbye world");
}

#[test]
fn daw_deletes_word_and_trailing_space() {
    let mut ed = normal_editor("hello world");
    ed.step(char_key('0'));
    ed.step(char_key('d'));
    ed.step(char_key('a'));
    ed.step(char_key('w'));
    // "hello" + trailing space " " deleted.
    assert_eq!(ed.text(), "world");
    assert_eq!(ed.cursor(), 0);
}

#[test]
fn daw_at_end_includes_leading_space() {
    let mut ed = normal_editor("hello world");
    // Cursor on 'd' (last char). Move to 'w' of world.
    ed.step(char_key('b')); // on 'w'
    ed.step(char_key('d'));
    ed.step(char_key('a'));
    ed.step(char_key('w'));
    // "world" has no trailing space, so leading " " is included.
    assert_eq!(ed.text(), "hello");
}

#[test]
fn viw_selects_word() {
    let mut ed = normal_editor("hello world");
    ed.step(char_key('0'));
    ed.step(char_key('v'));
    ed.step(char_key('i'));
    ed.step(char_key('w'));
    assert_eq!(ed.mode(), VimMode::Visual);
    // anchor=0 (start of "hello"), cursor=4 (on 'o', last char of "hello").
    assert_eq!(ed.selection(), Some((0, 4)));
}

#[test]
fn yiw_yanks_word() {
    let mut ed = normal_editor("hello world");
    ed.step(char_key('0'));
    ed.step(char_key('y'));
    ed.step(char_key('i'));
    ed.step(char_key('w'));
    assert_eq!(ed.text(), "hello world");
    // Paste to verify.
    ed.step(char_key('p'));
    assert_eq!(ed.text(), "hhelloello world");
}

#[test]
fn caw_changes_word_with_space() {
    let mut ed = normal_editor("hello world");
    ed.step(char_key('0'));
    ed.step(char_key('c'));
    ed.step(char_key('a'));
    ed.step(char_key('w'));
    assert_eq!(ed.text(), "world");
    assert_eq!(ed.mode(), VimMode::Insert);
    type_str(&mut ed, "goodbye ");
    assert_eq!(ed.text(), "goodbye world");
}
