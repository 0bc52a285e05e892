use mb_tui::widget::flashcard::word_wrap;
use mb_tui::render::overflow::{ellipsize_text, summarize_text};

#[test]
fn ellipsize_keeps_text_that_fits() {
    assert_eq!(ellipsize_text("hello", 5), "hello");
    assert_eq!(ellipsize_text("hello", 9), "hello");
}

#[test]
fn ellipsize_cuts_and_marks() {
    assert_eq!(ellipsize_text("hello", 4), "hel\u{2026}");
    assert_eq!(ellipsize_text("hello", 1), "\u{2026}");
    assert_eq!(ellipsize_text("hello", 0), "");
}

#[test]
fn ellipsize_counts_wide_characters_by_columns() {
    assert_eq!(ellipsize_text("日本語", 6), "日本語");
    assert_eq!(ellipsize_text("日本語", 5), "日本\u{2026}");
    assert_eq!(ellipsize_text("日本語", 4), "日\u{2026}");
}

#[test]
fn summarize_keeps_prefix_and_suffix() {
    assert_eq!(summarize_text("N ", "hello", " 9%", 20), "N hello 9%");
    assert_eq!(summarize_text("N ", "hello", " 9%", 8), "N he\u{2026} 9%");
    assert_eq!(summarize_text("N ", "hello", " 9%", 4), "N h\u{2026}");
}

#[test]
fn word_wrap_splits_at_every_unicode_whitespace() {
    assert_eq!(word_wrap("  a\u{3000}b\tc\u{85}dd  ", 20), vec!["a b c dd".to_string()]);
    assert_eq!(word_wrap("one two three", 7), vec!["one two".to_string(), "three".to_string()]);
    assert_eq!(word_wrap(" \u{2003} ", 5), vec![String::new()]);
}
