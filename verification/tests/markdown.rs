use mb_tui::markdown::parse::render_markdown;
use mb_tui::markdown::render::{render_events, MdEvent, MdTag};
use mb_tui::markdown::style::{MdColor, MdStyle};
use mb_tui::markdown::text::{starts_with_dash, truncate_str};
use mb_tui::markdown::wrap::{truncate_styled_spans, wrap_spans_with_hang};

/// Render markdown and collect the raw text of each line.
fn render_text(md: &str, width: usize) -> Vec<String> {
    render_markdown(md, width)
        .iter()
        .map(|line| line.iter().map(|(t, _)| t.as_str()).collect::<String>())
        .collect()
}

/// Render and return (text, style) pairs per line for style assertions.
fn render_styled(md: &str, width: usize) -> Vec<Vec<(String, MdStyle)>> {
    render_markdown(md, width)
}

fn find<'a>(line: &'a [(String, MdStyle)], text: &str) -> Result<&'a (String, MdStyle), String> {
    line.iter()
        .find(|(t, _)| t == text)
        .ok_or(format!("should have '{text}' span"))
}

fn base() -> MdStyle {
    MdStyle::base()
}

#[test]
fn plain_text_wraps() {
    let lines = render_text("hello world", 80);
    assert_eq!(lines, vec!["hello world"]);
}

#[test]
fn plain_text_word_wraps_at_width() {
    let lines = render_text("aaa bbb ccc", 7);
    assert_eq!(lines, vec!["aaa bbb", "ccc"]);
}

#[test]
fn bold_text_has_bold_modifier() -> Result<(), String> {
    let styled = render_styled("**bold**", 80);
    let bold_span = find(&styled[0], "bold")?;
    assert!(bold_span.1.bold);
    Ok(())
}

#[test]
fn italic_text_has_italic_modifier() -> Result<(), String> {
    let styled = render_styled("*italic*", 80);
    let italic_span = find(&styled[0], "italic")?;
    assert!(italic_span.1.italic);
    Ok(())
}

#[test]
fn inline_code_is_cyan() -> Result<(), String> {
    let styled = render_styled("use `code` here", 80);
    let code_span = find(&styled[0], "code")?;
    assert_eq!(code_span.1.fg, Some(MdColor::Focus));
    Ok(())
}

#[test]
fn code_block_preformatted_cyan() {
    let md = "```\nfn main() {}\nlet x = 1;\n```";
    let styled = render_styled(md, 80);
    let code_line = &styled[0];
    assert_eq!(code_line[0].0, "fn main() {}");
    assert_eq!(code_line[0].1.fg, Some(MdColor::Focus));
}

#[test]
fn code_block_truncated_not_wrapped() {
    let md = "```\nabcdefghij\n```";
    let lines = render_text(md, 5);
    assert_eq!(lines[0].chars().count(), 5);
}

#[test]
fn unordered_list_has_bullet_prefix() {
    let lines = render_text("- item one\n- item two", 80);
    assert!(lines[0].starts_with("- "));
    assert!(lines[0].contains("item one"));
}

#[test]
fn ordered_list_has_number_prefix() {
    let lines = render_text("1. first\n2. second", 80);
    assert!(lines[0].starts_with("1. "));
    assert!(lines[0].contains("first"));
}

#[test]
fn list_continuation_hang_indented() {
    let md = "- this is a very long item that should wrap at some point in the line";
    let lines = render_text(md, 30);
    assert!(lines[0].starts_with("- "));
    if lines.len() > 1 && !lines[1].is_empty() {
        assert!(lines[1].starts_with("  "));
    }
}

#[test]
fn blockquote_has_green_prefix() {
    let styled = render_styled("> quoted text", 80);
    let first_line = &styled[0];
    assert_eq!(first_line[0].0, "> ");
    assert_eq!(first_line[0].1.fg, Some(MdColor::Success));
}

#[test]
fn nested_bold_italic() -> Result<(), String> {
    let styled = render_styled("***both***", 80);
    let span = find(&styled[0], "both")?;
    assert!(span.1.bold);
    assert!(span.1.italic);
    Ok(())
}

#[test]
fn empty_text_returns_single_empty_line() {
    let lines = render_text("", 80);
    assert!(!lines.is_empty());
}

#[test]
fn zero_width_returns_default_line() {
    let lines = render_markdown("hello", 0);
    assert_eq!(lines.len(), 1);
}

#[test]
fn heading_is_bold() -> Result<(), String> {
    let styled = render_styled("# Title", 80);
    let title_span = find(&styled[0], "Title")?;
    assert!(title_span.1.bold);
    Ok(())
}

#[test]
fn wrap_keeps_double_dash_on_previous_line() {
    let lines = render_text("This is a long sentence -- and continues", 25);
    for line in &lines[1..] {
        assert!(
            !line.starts_with("--"),
            "continuation line should not start with '--': {lines:?}"
        );
    }
}

#[test]
fn wrap_keeps_em_dash_on_previous_line() {
    let lines = render_text("Short text here \u{2014}and more words follow", 20);
    for line in &lines[1..] {
        assert!(
            !line.starts_with('\u{2014}'),
            "continuation line should not start with em dash: {lines:?}"
        );
    }
}

#[test]
fn wrap_keeps_en_dash_on_previous_line() {
    let lines = render_text("Short text here \u{2013}and more words follow", 20);
    for line in &lines[1..] {
        assert!(
            !line.starts_with('\u{2013}'),
            "continuation line should not start with en dash: {lines:?}"
        );
    }
}

// -- Own tests ------------------------------------------------------------

fn span(text: &str) -> (String, MdStyle) {
    (text.to_string(), base())
}

fn texts(lines: &[Vec<(String, MdStyle)>]) -> Vec<Vec<String>> {
    lines
        .iter()
        .map(|l| l.iter().map(|(t, _)| t.clone()).collect())
        .collect()
}

#[test]
fn wrap_of_no_spans_is_one_empty_line() {
    let lines = wrap_spans_with_hang(vec![], 10, 10);
    assert_eq!(lines.len(), 1);
    assert!(lines[0].is_empty());
}

#[test]
fn wrap_splits_at_spaces_and_trims_line_starts() {
    let lines = wrap_spans_with_hang(vec![span("aaa bbb ccc")], 7, 7);
    assert_eq!(
        texts(&lines),
        vec![vec!["aaa".to_string(), " bbb".to_string()], vec!["ccc".to_string()]]
    );
}

#[test]
fn wrap_uses_continuation_width_after_first_line() {
    // The first line holds 9 bytes, later lines only 4.
    let lines = wrap_spans_with_hang(vec![span("aa bb cc dd")], 9, 4);
    assert_eq!(
        texts(&lines),
        vec![
            vec!["aa".to_string(), " bb".to_string(), " cc".to_string()],
            vec!["dd".to_string()]
        ]
    );
}

#[test]
fn wrap_keeps_runs_of_spaces_on_the_word_before() {
    let lines = wrap_spans_with_hang(vec![span("a  b")], 80, 80);
    assert_eq!(texts(&lines), vec![vec!["a ".to_string(), " b".to_string()]]);
}

#[test]
fn wrap_does_not_break_a_long_word() {
    let lines = wrap_spans_with_hang(vec![span("abcdefghij")], 4, 4);
    assert_eq!(texts(&lines), vec![vec!["abcdefghij".to_string()]]);
}

#[test]
fn wrap_keeps_dash_chunk_past_the_width() {
    let lines = wrap_spans_with_hang(vec![span("abc --x")], 4, 4);
    assert_eq!(texts(&lines), vec![vec!["abc".to_string(), " --x".to_string()]]);
}

#[test]
fn wrap_counts_bytes_not_characters() {
    // "éé" takes four bytes, so it does not fit beside "a" in five.
    let lines = wrap_spans_with_hang(vec![span("a éé")], 5, 5);
    assert_eq!(texts(&lines), vec![vec!["a".to_string()], vec!["éé".to_string()]]);
}

#[test]
fn wrap_keeps_each_span_style() {
    let bold = MdStyle::base().with(mb_tui::markdown::style::Emphasis::Bold);
    let lines = wrap_spans_with_hang(vec![span("x "), ("y".to_string(), bold)], 80, 80);
    assert_eq!(lines[0][0], ("x ".to_string(), base()));
    assert_eq!(lines[0][1], ("y".to_string(), bold));
}

#[test]
fn truncate_styled_spans_cuts_and_appends_ellipsis() {
    let out = truncate_styled_spans(vec![span("abc"), span("defg")], 5);
    let text: Vec<&str> = out.iter().map(|(t, _)| t.as_str()).collect();
    assert_eq!(text, vec!["abc", "d", "\u{2026}"]);
    assert_eq!(out[2].1, MdStyle::plain(None));
}

#[test]
fn truncate_styled_spans_with_no_room_keeps_only_ellipsis() {
    let out = truncate_styled_spans(vec![span("abc")], 1);
    assert_eq!(out, vec![("\u{2026}".to_string(), MdStyle::plain(None))]);
    let zero = truncate_styled_spans(vec![span("abc")], 0);
    assert_eq!(zero.len(), 1);
}

#[test]
fn truncate_str_marks_a_cut() {
    assert_eq!(truncate_str("abcdef", 4), "abc\u{2026}");
    assert_eq!(truncate_str("abc", 3), "abc");
    assert_eq!(truncate_str("abc", 1), "\u{2026}");
}

#[test]
fn dash_detection_skips_leading_whitespace() {
    assert!(starts_with_dash("  --x"));
    assert!(starts_with_dash("\u{2014}a"));
    assert!(!starts_with_dash("-x"));
}

#[test]
fn events_render_list_numbers_and_markers() {
    let events = vec![
        MdEvent::Start(MdTag::List(Some(7))),
        MdEvent::Start(MdTag::Item),
        MdEvent::Text("a".to_string()),
        MdEvent::End(MdTag::Item),
        MdEvent::Start(MdTag::Item),
        MdEvent::Text("b".to_string()),
        MdEvent::End(MdTag::Item),
        MdEvent::End(MdTag::List(None)),
    ];
    let lines = render_events(&events, 80);
    let text: Vec<String> = lines
        .iter()
        .map(|l| l.iter().map(|(t, _)| t.as_str()).collect())
        .collect();
    assert_eq!(text, vec!["7. a", "8. b"]);
}

#[test]
fn events_render_rule_within_width() {
    let lines = render_events(&vec![MdEvent::Rule], 5);
    assert_eq!(lines[0][0].0, "\u{2500}".repeat(5));
    assert_eq!(lines[0][0].1, MdStyle::plain(Some(MdColor::Dim)));
    let wide = render_events(&vec![MdEvent::Rule], 100);
    assert_eq!(wide[0][0].0.chars().count(), 40);
}

#[test]
fn quoted_code_lines_are_prefixed_and_truncated() {
    let lines = render_text("> ```\n> abcdefgh\n> ```", 6);
    assert_eq!(lines[0], "> abc\u{2026}");
}

#[test]
fn soft_break_becomes_a_space() {
    let lines = render_text("one\ntwo", 80);
    assert_eq!(lines, vec!["one two"]);
}

#[test]
fn hard_break_starts_a_new_line() {
    let lines = render_text("one  \ntwo", 80);
    assert_eq!(lines, vec!["one", "two"]);
}

#[test]
fn rendering_always_has_a_line() {
    assert_eq!(render_events(&vec![], 10).len(), 1);
    assert_eq!(render_events(&vec![MdEvent::Other], 0).len(), 1);
}

#[test]
fn strikethrough_is_crossed_out() -> Result<(), String> {
    let styled = render_styled("~~gone~~", 80);
    let span = find(&styled[0], "gone")?;
    assert!(span.1.crossed_out);
    assert!(span.1.from_base);
    Ok(())
}
