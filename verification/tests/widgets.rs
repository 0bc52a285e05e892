use mb_tui::render::layout::{Constraints, Insets, Rect, Size};
use mb_tui::render::overflow::OverflowBehavior;
use mb_tui::widget::flame_graph::layout::{bar_zone_width, RowLayout};
use mb_tui::widget::flame_graph::render::{flame_graph_overflow, format_label, thin_line_symbol};
use mb_tui::widget::flashcard::{word_wrap, CardSide, Flashcard};
use mb_tui::widget::hotkey_coach::{HotkeyCoach, Orientation, Shortcut};
use mb_tui::widget::queue_list::QueueList;
use mb_tui::widget::separator::SeparatorRenderable;
use mb_tui::widget::tab_bar::{compute_visible_window, TabBar};

fn sample_shortcuts() -> Vec<Shortcut> {
    vec![
        Shortcut::new("\u{2318}K", "save"),
        Shortcut::new("\u{2318}S", "save file"),
        Shortcut::new("j/k", "navigate"),
    ]
}

#[test]
fn height_matches_items() {
    // Fewer items than available height: height = item_count.
    let ql = QueueList::new(vec!["A".into(), "B".into(), "C".into()]);
    assert_eq!(ql.measure(Constraints::loose(40, 10)).height, 3);

    // More items than available height: height = available.
    let ql = QueueList::new(vec![
        "A".into(),
        "B".into(),
        "C".into(),
        "D".into(),
        "E".into(),
    ]);
    assert_eq!(ql.measure(Constraints::loose(40, 3)).height, 3);
}

#[test]
fn next_clamps() {
    let mut ql = QueueList::new(vec!["A".into(), "B".into(), "C".into()]);
    ql.select(2);
    ql.next();
    assert_eq!(ql.selected(), 2, "next at end should clamp");
}

#[test]
fn prev_clamps() {
    let mut ql = QueueList::new(vec!["A".into(), "B".into(), "C".into()]);
    assert_eq!(ql.selected(), 0);
    ql.prev();
    assert_eq!(ql.selected(), 0, "prev at start should clamp");
}

#[test]
fn push_adds_to_end() {
    let mut ql = QueueList::new(vec!["A".into(), "B".into()]);
    ql.push("C".into());
    assert_eq!(ql.items(), &["A", "B", "C"]);
    assert_eq!(ql.len(), 3);
}

#[test]
fn remove_adjusts_selection() {
    let mut ql = QueueList::new(vec!["A".into(), "B".into(), "C".into(), "D".into()]);
    ql.select(2); // selected = "C"
    ql.remove(0); // remove "A", which is before selected
    assert_eq!(ql.selected(), 1, "removing before selected should decrement");
    assert_eq!(ql.items(), &["B", "C", "D"]);
}

#[test]
fn remove_at_selected() {
    let mut ql = QueueList::new(vec!["A".into(), "B".into(), "C".into()]);
    ql.select(2); // selected = "C" (last)
    let removed = ql.remove(2);
    assert_eq!(removed, Some("C".into()));
    assert_eq!(ql.selected(), 1, "removing last selected should move to new last");
    assert_eq!(ql.items(), &["A", "B"]);

    // Remove in the middle.
    let mut ql = QueueList::new(vec!["A".into(), "B".into(), "C".into()]);
    ql.select(1); // selected = "B"
    let removed = ql.remove(1);
    assert_eq!(removed, Some("B".into()));
    assert_eq!(ql.selected(), 1, "removing selected in middle keeps index");
    assert_eq!(ql.items()[ql.selected()], "C");
}

#[test]
fn move_up_swaps() {
    let mut ql = QueueList::new(vec!["A".into(), "B".into(), "C".into()]);
    ql.select(1);
    ql.move_up();
    assert_eq!(ql.items(), &["B", "A", "C"]);
    assert_eq!(ql.selected(), 0);

    // At index 0, move_up is a no-op.
    ql.move_up();
    assert_eq!(ql.items(), &["B", "A", "C"]);
    assert_eq!(ql.selected(), 0);
}

#[test]
fn move_down_swaps() {
    let mut ql = QueueList::new(vec!["A".into(), "B".into(), "C".into()]);
    ql.select(1);
    ql.move_down();
    assert_eq!(ql.items(), &["A", "C", "B"]);
    assert_eq!(ql.selected(), 2);

    // At last index, move_down is a no-op.
    ql.move_down();
    assert_eq!(ql.items(), &["A", "C", "B"]);
    assert_eq!(ql.selected(), 2);
}

#[test]
fn queue_insert_keeps_selection_on_item() {
    let mut ql = QueueList::new(vec!["A".into(), "B".into()]);
    ql.select(1);
    ql.insert(0, "Z".into());
    assert_eq!(ql.items(), &["Z", "A", "B"]);
    assert_eq!(ql.selected(), 2);
    ql.insert(99, "E".into());
    assert_eq!(ql.items(), &["Z", "A", "B", "E"]);
    assert_eq!(ql.selected(), 2);
    ql.swap(0, 3);
    assert_eq!(ql.items(), &["E", "A", "B", "Z"]);
    assert_eq!(ql.remove(9), None);
}

#[test]
fn queue_window_centres_selection() {
    let items: Vec<String> = (0..8).map(|i| format!("Task {}", i)).collect();
    let mut ql = QueueList::new(items);
    ql.select(3);
    assert_eq!(ql.visible_window(5), (1, 6));
    ql.select(0);
    assert_eq!(ql.visible_window(5), (0, 5));
    ql.select(7);
    assert_eq!(ql.visible_window(5), (3, 8));
    assert_eq!(ql.visible_window(20), (0, 8));
    assert_eq!(ql.index_width(), 1);
    let many = QueueList::new((0..120).map(|i| i.to_string()).collect());
    assert_eq!(many.index_width(), 3);
    assert_eq!(QueueList::new(vec![]).index_width(), 1);
}

#[test]
fn next_prev_wrap() {
    let mut tab = TabBar::new(vec!["A".into(), "B".into(), "C".into()]);
    assert_eq!(tab.selected(), 0);

    tab.next();
    assert_eq!(tab.selected(), 1);
    tab.next();
    assert_eq!(tab.selected(), 2);
    tab.next(); // wraps
    assert_eq!(tab.selected(), 0);

    tab.prev(); // wraps back
    assert_eq!(tab.selected(), 2);
    tab.prev();
    assert_eq!(tab.selected(), 1);
}

#[test]
fn tab_bar_height_always_one() {
    let tab = TabBar::new(vec!["Alpha".into(), "Beta".into()]);
    assert_eq!(tab.measure(Constraints::loose(80, 10)).height, 1);
    assert_eq!(tab.measure(Constraints::tight(40, 5)).height, 1);
    assert_eq!(tab.measure(Constraints::unbounded()).height, 1);
}

#[test]
fn select_out_of_bounds_noop() {
    let mut tab = TabBar::new(vec!["A".into(), "B".into(), "C".into()]);
    tab.select(1);
    assert_eq!(tab.selected(), 1);
    tab.select(99);
    assert_eq!(tab.selected(), 1); // unchanged
}

#[test]
fn tab_window_keeps_selection_visible() {
    // Alpha(5) | Beta(4) | Gamma(5) | Delta(5) in 15 columns.
    let widths = [5usize, 4, 5, 5];
    let (start, shown) = compute_visible_window(&widths, 0, 15);
    assert_eq!(start, 0);
    assert_eq!(shown, vec![0, 1]);
    let (start, shown) = compute_visible_window(&widths, 3, 15);
    assert_eq!(start, 2);
    assert_eq!(shown, vec![2, 3]);
    // A selected label wider than the bar is still shown.
    let (start, shown) = compute_visible_window(&[3, 30], 1, 10);
    assert_eq!(start, 0);
    assert_eq!(shown, vec![0, 1]);
    assert_eq!(compute_visible_window(&[], 0, 10), (0, vec![]));
}

#[test]
fn horizontal_height_one() {
    let coach = HotkeyCoach::new(sample_shortcuts());
    let size = coach.measure(Constraints::loose(80, 10));
    assert_eq!(size.height, 1);
}

#[test]
fn vertical_height_matches_count() {
    let coach = HotkeyCoach::new(sample_shortcuts()).orientation(Orientation::Vertical);
    let size = coach.measure(Constraints::loose(80, 10));
    assert_eq!(size.height, 3);
}

#[test]
fn push_adds_shortcut() {
    let mut coach = HotkeyCoach::new(vec![Shortcut::new("a", "alpha")]);
    assert_eq!(coach.len(), 1);
    coach.push(Shortcut::new("b", "beta"));
    assert_eq!(coach.len(), 2);
    assert!(!coach.is_empty());
}

#[test]
fn coach_natural_widths() {
    // " a " + " " + "alpha" = 9, " b " + " " + "beta" = 8, one separator of 3.
    let coach = HotkeyCoach::new(vec![Shortcut::new("a", "alpha"), Shortcut::new("b", "beta")]);
    assert_eq!(coach.measure(Constraints::unbounded()), Size::new(20, 1));
    let vertical = coach.orientation(Orientation::Vertical);
    // key badge 3 + gap 2 + widest description 5.
    assert_eq!(vertical.measure(Constraints::unbounded()), Size::new(10, 2));
    assert_eq!(HotkeyCoach::new(vec![]).measure(Constraints::loose(80, 10)), Size::zero());
}

#[test]
fn starts_on_front() {
    let card = Flashcard::new("Q".into(), "A".into());
    assert_eq!(card.side(), CardSide::Front);
}

#[test]
fn flip_toggles_side() {
    let mut card = Flashcard::new("Q".into(), "A".into());
    assert_eq!(card.side(), CardSide::Front);
    card.flip();
    assert_eq!(card.side(), CardSide::Back);
    card.flip();
    assert_eq!(card.side(), CardSide::Front);
}

#[test]
fn measure_height_includes_borders() {
    let card = Flashcard::new("Hi".into(), "Lo".into());
    let size = card.measure(Constraints::loose(30, 30));
    // top border + at least 1 content line + hint row + bottom border = 4 minimum
    assert!(size.height >= 4, "height should be at least 4, got {}", size.height);
}

#[test]
fn word_wrap_packs_words_greedily() {
    let lines = word_wrap(
        "This is a much longer piece of text that should wrap across multiple lines",
        16,
    );
    assert!(lines.len() > 1);
    assert!(lines.iter().all(|l| l.chars().count() <= 16));
    assert_eq!(lines[0], "This is a much");
    assert_eq!(word_wrap("  ", 5), vec![String::new()]);
    assert!(word_wrap("x", 0).is_empty());
    assert_eq!(word_wrap("supercalifragilistic ok", 5), vec!["supercalifragilistic", "ok"]);
    let card = Flashcard::new("a b c d e f".into(), "back".into());
    // Width 10 leaves 6 columns: "a b c" / "d e f".
    assert_eq!(card.measure(Constraints::loose(10, 30)), Size::new(10, 5));
    assert_eq!(card.side_label(), "front");
}

#[test]
fn separator_measures_to_one_row() {
    let size = SeparatorRenderable.measure(Constraints::tight_width(12));
    assert_eq!(size, Size::new(12, 1));
}

#[test]
fn wide_layout_preserves_classic_two_zone_shape() {
    let layout = RowLayout::for_width(80);
    assert_eq!(layout.label_zone, 18);
    assert_eq!(layout.gap, 1);
    assert_eq!(layout.bar_start(), 19);
    assert_eq!(layout.bar_zone, 61);
    assert!(layout.shows_bars());
}

#[test]
fn narrow_layout_collapses_bar_zone() {
    let layout = RowLayout::for_width(10);
    assert_eq!(layout.gap, 0);
    assert_eq!(layout.bar_zone, 0);
    assert_eq!(layout.label_zone, 10);
    assert!(!layout.shows_bars());
}

#[test]
fn bar_zone_width_matches_layout() {
    assert_eq!(bar_zone_width(80), 61);
    assert_eq!(bar_zone_width(0), 0);
    assert_eq!(RowLayout::for_width(11).label_zone, 6);
}

#[test]
fn constraints_clamp_and_inset() {
    let c = Constraints::new(5, Some(10), 0, None);
    assert_eq!(c.constrain(Size::new(3, 7)), Size::new(5, 7));
    assert_eq!(c.constrain(Size::new(30, 7)), Size::new(10, 7));
    assert_eq!(Constraints::unbounded().fill_width(), 0);
    assert_eq!(Constraints::loose(4, 6).fill_height(), 6);
    let r = Rect::new(2, 3, 10, 4).inset(Insets::vh(1, 2));
    assert_eq!(r, Rect::new(4, 4, 6, 2));
    let r = Rect::new(0, 0, 3, 3).inset(Insets::tlbr(5, 0, 0, 0));
    assert_eq!(r, Rect::new(0, 5, 3, 0));
    assert!(r.is_empty());
}

#[test]
fn label_truncation_with_ellipsis() {
    // Label "very_long_label_name" = 20 chars, zone = 18, indent = 0, no indicator
    // available = 18, label > available, so truncate to 17 + ellipsis.
    let result = format_label("very_long_label_name", 0, 18, "");
    let char_count: usize = result.chars().count();
    assert_eq!(char_count, 18, "Label should be 18 display chars: {result}");
    assert!(
        result.ends_with('\u{2026}'),
        "Should end with ellipsis: {result}"
    );
}

#[test]
fn label_short_padded() {
    let result = format_label("root", 0, 18, "");
    let char_count: usize = result.chars().count();
    assert_eq!(char_count, 18, "Label should be 18 display chars: {result}");
    assert!(
        result.starts_with("root"),
        "Should start with label: {result}"
    );
}

#[test]
fn label_with_indent_and_indicator() {
    assert_eq!(format_label("root", 2, 10, "> "), "  > root  ");
    assert_eq!(format_label("abcdefgh", 2, 8, "> "), "  > abc\u{2026}");
    assert_eq!(format_label("root", 9, 10, "> "), "          ");
    assert_eq!(format_label("root", 0, 0, ""), "");
}

#[test]
fn thin_line_glyphs_cap_the_ends() {
    assert_eq!(thin_line_symbol(3, 3, 4), "\u{2501}");
    assert_eq!(thin_line_symbol(3, 3, 6), "\u{257A}");
    assert_eq!(thin_line_symbol(5, 3, 6), "\u{2578}");
    assert_eq!(thin_line_symbol(4, 3, 6), "\u{2501}");
}

#[test]
fn flame_graph_overflow_switches_to_summary_when_narrow() {
    assert_eq!(flame_graph_overflow(80), OverflowBehavior::Ellipsis);
    assert_eq!(flame_graph_overflow(8), OverflowBehavior::Summary);
}

#[test]
fn queue_moves_undo_each_other_and_keep_items() {
    let start: Vec<String> = vec!["A".into(), "B".into(), "C".into()];
    let mut ql = QueueList::new(start.clone());
    ql.select(1);
    ql.move_down();
    assert_eq!(ql.items(), &["A".to_string(), "C".to_string(), "B".to_string()][..]);
    ql.move_up();
    assert_eq!(ql.items(), &start[..]);
    assert_eq!(ql.selected(), 1);
    ql.move_up();
    ql.move_down();
    assert_eq!(ql.items(), &start[..]);
    assert_eq!(ql.selected(), 1);
    let mut sorted = ql.items().to_vec();
    sorted.sort();
    assert_eq!(sorted, start);
}
