use mb_tui::render::layout::{Constraints, Size};
use mb_tui::render::overflow::OverflowBehavior;
use mb_tui::widget::bar_selector::{BarSelector, SelectorLayout, DETAILED_HEIGHT};

#[test]
fn new_starts_at_slot_zero() {
    let sel = BarSelector::new(&["A", "B", "C"]);
    assert_eq!(sel.selected(), 0);
    assert_eq!(sel.len(), 3);
}

#[test]
fn select_sets_targets() {
    let mut sel = BarSelector::new(&["A", "B", "C"]);
    sel.select(2);
    assert_eq!(sel.selected(), 2);
}

#[test]
fn select_out_of_bounds_is_noop() {
    let mut sel = BarSelector::new(&["A", "B", "C"]);
    sel.select(99);
    assert_eq!(sel.selected(), 0);
}

#[test]
fn select_next_wraps() {
    let mut sel = BarSelector::new(&["A", "B", "C"]);
    sel.select_next();
    assert_eq!(sel.selected(), 1);
    sel.select_next();
    assert_eq!(sel.selected(), 2);
    sel.select_next();
    assert_eq!(sel.selected(), 0);
}

#[test]
fn desired_height_switches_to_summary_for_narrow_widths() {
    let sel = BarSelector::new(&["Alpha", "Beta", "Gamma"]);
    assert_eq!(sel.measure(Constraints::tight_width(30)).height, DETAILED_HEIGHT);
    assert_eq!(sel.measure(Constraints::tight_width(9)).height, 1);
}

#[test]
fn measure_prefers_label_driven_width_when_constraints_are_loose() {
    let sel = BarSelector::new(&["One", "Two", "Three"]);
    assert_eq!(sel.measure(Constraints::loose(40, 6)), Size::new(15, 4));
}

#[test]
fn measure_switches_to_summary_for_short_heights() {
    let sel = BarSelector::new(&["Alpha", "Beta", "Gamma"]);
    assert_eq!(sel.measure(Constraints::loose(30, 1)), Size::new(18, 1));
    assert_eq!(
        sel.measure(Constraints::loose(30, DETAILED_HEIGHT)),
        Size::new(15, DETAILED_HEIGHT)
    );
}

#[test]
fn measured_height_tracks_layout_mode() {
    let sel = BarSelector::new(&["Alpha", "Beta", "Gamma"]);
    assert_eq!(sel.measure(Constraints::tight_width(30)).height, 4);
    assert_eq!(sel.measure(Constraints::tight_width(8)).height, 1);
}

#[test]
fn select_prev_wraps() {
    let mut sel = BarSelector::new(&["A", "B", "C"]);
    sel.select_prev();
    assert_eq!(sel.selected(), 2);
    sel.select_prev();
    assert_eq!(sel.selected(), 1);
}

#[test]
fn layout_gives_each_slot_a_share_of_the_width() {
    let sel = BarSelector::new(&["A", "B", "C"]);
    assert_eq!(sel.layout(13), SelectorLayout::Detailed { slot_width: 4 });
    assert_eq!(sel.layout(11), SelectorLayout::Summary);
    assert_eq!(sel.overflow(13, Some(1)), OverflowBehavior::Summary);
    assert_eq!(sel.overflow(13, None), OverflowBehavior::Ellipsis);
}

#[test]
fn summary_width_covers_token_row_and_position() {
    let mut sel = BarSelector::new(&["Alpha", "Beta", "Gamma"]);
    // "[Alpha] Beta Gamma" is 18 wide; "1/3 Alpha" is 9.
    assert_eq!(sel.summary_width(), 18);
    sel.select(1);
    assert_eq!(sel.summary_width(), 18);
    assert_eq!(sel.detailed_width(), 15);
    assert_eq!(sel.measure(Constraints::new(0, Some(30), 0, Some(0))), Size::zero());
}

#[test]
fn next_and_prev_undo_each_other_from_every_slot() {
    for start in 0..3 {
        let mut sel = BarSelector::new(&["A", "B", "C"]);
        sel.select(start);
        sel.select_next();
        sel.select_prev();
        assert_eq!(sel.selected(), start);
        sel.select_prev();
        sel.select_next();
        assert_eq!(sel.selected(), start);
    }
}
