use mb_tui::widget::gauge::{gauge_cell, gauge_layout, GaugeCell, GaugeLayout};

#[test]
fn label_track_and_end_labels_are_placed() {
    let layout = gauge_layout(30, 2, Some(4), Some(4), Some(3)).unwrap();
    assert_eq!(
        layout,
        GaugeLayout {
            label: Some(6),
            track_x: 6,
            track_width: 24,
            shows_track: true,
            low: Some(4),
            high: Some((27, 3)),
        }
    );
}

#[test]
fn one_row_has_no_end_labels_and_a_wide_label_is_dropped() {
    let layout = gauge_layout(20, 1, Some(25), Some(4), Some(3)).unwrap();
    assert_eq!(layout.label, None);
    assert_eq!((layout.track_x, layout.track_width), (0, 20));
    assert_eq!((layout.low, layout.high), (None, None));
    assert!(gauge_layout(0, 1, None, None, None).is_none());
    assert!(gauge_layout(5, 0, None, None, None).is_none());
}

#[test]
fn a_narrow_track_is_not_drawn_and_long_end_labels_are_cut() {
    let cramped = gauge_layout(10, 2, Some(5), Some(1), None).unwrap();
    assert_eq!(cramped.label, Some(7));
    assert!(!cramped.shows_track);
    assert_eq!(cramped.low, None);
    let layout = gauge_layout(8, 2, None, Some(20), Some(20)).unwrap();
    assert_eq!(layout.low, Some(8));
    assert_eq!(layout.high, Some((0, 8)));
}

#[test]
fn track_cells_around_the_needle() {
    let cells: Vec<GaugeCell> = (0..6).map(|x| gauge_cell(x, 0, 6, 2)).collect();
    assert_eq!(
        cells,
        vec![
            GaugeCell::LeftCap,
            GaugeCell::Filled,
            GaugeCell::Needle,
            GaugeCell::Dash,
            GaugeCell::Dash,
            GaugeCell::RightCap,
        ]
    );
}
