use mb_tui::widget::trace_view::data::{
    CategoryId, GroupId, ItemId, TraceCategory, TraceData, TraceDetailBlock, TraceError, TraceGroup, TraceItem,
    TraceTimeUnit, TraceTiming, TraceTrack, TraceVisualRole, TrackId,
};
use mb_tui::widget::trace_view::state::TraceView;

fn item(id: u64, label: &str, timing: TraceTiming) -> TraceItem {
    TraceItem {
        id: ItemId(id),
        category: CategoryId(0),
        label: label.into(),
        timing,
        details: vec![],
        detail_blocks: vec![],
        children: vec![],
    }
}

fn workspace_track(items: Vec<TraceItem>) -> TraceTrack {
    TraceTrack {
        id: TrackId(0),
        group: Some(GroupId(10)),
        label: "workspace".into(),
        details: vec![],
        detail_blocks: vec![],
        items,
    }
}

fn data(items: Vec<TraceItem>) -> TraceData {
    TraceData {
        time_unit: TraceTimeUnit::Nanoseconds,
        categories: vec![TraceCategory {
            id: CategoryId(0),
            label: "activity".into(),
            role: TraceVisualRole::Neutral,
        }],
        groups: vec![TraceGroup {
            id: GroupId(10),
            label: "query 2e01ddde".into(),
        }],
        tracks: vec![workspace_track(items)],
    }
}

fn fixture() -> TraceView {
    TraceView::new(data(vec![
        item(1, "query admitted", TraceTiming::Instant(0)),
        item(
            2,
            "planning expansion scheduled",
            TraceTiming::Interval { start: 2, end: 8 },
        ),
        item(3, "query completed", TraceTiming::Instant(10)),
    ]))
    .unwrap()
}

#[test]
fn collapsing_and_reselecting_preserve_structural_identity() {
    let mut view = fixture();
    assert!(view.select_item(ItemId(3)));
    assert!(view.set_group_collapsed(GroupId(10), true));
    assert!(view.is_group_collapsed(GroupId(10)));
    assert!(view.selected_item().is_none());
    assert_eq!(view.selected_group(), Some(GroupId(10)));
    assert!(view.select_item(ItemId(1)));
    assert!(!view.is_group_collapsed(GroupId(10)));
    assert_eq!(view.selected_track().unwrap().id, TrackId(0));
}

#[test]
fn exact_time_range_remains_available_to_non_terminal_consumers() {
    let mut view = fixture();
    assert_eq!(view.time_window(), (0, 10));
    view.set_time_window(2, 8).unwrap();
    assert_eq!(view.time_window(), (2, 8));
    view.fit_time();
    assert_eq!(view.time_window(), (0, 10));
    assert_eq!(view.set_time_window(8, 8), Err(TraceError::InvalidTimeWindow));
}

#[test]
fn duplicate_ids_and_unknown_references_are_rejected() {
    let observation = || item(0, "one", TraceTiming::Untimed);
    assert!(matches!(
        TraceView::new(data(vec![observation(), observation()])),
        Err(TraceError::DuplicateItem(ItemId(0)))
    ));
    let mut input = data(vec![]);
    input.tracks.push(workspace_track(vec![]));
    assert!(matches!(
        TraceView::new(input),
        Err(TraceError::DuplicateTrack(TrackId(0)))
    ));
    let mut input = data(vec![]);
    input.tracks[0].group = Some(GroupId(9));
    assert!(matches!(
        TraceView::new(input),
        Err(TraceError::UnknownGroup(GroupId(9)))
    ));
    let mut input = data(vec![]);
    input.groups.push(input.groups[0].clone());
    assert!(matches!(
        TraceView::new(input),
        Err(TraceError::DuplicateGroup(GroupId(10)))
    ));
    let mut input = data(vec![item(1, "one", TraceTiming::Instant(0))]);
    input.categories.push(input.categories[0].clone());
    assert!(matches!(
        TraceView::new(input),
        Err(TraceError::DuplicateCategory(CategoryId(0)))
    ));
    let mut input = data(vec![item(1, "one", TraceTiming::Instant(0))]);
    input.tracks[0].items[0].category = CategoryId(9);
    assert!(matches!(
        TraceView::new(input),
        Err(TraceError::UnknownCategory(CategoryId(9)))
    ));
}

#[test]
fn admission_enforces_collection_and_text_limits() {
    let observation = || item(0, "", TraceTiming::Untimed);
    let mut input = data(vec![]);
    input.categories = (0..257)
        .map(|id| TraceCategory {
            id: CategoryId(id),
            label: String::new(),
            role: TraceVisualRole::Neutral,
        })
        .collect();
    assert!(matches!(
        TraceView::new(input),
        Err(TraceError::LimitExceeded("categories (256)"))
    ));
    assert!(matches!(
        TraceView::new(data((0..65537).map(|_| observation()).collect())),
        Err(TraceError::LimitExceeded("items (65536)"))
    ));
    let mut detailed = observation();
    detailed.details = vec![(String::new(), String::new()); 33];
    assert!(matches!(
        TraceView::new(data(vec![detailed])),
        Err(TraceError::LimitExceeded("detail pairs per item (32)"))
    ));
    let mut long = observation();
    long.label = "x".repeat(4097);
    assert!(matches!(
        TraceView::new(data(vec![long])),
        Err(TraceError::LimitExceeded("bytes per field (4096)"))
    ));
}

#[test]
fn the_first_bound_broken_in_check_order_is_named() {
    let observation = || item(0, "", TraceTiming::Untimed);
    let mut input = data((0..65537).map(|_| observation()).collect());
    input.categories[0].label = "x".repeat(4097);
    assert!(matches!(
        TraceView::new(input),
        Err(TraceError::LimitExceeded("bytes per field (4096)"))
    ));
    let mut wide = observation();
    wide.detail_blocks = vec![TraceDetailBlock::Table {
        title: None,
        columns: (0..33).map(|_| String::new()).collect(),
        rows: vec![],
    }];
    assert!(matches!(
        TraceView::new(data(vec![wide])),
        Err(TraceError::LimitExceeded("detail table columns (32)"))
    ));
    let mut deep = observation();
    deep.detail_blocks = vec![TraceDetailBlock::Text { name: "x".repeat(4097), value: String::new() }];
    deep.details = vec![(String::new(), String::new()); 33];
    assert!(matches!(
        TraceView::new(data(vec![deep])),
        Err(TraceError::LimitExceeded("detail pairs per item (32)"))
    ));
}
