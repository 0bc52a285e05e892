use mb_tui::widget::trace_view::data::{
    CategoryId, GroupId, ItemId, TraceCategory, TraceData, TraceDetailBlock, TraceError, TraceGroup,
    TraceItem, TraceTimeUnit, TraceTiming, TraceTrack, TraceVisualRole, TrackId,
};
use mb_tui::widget::trace_view::layout::TimeWindow;
use mb_tui::widget::trace_view::validate::validate_size;

fn item(id: u64, label: &str, timing: TraceTiming) -> TraceItem {
    TraceItem {
        id: ItemId(id),
        category: CategoryId(0),
        label: label.into(),
        timing,
        details: vec![],
        detail_blocks: vec![],
        children: vec![],
    }
}

fn track(id: u32, group: Option<GroupId>, items: Vec<TraceItem>) -> TraceTrack {
    TraceTrack {
        id: TrackId(id),
        group,
        label: "workspace".into(),
        details: vec![],
        detail_blocks: vec![],
        items,
    }
}

fn category(id: u16) -> TraceCategory {
    TraceCategory {
        id: CategoryId(id),
        label: "activity".into(),
        role: TraceVisualRole::Neutral,
    }
}

fn group(id: u32) -> TraceGroup {
    TraceGroup {
        id: GroupId(id),
        label: "query 2e01ddde".into(),
    }
}

fn data(items: Vec<TraceItem>) -> TraceData {
    TraceData {
        time_unit: TraceTimeUnit::Nanoseconds,
        categories: vec![category(0)],
        groups: vec![group(10)],
        tracks: vec![track(0, Some(GroupId(10)), items)],
    }
}

fn instants(times: &[i64]) -> TraceData {
    let items = times
        .iter()
        .enumerate()
        .map(|(id, &at)| item(id as u64, "event", TraceTiming::Instant(at)))
        .collect();
    TraceData {
        time_unit: TraceTimeUnit::Nanoseconds,
        categories: vec![category(0)],
        groups: vec![],
        tracks: vec![track(0, None, items)],
    }
}

#[test]
fn fit_handles_empty_equal_and_extreme_coordinates() {
    assert_eq!(TimeWindow::fit(&instants(&[])), TimeWindow { start: 0, end: 1 });
    assert_eq!(
        TimeWindow::fit(&instants(&[7])),
        TimeWindow { start: 7, end: 8 }
    );
    assert_eq!(
        TimeWindow::fit(&instants(&[i64::MIN, i64::MAX])),
        TimeWindow {
            start: i64::MIN,
            end: i64::MAX,
        }
    );
}

#[test]
fn fit_spans_intervals_and_nested_items_are_ignored() {
    let mut parent = item(0, "parent", TraceTiming::Interval { start: 5, end: 9 });
    parent.children.push(item(1, "child", TraceTiming::Instant(100)));
    let input = data(vec![
        parent,
        item(2, "late", TraceTiming::MissingStart { end: 12 }),
        item(3, "untimed", TraceTiming::Untimed),
    ]);
    assert_eq!(TimeWindow::fit(&input), TimeWindow { start: 5, end: 12 });
}

#[test]
fn valid_data_is_admitted() {
    let mut parent = item(1, "query admitted", TraceTiming::Instant(0));
    parent.children.push(item(2, "planned", TraceTiming::Interval { start: 2, end: 8 }));
    let input = data(vec![parent, item(3, "query completed", TraceTiming::Instant(10))]);
    assert_eq!(input.validate(), Ok(()));
    assert_eq!(validate_size(&input), Ok(()));
}

#[test]
fn duplicate_item_ids_are_rejected() {
    let input = data(vec![
        item(0, "one", TraceTiming::Untimed),
        item(0, "one", TraceTiming::Untimed),
    ]);
    assert_eq!(input.validate(), Err(TraceError::DuplicateItem(ItemId(0))));
}

#[test]
fn duplicate_item_ids_across_tracks_and_depths_are_rejected() {
    let mut input = data(vec![item(4, "one", TraceTiming::Untimed)]);
    let mut parent = item(5, "two", TraceTiming::Untimed);
    parent.children.push(item(4, "nested", TraceTiming::Untimed));
    input.tracks.push(track(1, None, vec![parent]));
    assert_eq!(input.validate(), Err(TraceError::DuplicateItem(ItemId(4))));
}

#[test]
fn duplicate_track_is_rejected() {
    let mut input = data(vec![]);
    input.tracks.push(track(0, Some(GroupId(10)), vec![]));
    assert_eq!(input.validate(), Err(TraceError::DuplicateTrack(TrackId(0))));
}

#[test]
fn unknown_group_is_rejected() {
    let mut input = data(vec![]);
    input.tracks[0].group = Some(GroupId(9));
    assert_eq!(input.validate(), Err(TraceError::UnknownGroup(GroupId(9))));
}

#[test]
fn duplicate_group_is_rejected() {
    let mut input = data(vec![]);
    input.groups.push(group(10));
    assert_eq!(input.validate(), Err(TraceError::DuplicateGroup(GroupId(10))));
}

#[test]
fn duplicate_category_is_rejected() {
    let mut input = data(vec![item(1, "one", TraceTiming::Instant(0))]);
    input.categories.push(category(0));
    assert_eq!(
        input.validate(),
        Err(TraceError::DuplicateCategory(CategoryId(0)))
    );
}

#[test]
fn unknown_category_is_rejected() {
    let mut input = data(vec![item(1, "one", TraceTiming::Instant(0))]);
    input.tracks[0].items[0].category = CategoryId(9);
    assert_eq!(
        input.validate(),
        Err(TraceError::UnknownCategory(CategoryId(9)))
    );
}

#[test]
fn category_limit_is_enforced() {
    let mut input = data(vec![]);
    input.categories = (0..257)
        .map(|id| TraceCategory {
            id: CategoryId(id),
            label: String::new(),
            role: TraceVisualRole::Neutral,
        })
        .collect();
    assert_eq!(
        input.validate(),
        Err(TraceError::LimitExceeded("categories (256)"))
    );
}

#[test]
fn item_limit_is_enforced() {
    let items = (0..65537).map(|id| item(id, "", TraceTiming::Untimed)).collect();
    assert_eq!(
        data(items).validate(),
        Err(TraceError::LimitExceeded("items (65536)"))
    );
}

#[test]
fn detail_pair_limit_is_enforced() {
    let mut detailed = item(0, "", TraceTiming::Untimed);
    detailed.details = vec![(String::new(), String::new()); 33];
    assert_eq!(
        data(vec![detailed]).validate(),
        Err(TraceError::LimitExceeded("detail pairs per item (32)"))
    );
}

#[test]
fn field_byte_limit_is_enforced() {
    let mut long = item(0, "", TraceTiming::Untimed);
    long.label = "x".repeat(4097);
    assert_eq!(
        data(vec![long]).validate(),
        Err(TraceError::LimitExceeded("bytes per field (4096)"))
    );
    let mut wide = item(0, "", TraceTiming::Untimed);
    wide.label = "é".repeat(2049);
    assert_eq!(
        data(vec![wide]).validate(),
        Err(TraceError::LimitExceeded("bytes per field (4096)"))
    );
}

#[test]
fn limits_are_checked_before_identities() {
    let mut input = data(vec![
        item(0, "one", TraceTiming::Untimed),
        item(0, "one", TraceTiming::Untimed),
    ]);
    input.categories = (0..257).map(|_| category(0)).collect();
    assert_eq!(
        input.validate(),
        Err(TraceError::LimitExceeded("categories (256)"))
    );
}

#[test]
fn detail_section_depth_is_bounded() {
    let mut block = TraceDetailBlock::Text {
        name: "k".into(),
        value: "v".into(),
    };
    for _ in 0..9 {
        block = TraceDetailBlock::Section {
            title: "s".into(),
            blocks: vec![block],
        };
    }
    let mut deep = item(0, "", TraceTiming::Untimed);
    deep.detail_blocks = vec![block];
    assert_eq!(
        data(vec![deep]).validate(),
        Err(TraceError::LimitExceeded("detail section depth (8)"))
    );
    let mut block = TraceDetailBlock::Text {
        name: "k".into(),
        value: "v".into(),
    };
    for _ in 0..8 {
        block = TraceDetailBlock::Section {
            title: "s".into(),
            blocks: vec![block],
        };
    }
    let mut shallow = item(0, "", TraceTiming::Untimed);
    shallow.detail_blocks = vec![block];
    assert_eq!(data(vec![shallow]).validate(), Ok(()));
}

#[test]
fn detail_table_rows_are_bounded() {
    let mut tabled = item(0, "", TraceTiming::Untimed);
    tabled.detail_blocks = vec![TraceDetailBlock::Table {
        title: None,
        columns: vec!["a".into()],
        rows: vec![vec!["1".into()]; 257],
    }];
    assert_eq!(
        data(vec![tabled]).validate(),
        Err(TraceError::LimitExceeded("detail table rows (256)"))
    );
}
