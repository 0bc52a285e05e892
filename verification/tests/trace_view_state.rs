use mb_tui::input::key::{KeyCode, KeyEvent, KeyResult, NO_MODIFIERS};
use mb_tui::widget::flame_graph::data::SpanId;
use mb_tui::widget::trace_view::data::{
    CategoryId, GroupId, ItemId, TraceCategory, TraceData, TraceError, TraceGroup, TraceItem,
    TraceTimeUnit, TraceTiming, TraceTrack, TraceVisualRole, TrackId,
};
use mb_tui::widget::trace_view::order::{key_of, sorted_keys, ItemKey};
use mb_tui::widget::trace_view::projection::TraceSpan;
use mb_tui::widget::trace_view::state::TraceView;

fn item(id: u64, label: &str, timing: TraceTiming) -> TraceItem {
    TraceItem {
        id: ItemId(id),
        category: CategoryId(0),
        label: label.into(),
        timing,
        details: vec![],
        detail_blocks: vec![],
        children: vec![],
    }
}

fn track(id: u32, group: Option<GroupId>, label: &str, items: Vec<TraceItem>) -> TraceTrack {
    TraceTrack {
        id: TrackId(id),
        group,
        label: label.into(),
        details: vec![],
        detail_blocks: vec![],
        items,
    }
}

/// One group (10) holding track 0 with items out of time order, and an
/// ungrouped track 1.
fn sample() -> TraceData {
    TraceData {
        time_unit: TraceTimeUnit::Milliseconds,
        categories: vec![TraceCategory {
            id: CategoryId(0),
            label: "activity".into(),
            role: TraceVisualRole::Neutral,
        }],
        groups: vec![TraceGroup {
            id: GroupId(10),
            label: "query".into(),
        }],
        tracks: vec![
            track(
                0,
                Some(GroupId(10)),
                "worker",
                vec![
                    item(5, "late", TraceTiming::Instant(30)),
                    item(6, "early", TraceTiming::Instant(10)),
                    item(7, "untimed", TraceTiming::Untimed),
                    item(8, "span", TraceTiming::Interval { start: 25, end: 20 }),
                ],
            ),
            track(1, None, "loose", vec![item(9, "first", TraceTiming::Instant(1))]),
        ],
    }
}

fn key(c: char) -> KeyEvent {
    KeyEvent::new(KeyCode::Char(c), NO_MODIFIERS)
}

#[test]
fn projection_numbers_children_before_parents() {
    let view = TraceView::new(sample()).unwrap();
    assert_eq!(
        view.spans(),
        &vec![
            TraceSpan::Item(ItemId(6)),
            TraceSpan::Item(ItemId(8)),
            TraceSpan::Item(ItemId(5)),
            TraceSpan::Item(ItemId(7)),
            TraceSpan::Track(TrackId(0)),
            TraceSpan::Group(GroupId(10)),
            TraceSpan::Item(ItemId(9)),
            TraceSpan::Track(TrackId(1)),
            TraceSpan::Root,
        ]
    );
    let root = view.graph().root();
    assert_eq!(root.id, SpanId(8));
    let top: Vec<SpanId> = root.children.iter().map(|c| c.id).collect();
    assert_eq!(top, vec![SpanId(5), SpanId(7)]);
    let items: Vec<SpanId> = root.children[0].children[0].children.iter().map(|c| c.id).collect();
    assert_eq!(items, vec![SpanId(0), SpanId(1), SpanId(2), SpanId(3)]);
}

#[test]
fn items_sort_by_earliest_time_then_untimed_then_id() {
    let items = vec![
        item(4, "b", TraceTiming::MissingEnd { start: 3 }),
        item(3, "a", TraceTiming::MissingStart { end: 3 }),
        item(1, "u", TraceTiming::Untimed),
        item(0, "u", TraceTiming::Untimed),
        item(2, "r", TraceTiming::Interval { start: 9, end: -2 }),
    ];
    let ids: Vec<u64> = sorted_keys(&items).iter().map(|k| k.id).collect();
    assert_eq!(ids, vec![2, 3, 4, 0, 1]);
    assert_eq!(
        key_of(&items[4]),
        ItemKey { untimed: false, first: -2, id: 2 }
    );
}

#[test]
fn new_view_selects_the_root_with_its_legend() {
    let view = TraceView::new(sample()).unwrap();
    assert_eq!(view.cursor(), 0);
    assert_eq!(view.visible_row_count(), 2);
    assert_eq!(view.scroll_offset(), 0);
    assert!(view.selected_item().is_none());
    assert!(view.selected_track().is_none());
    assert_eq!(view.selected_group(), None);
    assert!(!view.needs_idle_render());
    assert_eq!(view.data().tracks.len(), 2);
}

#[test]
fn invalid_data_is_rejected() {
    let mut data = sample();
    data.tracks[1].items.push(item(5, "again", TraceTiming::Untimed));
    assert!(matches!(
        TraceView::new(data),
        Err(TraceError::DuplicateItem(ItemId(5)))
    ));
}

#[test]
fn select_item_reveals_and_selects_it() {
    let mut view = TraceView::new(sample()).unwrap();
    assert!(view.select_item(ItemId(5)));
    assert_eq!(view.selected_item().unwrap().label, "late");
    assert_eq!(view.selected_track().unwrap().id, TrackId(0));
    assert_eq!(view.selected_group(), Some(GroupId(10)));
    assert_eq!(view.cursor(), 5);
    assert_eq!(view.visible_row_count(), 9);
    assert!(view.needs_idle_render());
    assert!(!view.is_group_collapsed(GroupId(10)));
}

#[test]
fn select_unknown_item_changes_nothing() {
    let mut view = TraceView::new(sample()).unwrap();
    assert!(!view.select_item(ItemId(42)));
    assert_eq!(view.cursor(), 0);
    assert_eq!(view.visible_row_count(), 2);
}

#[test]
fn ungrouped_track_has_no_group() {
    let mut view = TraceView::new(sample()).unwrap();
    assert!(view.select_item(ItemId(9)));
    assert_eq!(view.selected_track().unwrap().label, "loose");
    assert_eq!(view.selected_group(), None);
}

#[test]
fn groups_collapse_and_expand_through_selection() {
    let mut view = TraceView::new(sample()).unwrap();
    assert!(view.is_group_collapsed(GroupId(10)));
    assert!(view.set_group_collapsed(GroupId(10), false));
    assert!(!view.is_group_collapsed(GroupId(10)));
    assert_eq!(view.selected_track().unwrap().id, TrackId(0));
    assert!(view.set_group_collapsed(GroupId(10), true));
    assert!(view.is_group_collapsed(GroupId(10)));
    assert_eq!(view.selected_group(), Some(GroupId(10)));
    assert!(!view.set_group_collapsed(GroupId(99), false));
    assert!(!view.is_group_collapsed(GroupId(99)));
}

#[test]
fn time_window_is_fitted_and_checked() {
    let mut view = TraceView::new(sample()).unwrap();
    assert_eq!(view.time_window(), (1, 30));
    assert_eq!(
        view.set_time_window(5, 5),
        Err(TraceError::InvalidTimeWindow)
    );
    assert_eq!(view.time_window(), (1, 30));
    assert_eq!(view.set_time_window(0, 100), Ok(()));
    assert_eq!(view.time_window(), (0, 100));
    view.fit_time();
    assert_eq!(view.time_window(), (1, 30));
}

#[test]
fn keys_navigate_the_shared_hierarchy() {
    let mut view = TraceView::new(sample()).unwrap();
    assert_eq!(view.handle_key(&key('l')), KeyResult::Consumed);
    assert_eq!(view.selected_group(), Some(GroupId(10)));
    assert!(view.selected_track().is_none());
    assert_eq!(view.handle_key(&key('l')), KeyResult::Consumed);
    assert_eq!(view.selected_track().unwrap().id, TrackId(0));
    assert_eq!(view.handle_key(&key('l')), KeyResult::Consumed);
    assert_eq!(view.selected_item().unwrap().label, "early");
}

#[test]
fn finished_transitions_stop_idle_redraws() {
    let mut view = TraceView::new(sample()).unwrap();
    assert!(view.select_item(ItemId(6)));
    assert!(view.needs_idle_render());
    let finished: Vec<SpanId> = (0..9).map(SpanId).collect();
    view.finish_transitions(&finished);
    assert!(!view.needs_idle_render());
    assert_eq!(view.selected_item().unwrap().label, "early");
}

#[test]
fn every_item_of_admitted_data_is_selectable() {
    let data = sample();
    let ids: Vec<ItemId> = data
        .tracks
        .iter()
        .flat_map(|t| t.items.iter().map(|i| i.id))
        .collect();
    for id in ids {
        let mut view = TraceView::new(sample()).unwrap();
        assert!(view.select_item(id));
        assert_eq!(view.selected_item().unwrap().id, id);
    }
}
