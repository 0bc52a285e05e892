use mb_tui::devkit::trace_view::{
    categories, overview, overview_data, trace_view_interactive_catalog, uncertainty, uncertainty_data, OVERVIEW_BASE,
};
use mb_tui::input::key::{KeyCode, KeyResult};
use mb_tui::widget::trace_view::data::TraceTiming;
use mb_tui::widget::trace_view::data::{CategoryId, GroupId, ItemId, TraceVisualRole, TrackId};

#[test]
fn overview_data_is_admitted_and_complete() {
    let data = overview_data();
    assert_eq!(data.validate(), Ok(()));
    assert_eq!(data.categories.len(), 5);
    assert_eq!(data.groups[0].id, GroupId(0));
    assert_eq!(data.tracks.len(), 2);
    assert_eq!(data.tracks[0].items.len(), 3);
    assert_eq!(data.tracks[1].items.len(), 4);
    assert_eq!(data.tracks[1].items[3].label, "failed");
    assert_eq!(data.tracks[1].items[3].category, CategoryId(4));
}

#[test]
fn category_vocabulary_covers_every_role() {
    let roles: Vec<TraceVisualRole> = categories().iter().map(|c| c.role).collect();
    assert_eq!(
        roles,
        vec![
            TraceVisualRole::Neutral,
            TraceVisualRole::Scheduled,
            TraceVisualRole::Success,
            TraceVisualRole::Warning,
            TraceVisualRole::Failure,
        ]
    );
    let labels: Vec<String> = categories().into_iter().map(|c| c.label).collect();
    assert_eq!(labels, vec!["activity", "scheduled", "success", "warning", "failure"]);
}

#[test]
fn overview_selects_the_planning_item() {
    let view = overview();
    assert_eq!(view.selected_item().unwrap().id, ItemId(1));
    assert_eq!(view.selected_track().unwrap().id, TrackId(0));
    assert_eq!(view.time_window(), (OVERVIEW_BASE, OVERVIEW_BASE + 690_000_000));
    assert!(!view.needs_idle_render());
    assert!(!uncertainty().needs_idle_render());
}

#[test]
fn uncertainty_keeps_partial_timings_as_given() {
    let data = uncertainty_data();
    assert_eq!(data.validate(), Ok(()));
    let timings: Vec<TraceTiming> = data.tracks[0].items.iter().map(|it| it.timing).collect();
    assert_eq!(timings[2], TraceTiming::MissingStart { end: 40 });
    assert_eq!(timings[4], TraceTiming::Interval { start: 80, end: 50 });
    assert_eq!(timings[5], TraceTiming::Untimed);
    let view = uncertainty();
    assert_eq!(view.selected_item().unwrap().id, ItemId(0));
}

#[test]
fn interactive_catalog_plays_keys_on_the_fixtures() {
    let catalog = trace_view_interactive_catalog();
    let names: Vec<&str> = catalog.iter().map(|s| s.name).collect();
    assert_eq!(
        names,
        vec!["semantic-overview", "uncertainty-and-density", "navigation-focus-collapse", "detail-inspector"]
    );
    assert_eq!(catalog[1].inputs.len(), 1);
    assert_eq!(catalog[2].inputs[1].code, KeyCode::Char('f'));
    for scenario in catalog {
        let mut view = scenario.state;
        for input in &scenario.inputs {
            let _: KeyResult = view.handle_key(input);
        }
    }
}
