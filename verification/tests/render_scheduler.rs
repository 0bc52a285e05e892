use mb_tui::input::render_effect::{apply_render_effect, RenderEffect, RenderStep};
use mb_tui::input::render_scheduler::{RenderScheduler, DEBOUNCE_PERIOD_MS, IDLE_RENDER_PERIOD_MS};

const T0: u64 = 1_000;

#[test]
fn idle_render_fires_after_idle_period() {
    let t0 = T0;
    let sched = RenderScheduler::new(t0);

    // Not yet due immediately after creation.
    assert!(!sched.should_render(t0, true));
    assert!(!sched.should_render(t0 + 20, true));

    // No idle redraw unless the driver opts in.
    assert!(!sched.should_render(t0 + IDLE_RENDER_PERIOD_MS, false));

    // Due after idle period.
    assert!(sched.should_render(t0 + IDLE_RENDER_PERIOD_MS, true));
    assert!(sched.should_render(t0 + 50, true));
}

#[test]
fn event_sets_debounce_deadline() {
    let t0 = T0;
    let mut sched = RenderScheduler::new(t0);

    let t1 = t0 + 5;
    sched.schedule_render(t1);

    // Not due before deadline.
    assert!(!sched.should_render(t1, false));
    assert!(!sched.should_render(t1 + 10, false));

    // Due at deadline.
    assert!(sched.should_render(t1 + DEBOUNCE_PERIOD_MS, false));
}

#[test]
fn second_event_does_not_push_deadline() {
    let t0 = T0;
    let mut sched = RenderScheduler::new(t0);

    let t1 = t0 + 5;
    sched.schedule_render(t1);
    let expected_deadline = t1 + DEBOUNCE_PERIOD_MS;

    // Second event arrives 8ms later; the deadline should not move.
    let t2 = t1 + 8;
    sched.schedule_render(t2);

    assert_eq!(sched.next_render_at(false), Some(expected_deadline));

    // Still not due before the first deadline.
    assert!(!sched.should_render(t2 + 5, false));
    // Due at the first deadline.
    assert!(sched.should_render(expected_deadline, false));
}

#[test]
fn record_render_clears_deadline() {
    let t0 = T0;
    let mut sched = RenderScheduler::new(t0);

    let t1 = t0 + 5;
    sched.schedule_render(t1);

    let t2 = t1 + DEBOUNCE_PERIOD_MS;
    assert!(sched.should_render(t2, false));

    sched.record_render(t2);

    // After recording, deadline is cleared; next render is idle-based.
    assert!(!sched.should_render(t2, false));
    assert_eq!(sched.next_render_at(false), None);
    assert_eq!(sched.next_render_at(true), Some(t2 + IDLE_RENDER_PERIOD_MS));
}

#[test]
fn next_render_at_returns_deadline_when_set() {
    let t0 = T0;
    let mut sched = RenderScheduler::new(t0);

    // No next render unless the driver opts into idle animation.
    assert_eq!(sched.next_render_at(false), None);
    assert_eq!(sched.next_render_at(true), Some(t0 + IDLE_RENDER_PERIOD_MS));

    let t1 = t0 + 5;
    sched.schedule_render(t1);

    // Event mode: next render is at the anchored deadline.
    assert_eq!(sched.next_render_at(false), Some(t1 + DEBOUNCE_PERIOD_MS));
}

#[test]
fn full_cycle_event_render_idle() {
    let t0 = T0;
    let mut sched = RenderScheduler::new(t0);

    // 1. Event arrives.
    let t1 = t0 + 10;
    sched.schedule_render(t1);

    // 2. Render fires at deadline.
    let t2 = t1 + DEBOUNCE_PERIOD_MS;
    assert!(sched.should_render(t2, false));
    sched.record_render(t2);

    // 3. Quiet period: no events, idle render fires.
    let t3 = t2 + IDLE_RENDER_PERIOD_MS;
    assert!(sched.should_render(t3, true));
    sched.record_render(t3);

    // 4. Another event starts a fresh debounce.
    let t4 = t3 + 5;
    sched.schedule_render(t4);
    assert_eq!(sched.next_render_at(false), Some(t4 + DEBOUNCE_PERIOD_MS));
}

#[test]
fn immediate_render_is_due_right_away() {
    let t0 = T0;
    let mut sched = RenderScheduler::new(t0);

    sched.schedule_render_now(t0);

    assert!(sched.should_render(t0, false));
    assert_eq!(sched.time_until_next_render(t0, false), Some(0));
}

#[test]
fn time_until_next_render_counts_down() {
    let mut sched = RenderScheduler::new(T0);
    assert_eq!(sched.time_until_next_render(T0, false), None);
    assert_eq!(sched.time_until_next_render(T0 + 3, true), Some(30));
    sched.notify_event(T0);
    assert!(sched.has_pending_render());
    assert_eq!(sched.time_until_next_render(T0 + 4, false), Some(12));
    assert_eq!(sched.time_until_next_render(T0 + 40, false), Some(0));
}

#[test]
fn render_effect_schedules_only_when_requested() {
    let mut sched = RenderScheduler::new(T0);
    let quiet = RenderStep::new(1u8);
    assert_eq!(quiet.effect, None);
    apply_render_effect(&mut sched, T0, quiet.effect);
    assert!(!sched.has_pending_render());

    let loud = RenderStep::schedule_render(2u8);
    assert_eq!(loud.action, 2);
    assert_eq!(loud.effect, Some(RenderEffect::ScheduleRender));
    apply_render_effect(&mut sched, T0 + 1, loud.effect);
    assert_eq!(sched.next_render_at(false), Some(T0 + 1 + DEBOUNCE_PERIOD_MS));
}
