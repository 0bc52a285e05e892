//! Render intents returned by state and input handlers.

use vstd::prelude::*;

use crate::input::render_scheduler::{spec_schedule_render, RenderScheduler, MAX_TIMESTAMP_MS};

verus! {

/// Render intent emitted by state/input handling.
#[derive(Debug, Clone, Copy, PartialEq, Eq)]
pub enum RenderEffect {
    /// The outer loop should schedule a redraw through a [`RenderScheduler`].
    ScheduleRender,
}

/// Result of one state/input transition: a domain action plus an optional
/// render effect, so that the driver stays the only place that draws.
#[derive(Debug, Clone, Copy, PartialEq, Eq)]
pub struct RenderStep<A> {
    pub action: A,
    pub effect: Option<RenderEffect>,
}

impl<A> RenderStep<A> {
    /// A step that does not request a redraw.
    pub fn new(action: A) -> (s: Self)
        ensures
            s.action == action,
            s.effect is None,
    {
        RenderStep { action, effect: None }
    }

    /// A step that requests a redraw.
    pub fn schedule_render(action: A) -> (s: Self)
        ensures
            s.action == action,
            s.effect == Some(RenderEffect::ScheduleRender),
    {
        RenderStep { action, effect: Some(RenderEffect::ScheduleRender) }
    }
}

/// Apply a render effect to the shared scheduler: a `ScheduleRender` effect
/// schedules a debounced redraw, no effect leaves the scheduler unchanged.
pub fn apply_render_effect(scheduler: &mut RenderScheduler, now: u64, effect: Option<RenderEffect>)
    requires
        old(scheduler).wf(),
        now <= MAX_TIMESTAMP_MS,
    ensures
        final(scheduler).wf(),
        effect is None ==> final(scheduler)@ == old(scheduler)@,
        effect is Some ==> final(scheduler)@ == spec_schedule_render(old(scheduler)@, now),
{
    if let Some(RenderEffect::ScheduleRender) = effect {
        scheduler.schedule_render(now);
    }
}

} // verus!
