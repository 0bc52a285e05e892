//! Debounced render scheduling for an event loop.
//!
//! Time is passed in as a millisecond timestamp (`u64`) measured from any
//! fixed origin chosen by the driver, so the scheduler never reads a clock.

use vstd::prelude::*;

verus! {

/// Minimum interval between renders in milliseconds (about 60 frames a second).
pub const DEBOUNCE_PERIOD_MS: u64 = 16;

/// How often to re-render while idle, in milliseconds (spinner animation).
pub const IDLE_RENDER_PERIOD_MS: u64 = 33;

/// The largest timestamp the scheduler accepts: later ones would overflow
/// the deadline arithmetic.
pub const MAX_TIMESTAMP_MS: u64 = 18446744073709551582;

/// Abstract state of a [`RenderScheduler`].
pub struct SchedulerView {
    /// When the last render happened.
    pub last_render: u64,
    /// `None` while idle, `Some(deadline)` once a redraw is anchored.
    pub deadline: Option<u64>,
}

/// Debounced render scheduler.
///
/// The debounce window is anchored to the first request after the last
/// render: later requests inside the window are batched, not pushed forward.
pub struct RenderScheduler {
    last_render: u64,
    render_deadline: Option<u64>,
}

impl View for RenderScheduler {
    type V = SchedulerView;

    closed spec fn view(&self) -> SchedulerView {
        SchedulerView { last_render: self.last_render, deadline: self.render_deadline }
    }
}

/// The moment a render is due, if any: the anchored deadline, or else the end
/// of the idle period when idle animation is enabled.
pub open spec fn spec_next_render_at(s: SchedulerView, idle_render: bool) -> Option<int> {
    match s.deadline {
        Some(d) => Some(d as int),
        None => if idle_render {
            Some(s.last_render + IDLE_RENDER_PERIOD_MS)
        } else {
            None
        },
    }
}

/// Whether a render is due at `now`.
pub open spec fn spec_should_render(s: SchedulerView, now: u64, idle_render: bool) -> bool {
    match spec_next_render_at(s, idle_render) {
        Some(at) => now >= at,
        None => false,
    }
}

/// The state after a debounced render request at `now`: a deadline
/// `DEBOUNCE_PERIOD_MS` after `now` is anchored unless one is pending, which
/// stays; the time of the last render is kept.
pub open spec fn spec_schedule_render(s: SchedulerView, now: u64) -> SchedulerView {
    SchedulerView {
        last_render: s.last_render,
        deadline: match s.deadline {
            Some(d) => Some(d),
            None => Some((now + DEBOUNCE_PERIOD_MS) as u64),
        },
    }
}

impl RenderScheduler {
    /// Well-formedness: the idle deadline is representable.
    pub closed spec fn wf(&self) -> bool {
        self.last_render <= MAX_TIMESTAMP_MS
    }

    /// Create a scheduler, recording `now` as the time of the initial render.
    pub fn new(now: u64) -> (s: Self)
        requires
            now <= MAX_TIMESTAMP_MS,
        ensures
            s.wf(),
            s@.last_render == now,
            s@.deadline is None,
    {
        RenderScheduler { last_render: now, render_deadline: None }
    }

    /// Schedule a debounced redraw: anchors a deadline `DEBOUNCE_PERIOD_MS`
    /// after `now` unless one is already pending, which is left unchanged.
    pub fn schedule_render(&mut self, now: u64)
        requires
            old(self).wf(),
            now <= MAX_TIMESTAMP_MS,
        ensures
            final(self).wf(),
            final(self)@ == spec_schedule_render(old(self)@, now),
    {
        if self.render_deadline.is_none() {
            self.render_deadline = Some(now + DEBOUNCE_PERIOD_MS);
        }
    }

    /// Schedule an immediate redraw: the deadline becomes `now`.
    pub fn schedule_render_now(&mut self, now: u64)
        requires
            old(self).wf(),
        ensures
            final(self).wf(),
            final(self)@.last_render == old(self)@.last_render,
            final(self)@.deadline == Some(now),
    {
        self.render_deadline = Some(now);
    }

    /// Alias for [`RenderScheduler::schedule_render`]: it leaves the
    /// scheduler in the state that `schedule_render` at `now` would.
    pub fn notify_event(&mut self, now: u64)
        requires
            old(self).wf(),
            now <= MAX_TIMESTAMP_MS,
        ensures
            final(self).wf(),
            final(self)@ == spec_schedule_render(old(self)@, now),
    {
        self.schedule_render(now);
    }

    /// True when a redraw is pending.
    pub fn has_pending_render(&self) -> (b: bool)
        ensures
            b == (self@.deadline is Some),
    {
        self.render_deadline.is_some()
    }

    /// Whether a render should happen at `now`: the pending deadline has been
    /// reached, or, with no deadline and idle animation enabled, the idle
    /// period since the last render has elapsed.
    pub fn should_render(&self, now: u64, idle_render: bool) -> (b: bool)
        requires
            self.wf(),
        ensures
            b == spec_should_render(self@, now, idle_render),
    {
        if let Some(deadline) = self.render_deadline {
            now >= deadline
        } else if idle_render {
            now >= self.last_render + IDLE_RENDER_PERIOD_MS
        } else {
            false
        }
    }

    /// Record that a render happened at `now`, clearing any pending deadline.
    pub fn record_render(&mut self, now: u64)
        requires
            now <= MAX_TIMESTAMP_MS,
        ensures
            final(self).wf(),
            final(self)@.last_render == now,
            final(self)@.deadline is None,
    {
        self.last_render = now;
        self.render_deadline = None;
    }

    /// The moment the next render is expected, if one is scheduled.
    pub fn next_render_at(&self, idle_render: bool) -> (r: Option<u64>)
        requires
            self.wf(),
        ensures
            match r {
                Some(t) => spec_next_render_at(self@, idle_render) == Some(t as int),
                None => spec_next_render_at(self@, idle_render) is None,
            },
    {
        match self.render_deadline {
            Some(d) => Some(d),
            None => if idle_render {
                Some(self.last_render + IDLE_RENDER_PERIOD_MS)
            } else {
                None
            },
        }
    }

    /// The delay in milliseconds until the next render (zero when it is
    /// already due), if one is scheduled.
    pub fn time_until_next_render(&self, now: u64, idle_render: bool) -> (r: Option<u64>)
        requires
            self.wf(),
        ensures
            match spec_next_render_at(self@, idle_render) {
                Some(at) => r == Some(if at > now { (at - now) as u64 } else { 0u64 }),
                None => r is None,
            },
    {
        match self.next_render_at(idle_render) {
            Some(at) => Some(at.saturating_sub(now)),
            None => None,
        }
    }
}

} // verus!
