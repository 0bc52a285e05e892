//! Decisions of the unified playground, a tabbed session over several
//! playground entries: which modal context is active, the explorer's
//! bindings, and what a key press does to the session. The event loop that
//! reads keys, draws, and drives the entries performs the actions decided
//! here.

use vstd::prelude::*;

use crate::input::key::{KeyCode, KeyEvent, ALT, CONTROL};
use crate::input::modal::{collect_hints, spec_hints, BindingHint, Candidate, HotkeyHint, HotkeySection};

verus! {

/// Whether an entry is being browsed scenario by scenario or driven live.
#[derive(Clone, Copy, Debug, PartialEq, Eq, Structural)]
pub enum PlaygroundMode {
    Explorer,
    Live,
}

/// The modal context whose bindings apply.
#[derive(Clone, Copy, Debug, PartialEq, Eq, Structural)]
pub enum UnifiedContext {
    HelpOverlay,
    Explorer,
    Live,
    Animated,
}

/// What the bindings and hints read of the session.
#[derive(Clone, Copy, Debug, PartialEq, Eq, Structural)]
pub struct UnifiedView {
    pub mode: PlaygroundMode,
    pub show_help: bool,
    pub interactive: bool,
    pub animated: bool,
    pub paused: bool,
    pub multiple_entries: bool,
}

/// The active context: the help overlay while it is shown, else the
/// animated context for an animated entry, else the entry's mode.
pub open spec fn spec_active_context(v: UnifiedView) -> UnifiedContext {
    if v.show_help {
        UnifiedContext::HelpOverlay
    } else if v.animated {
        UnifiedContext::Animated
    } else {
        match v.mode {
            PlaygroundMode::Explorer => UnifiedContext::Explorer,
            PlaygroundMode::Live => UnifiedContext::Live,
        }
    }
}

impl UnifiedView {
    /// The context whose bindings apply to this view.
    pub fn active_context(&self) -> (c: UnifiedContext)
        ensures
            c == spec_active_context(*self),
    {
        if self.show_help {
            UnifiedContext::HelpOverlay
        } else if self.animated {
            UnifiedContext::Animated
        } else {
            match self.mode {
                PlaygroundMode::Explorer => UnifiedContext::Explorer,
                PlaygroundMode::Live => UnifiedContext::Live,
            }
        }
    }
}

/// A binding's display metadata and whether its guard admits it.
pub open spec fn spec_binding(
    key: &'static str,
    action: &'static str,
    description: &'static str,
    admitted: bool,
) -> BindingHint {
    BindingHint { hint: HotkeyHint { key, action, description }, admitted }
}

fn binding(key: &'static str, action: &'static str, description: &'static str, admitted: bool) -> (r:
    BindingHint)
    ensures
        r == spec_binding(key, action, description, admitted),
{
    BindingHint { hint: HotkeyHint { key, action, description }, admitted }
}

/// The help overlay's bindings: Esc and `?` close it.
pub open spec fn spec_help_overlay_bindings() -> Seq<BindingHint> {
    seq![
        spec_binding("esc", "close", "Close help overlay", true),
        spec_binding("?", "close", "Close help overlay", true),
    ]
}

/// The explorer's bindings in order, each admitted as its guard says:
/// switching entries needs more than one entry, and entering live mode needs
/// an interactive scenario.
pub open spec fn spec_explorer_bindings(v: UnifiedView) -> Seq<BindingHint> {
    seq![
        spec_binding("tab", "switch", "Switch to next playground entry", v.multiple_entries),
        spec_binding("shift-tab", "switch", "Switch to previous playground entry", v.multiple_entries),
        spec_binding("→/[]", "next", "Advance to the next scenario", true),
        spec_binding("←/[]", "prev", "Return to the previous scenario", true),
        spec_binding("enter", "interact", "Enter live mode for the current scenario", v.interactive),
        spec_binding("q/esc", "quit", "Quit the unified playground", true),
        spec_binding("?", "help", "Toggle the help overlay", true),
    ]
}

/// The live context's bindings: switching entries (with more than one),
/// Esc back to the explorer, and help.
pub open spec fn spec_live_bindings(v: UnifiedView) -> Seq<BindingHint> {
    seq![
        spec_binding("tab", "switch", "Switch to next playground entry", v.multiple_entries),
        spec_binding("shift-tab", "switch", "Switch to previous playground entry", v.multiple_entries),
        spec_binding("esc", "back", "Return to explorer mode when the widget yields Esc", true),
        spec_binding("?", "help", "Toggle the help overlay", true),
    ]
}

/// The animated context's bindings: switching entries (with more than one),
/// pause, stepping a frame while paused, quit and help.
pub open spec fn spec_animated_bindings(v: UnifiedView) -> Seq<BindingHint> {
    seq![
        spec_binding("tab", "switch", "Switch to next playground entry", v.multiple_entries),
        spec_binding("shift-tab", "switch", "Switch to previous playground entry", v.multiple_entries),
        spec_binding("space", "pause", "Pause or resume the active animation", true),
        spec_binding("→", "step", "Advance one frame while paused", v.paused),
        spec_binding("q/esc", "quit", "Quit the unified playground", true),
        spec_binding("?", "help", "Toggle the help overlay", true),
    ]
}

/// The bindings of a context, with their guards evaluated on the view.
pub open spec fn spec_bindings(c: UnifiedContext, v: UnifiedView) -> Seq<BindingHint> {
    match c {
        UnifiedContext::HelpOverlay => spec_help_overlay_bindings(),
        UnifiedContext::Explorer => spec_explorer_bindings(v),
        UnifiedContext::Live => spec_live_bindings(v),
        UnifiedContext::Animated => spec_animated_bindings(v),
    }
}

/// The help overlay's bindings.
pub fn help_overlay_bindings() -> (r: Vec<BindingHint>)
    ensures
        r@ == spec_help_overlay_bindings(),
{
    let r = vec![
        binding("esc", "close", "Close help overlay", true),
        binding("?", "close", "Close help overlay", true),
    ];
    assert(r@ =~= spec_help_overlay_bindings());
    r
}

/// The explorer's bindings for a view, with their guards evaluated.
pub fn explorer_bindings(view: &UnifiedView) -> (r: Vec<BindingHint>)
    ensures
        r@ == spec_explorer_bindings(*view),
{
    let r = vec![
        binding("tab", "switch", "Switch to next playground entry", view.multiple_entries),
        binding("shift-tab", "switch", "Switch to previous playground entry", view.multiple_entries),
        binding("→/[]", "next", "Advance to the next scenario", true),
        binding("←/[]", "prev", "Return to the previous scenario", true),
        binding("enter", "interact", "Enter live mode for the current scenario", view.interactive),
        binding("q/esc", "quit", "Quit the unified playground", true),
        binding("?", "help", "Toggle the help overlay", true),
    ];
    assert(r@ =~= spec_explorer_bindings(*view));
    r
}

/// The live context's bindings for a view.
pub fn live_bindings(view: &UnifiedView) -> (r: Vec<BindingHint>)
    ensures
        r@ == spec_live_bindings(*view),
{
    let r = vec![
        binding("tab", "switch", "Switch to next playground entry", view.multiple_entries),
        binding("shift-tab", "switch", "Switch to previous playground entry", view.multiple_entries),
        binding("esc", "back", "Return to explorer mode when the widget yields Esc", true),
        binding("?", "help", "Toggle the help overlay", true),
    ];
    assert(r@ =~= spec_live_bindings(*view));
    r
}

/// The animated context's bindings for a view.
pub fn animated_bindings(view: &UnifiedView) -> (r: Vec<BindingHint>)
    ensures
        r@ == spec_animated_bindings(*view),
{
    let r = vec![
        binding("tab", "switch", "Switch to next playground entry", view.multiple_entries),
        binding("shift-tab", "switch", "Switch to previous playground entry", view.multiple_entries),
        binding("space", "pause", "Pause or resume the active animation", true),
        binding("→", "step", "Advance one frame while paused", view.paused),
        binding("q/esc", "quit", "Quit the unified playground", true),
        binding("?", "help", "Toggle the help overlay", true),
    ];
    assert(r@ =~= spec_animated_bindings(*view));
    r
}

/// The bindings of a context for a view.
pub fn bindings(context: UnifiedContext, view: &UnifiedView) -> (r: Vec<BindingHint>)
    ensures
        r@ == spec_bindings(context, *view),
{
    match context {
        UnifiedContext::HelpOverlay => help_overlay_bindings(),
        UnifiedContext::Explorer => explorer_bindings(view),
        UnifiedContext::Live => live_bindings(view),
        UnifiedContext::Animated => animated_bindings(view),
    }
}

/// The hints of the session's bar: those of the active context's shown
/// bindings, in order.
pub fn unified_hints(view: &UnifiedView) -> (r: Vec<HotkeyHint>)
    ensures
        r@ == spec_hints(spec_bindings(spec_active_context(*view), *view)),
{
    collect_hints(&bindings(view.active_context(), view))
}

/// The help overlay's sections: each context's title with the hints of its
/// bindings that have a key label, guards not evaluated.
pub fn help_sections(view: &UnifiedView) -> (r: Vec<HotkeySection>)
    ensures
        r@.len() == 4,
        r@[0].title == "Explorer" && r@[1].title == "Live" && r@[2].title == "Animated" && r@[3].title
            == "Help Overlay",
        r@[0].hints@ == spec_hints(all_admitted(spec_explorer_bindings(*view))),
        r@[1].hints@ == spec_hints(all_admitted(spec_live_bindings(*view))),
        r@[2].hints@ == spec_hints(all_admitted(spec_animated_bindings(*view))),
        r@[3].hints@ == spec_hints(all_admitted(spec_help_overlay_bindings())),
{
    let mut r: Vec<HotkeySection> = Vec::new();
    r.push(HotkeySection { title: "Explorer", hints: collect_hints(&admit_all(&explorer_bindings(view))) });
    r.push(HotkeySection { title: "Live", hints: collect_hints(&admit_all(&live_bindings(view))) });
    r.push(HotkeySection { title: "Animated", hints: collect_hints(&admit_all(&animated_bindings(view))) });
    r.push(HotkeySection { title: "Help Overlay", hints: collect_hints(&admit_all(&help_overlay_bindings())) });
    r
}

/// The bindings with every guard ignored.
pub open spec fn all_admitted(bs: Seq<BindingHint>) -> Seq<BindingHint> {
    bs.map_values(|b: BindingHint| BindingHint { admitted: true, ..b })
}

fn admit_all(bs: &Vec<BindingHint>) -> (r: Vec<BindingHint>)
    ensures
        r@ == all_admitted(bs@),
{
    let mut r: Vec<BindingHint> = Vec::new();
    let mut i: usize = 0;
    while i < bs.len()
        invariant
            i <= bs@.len(),
            r@.len() == i,
            forall|j: int| 0 <= j < i ==> #[trigger] r@[j] == (BindingHint { admitted: true, ..bs@[j] }),
        decreases bs@.len() - i,
    {
        r.push(BindingHint { admitted: true, ..bs[i] });
        i += 1;
    }
    assert(r@ =~= all_admitted(bs@));
    r
}

/// Which of the explorer's bindings turn a key into their intent, in the
/// order of `spec_explorer_bindings`.
pub open spec fn spec_explorer_resolves(code: KeyCode) -> Seq<bool> {
    seq![
        code == KeyCode::Tab,
        code == KeyCode::BackTab,
        code == KeyCode::Right || code == KeyCode::Char('l') || code == KeyCode::Char(']'),
        code == KeyCode::Left || code == KeyCode::Char('h') || code == KeyCode::Char('['),
        code == KeyCode::Enter,
        code == KeyCode::Char('q') || code == KeyCode::Esc,
        code == KeyCode::Char('?'),
    ]
}

/// The explorer's bindings as intent resolution reads them for a key: each
/// binding's guard and whether it resolves the key.
pub fn explorer_candidates(view: &UnifiedView, key: &KeyEvent) -> (r: Vec<Candidate>)
    ensures
        r@.len() == 7,
        forall|i: int|
            0 <= i < 7 ==> (#[trigger] r@[i]).admitted == spec_explorer_bindings(*view)[i].admitted
                && r@[i].resolves == spec_explorer_resolves(key.code)[i],
{
    let code = key.code;
    let r = vec![
        Candidate { admitted: view.multiple_entries, resolves: code == KeyCode::Tab },
        Candidate { admitted: view.multiple_entries, resolves: code == KeyCode::BackTab },
        Candidate {
            admitted: true,
            resolves: code == KeyCode::Right || code == KeyCode::Char('l') || code == KeyCode::Char(']'),
        },
        Candidate {
            admitted: true,
            resolves: code == KeyCode::Left || code == KeyCode::Char('h') || code == KeyCode::Char('['),
        },
        Candidate { admitted: view.interactive, resolves: code == KeyCode::Enter },
        Candidate { admitted: true, resolves: code == KeyCode::Char('q') || code == KeyCode::Esc },
        Candidate { admitted: true, resolves: code == KeyCode::Char('?') },
    ];
    r
}

/// A key held with neither Control nor Alt.
pub open spec fn unmodified(key: KeyEvent) -> bool {
    key.modifiers & (CONTROL | ALT) == 0
}

/// What the active entry reports to the session.
#[derive(Clone, Copy, Debug, PartialEq, Eq, Structural)]
pub struct EntryStatus {
    pub mode: PlaygroundMode,
    pub animated: bool,
}

/// The outcome of a top-level key.
#[derive(Clone, Copy, Debug, PartialEq, Eq, Structural)]
pub enum TopAction {
    /// Not a top-level key: the active entry gets it.
    Continue,
    /// The key switched entries: the one left is reset to explorer mode.
    Handled,
    /// Leave the session.
    Quit,
}

/// Top-level keys: unmodified `q` quits in explorer mode or on an animated
/// entry, unmodified Esc quits in explorer mode, and with more than one entry
/// Tab and Shift-Tab move to the next and previous entry, wrapping around.
/// The result is the action and the new active entry.
pub open spec fn spec_top_level(key: KeyEvent, count: usize, active: usize, entry: EntryStatus) -> (
    TopAction,
    usize,
) {
    if key.code == KeyCode::Char('q') && unmodified(key) {
        if entry.mode == PlaygroundMode::Explorer || entry.animated {
            (TopAction::Quit, active)
        } else {
            (TopAction::Continue, active)
        }
    } else if key.code == KeyCode::Esc && unmodified(key) {
        if entry.mode == PlaygroundMode::Explorer {
            (TopAction::Quit, active)
        } else {
            (TopAction::Continue, active)
        }
    } else if key.code == KeyCode::Tab && count > 1 {
        (TopAction::Handled, ((active + 1) % (count as int)) as usize)
    } else if key.code == KeyCode::BackTab && count > 1 {
        (TopAction::Handled, ((active + count - 1) % (count as int)) as usize)
    } else {
        (TopAction::Continue, active)
    }
}

/// Stepping back from `a` among `c` places wraps from the first to the last.
proof fn lemma_previous_wraps(a: int, c: int)
    requires
        0 <= a < c,
    ensures
        (a + c - 1) % c == if a == 0 { c - 1 } else { a - 1 },
{
    if a == 0 {
        assert((c - 1) % c == c - 1) by (nonlinear_arith)
            requires
                c > 0,
        ;
    } else {
        assert((a + c - 1) % c == a - 1) by (nonlinear_arith)
            requires
                0 < a < c,
        ;
    }
}

/// Handle a top-level key for the session of `count` entries whose active
/// one, at `active`, reports `entry`.
pub fn dispatch_top_level(key: &KeyEvent, count: usize, active: usize, entry: EntryStatus) -> (r: (
    TopAction,
    usize,
))
    requires
        active < count,
    ensures
        r == spec_top_level(*key, count, active, entry),
        r.1 < count,
{
    let unmod = key.modifiers & (CONTROL | ALT) == 0;
    match key.code {
        KeyCode::Char('q') if unmod => {
            if entry.mode == PlaygroundMode::Explorer || entry.animated {
                (TopAction::Quit, active)
            } else {
                (TopAction::Continue, active)
            }
        },
        KeyCode::Esc if unmod => {
            if entry.mode == PlaygroundMode::Explorer {
                (TopAction::Quit, active)
            } else {
                (TopAction::Continue, active)
            }
        },
        KeyCode::Tab if count > 1 => (TopAction::Handled, (active + 1) % count),
        KeyCode::BackTab if count > 1 => {
            proof {
                lemma_previous_wraps(active as int, count as int);
            }
            (TopAction::Handled, if active == 0 { count - 1 } else { active - 1 })
        },
        _ => (TopAction::Continue, active),
    }
}

/// The session between key presses: the active entry and whether help is
/// shown.
#[derive(Clone, Copy, Debug, PartialEq, Eq, Structural)]
pub struct UnifiedState {
    pub active: usize,
    pub show_help: bool,
}

/// What the event loop does after a key press.
#[derive(Clone, Copy, Debug, PartialEq, Eq, Structural)]
pub enum UnifiedAction {
    /// Nothing.
    Ignore,
    /// Schedule a redraw.
    Redraw,
    /// Reset the entry at the index to explorer mode, then schedule a
    /// redraw.
    Switch(usize),
    /// Hand the key to the active entry and apply its render effect.
    Forward,
    /// Leave the session.
    Quit,
}

/// One key press: while help is shown only unmodified Esc or `?` (closing
/// it) do anything; an unmodified `?` opens help; then the top-level keys;
/// any other key goes to the active entry.
pub open spec fn spec_unified_step(s: UnifiedState, key: KeyEvent, count: usize, entry: EntryStatus) -> (
    UnifiedState,
    UnifiedAction,
) {
    if s.show_help {
        if unmodified(key) && (key.code == KeyCode::Esc || key.code == KeyCode::Char('?')) {
            (UnifiedState { show_help: false, ..s }, UnifiedAction::Redraw)
        } else {
            (s, UnifiedAction::Ignore)
        }
    } else if unmodified(key) && key.code == KeyCode::Char('?') {
        (UnifiedState { show_help: true, ..s }, UnifiedAction::Redraw)
    } else {
        let (top, active) = spec_top_level(key, count, s.active, entry);
        match top {
            TopAction::Quit => (s, UnifiedAction::Quit),
            TopAction::Handled => (UnifiedState { active, ..s }, UnifiedAction::Switch(s.active)),
            TopAction::Continue => (s, UnifiedAction::Forward),
        }
    }
}

/// Decide what a key press does to the session of `count` entries, whose
/// active one reports `entry`.
pub fn unified_step(s: UnifiedState, key: &KeyEvent, count: usize, entry: EntryStatus) -> (r: (
    UnifiedState,
    UnifiedAction,
))
    requires
        s.active < count,
    ensures
        r == spec_unified_step(s, *key, count, entry),
        r.0.active < count,
{
    let unmod = key.modifiers & (CONTROL | ALT) == 0;
    if s.show_help {
        if unmod && (key.code == KeyCode::Esc || key.code == KeyCode::Char('?')) {
            return (UnifiedState { show_help: false, ..s }, UnifiedAction::Redraw);
        }
        return (s, UnifiedAction::Ignore);
    }
    if unmod && key.code == KeyCode::Char('?') {
        return (UnifiedState { show_help: true, ..s }, UnifiedAction::Redraw);
    }
    let (top, active) = dispatch_top_level(key, count, s.active, entry);
    match top {
        TopAction::Quit => (s, UnifiedAction::Quit),
        TopAction::Handled => (UnifiedState { active, ..s }, UnifiedAction::Switch(s.active)),
        TopAction::Continue => (s, UnifiedAction::Forward),
    }
}

} // verus!
