//! Selection and layout of a row of labeled slots with vertical bars.
//!
//! The selected slot's bar rises to full height and the others fall to
//! empty; how far each bar has travelled is the caller's animation state.
//! This module decides which slot is selected, whether the selector draws
//! as bars or as a one-line summary, and how much room it asks for.

use vstd::prelude::*;

use crate::render::layout::{spec_constrain, Constraints, Size};
use crate::render::overflow::OverflowBehavior;
use crate::render::text::{display_width, display_width_of, string_from_chars};
use crate::widget::vim_editor::editor::{decimal, push_decimal_usize};

verus! {

/// Rows of the detailed layout: three of bars and one of labels.
pub const DETAILED_HEIGHT: u16 = 4;
/// Narrowest slot that still draws a bar.
pub const MIN_SLOT_WIDTH_FOR_BARS: u16 = 4;

/// How the selector is laid out at a given width.
#[derive(Clone, Copy, Debug, PartialEq, Eq, Structural)]
pub enum SelectorLayout {
    /// Bars above labels, each slot `slot_width` columns wide.
    Detailed { slot_width: u16 },
    /// A single line of labels.
    Summary,
}

/// A selector over labeled slots; exactly one slot is selected.
pub struct BarSelector {
    labels: Vec<&'static str>,
    selected: usize,
}

/// The slot after `s` among `n`, wrapping from the last to the first.
pub open spec fn next_slot(s: int, n: int) -> int {
    (s + 1) % n
}

/// The slot before `s` among `n`, wrapping from the first to the last.
pub open spec fn prev_slot(s: int, n: int) -> int {
    (s + n - 1) % n
}

/// `n` capped at `usize::MAX`.
pub open spec fn cap(n: int) -> usize {
    if n > usize::MAX {
        usize::MAX
    } else if n < 0 {
        0
    } else {
        n as usize
    }
}

/// `n` capped at `u16::MAX`.
pub open spec fn cap16(n: int) -> u16 {
    if n > u16::MAX {
        u16::MAX
    } else if n < 0 {
        0
    } else {
        n as u16
    }
}

/// The display width of a label.
pub open spec fn label_width(l: &'static str) -> usize {
    display_width_of(l@)
}

/// The widest label, 0 when there is none.
pub open spec fn widest_label(ls: Seq<&'static str>) -> nat
    decreases ls.len(),
{
    if ls.len() == 0 {
        0
    } else {
        let w = label_width(ls.last()) as nat;
        let rest = widest_label(ls.drop_last());
        if w >= rest { w } else { rest }
    }
}

/// Width the bars layout prefers: every slot as wide as the widest label,
/// at least `MIN_SLOT_WIDTH_FOR_BARS`.
pub open spec fn spec_detailed_width(ls: Seq<&'static str>) -> u16 {
    let w: nat = if widest_label(ls) >= MIN_SLOT_WIDTH_FOR_BARS { widest_label(ls) } else {
        MIN_SLOT_WIDTH_FOR_BARS as nat
    };
    cap16(cap((w * ls.len()) as int) as int)
}

/// The width of the summary tokens of the first `n` labels: each label, the
/// selected one in brackets.
pub open spec fn token_sum(ls: Seq<&'static str>, selected: int, n: int) -> nat
    decreases n,
{
    if n <= 0 {
        0
    } else {
        let w = label_width(ls[n - 1]);
        token_sum(ls, selected, n - 1) + (if n - 1 == selected { cap(w + 2) as nat } else { w as nat })
    }
}

/// The "position/count label" text of the selected slot.
pub open spec fn selected_summary(ls: Seq<&'static str>, selected: int) -> Seq<char> {
    decimal((selected + 1) as nat) + seq!['/'] + decimal(ls.len()) + seq![' '] + ls[selected]@
}

/// Width the summary layout prefers: the token row (tokens separated by a
/// space) or the selected-slot summary, whichever is wider.
pub open spec fn spec_summary_width(ls: Seq<&'static str>, selected: int) -> u16 {
    let row = cap(cap(token_sum(ls, selected, ls.len() as int) as int) + ls.len() - 1);
    let sel = display_width_of(selected_summary(ls, selected));
    cap16((if row >= sel { row } else { sel }) as int)
}

/// The layout at `width`: bars when each slot gets at least
/// `MIN_SLOT_WIDTH_FOR_BARS` columns, a summary otherwise.
pub open spec fn spec_layout(count: usize, width: u16) -> SelectorLayout {
    let slots = count as u16;
    if slots == 0 {
        SelectorLayout::Summary
    } else if width / slots >= MIN_SLOT_WIDTH_FOR_BARS {
        SelectorLayout::Detailed { slot_width: width / slots }
    } else {
        SelectorLayout::Summary
    }
}

/// The overflow behavior at `width` and an optional height limit: a summary
/// when fewer than two rows are available or the layout is a summary.
pub open spec fn spec_selector_overflow(count: usize, width: u16, max_height: Option<u16>) -> OverflowBehavior {
    if (max_height matches Some(h) && h < 2) || spec_layout(count, width) is Summary {
        OverflowBehavior::Summary
    } else {
        OverflowBehavior::Ellipsis
    }
}

/// The size the selector takes within `c`.
pub open spec fn spec_measure(ls: Seq<&'static str>, selected: int, c: Constraints) -> Size {
    if c.max_height == Some(0u16) || ls.len() == 0 {
        Size { width: 0, height: 0 }
    } else {
        let height_limited = c.max_height matches Some(h) && h < 2;
        let preferred = if height_limited { spec_summary_width(ls, selected) } else { spec_detailed_width(ls) };
        let width = spec_constrain(c, Size { width: preferred, height: 0 }).width;
        if width == 0 {
            Size { width: 0, height: 0 }
        } else {
            let desired: u16 = if spec_selector_overflow(ls.len() as usize, width, c.max_height) is Summary {
                1
            } else {
                DETAILED_HEIGHT
            };
            spec_constrain(c, Size { width: preferred, height: desired })
        }
    }
}

impl BarSelector {
    #[verifier::type_invariant]
    spec fn inv(self) -> bool {
        self.labels@.len() > 0 && self.selected < self.labels@.len()
    }

    /// The labels, in order.
    pub closed spec fn spec_labels(self) -> Seq<&'static str> {
        self.labels@
    }

    /// The selected slot.
    pub closed spec fn spec_selected(self) -> usize {
        self.selected
    }

    /// A selector over `labels` with the first slot selected.
    pub fn new(labels: &[&'static str]) -> (s: Self)
        requires
            labels@.len() > 0,
        ensures
            s.spec_labels() == labels@,
            s.spec_selected() == 0,
    {
        let mut v: Vec<&'static str> = Vec::new();
        let mut i: usize = 0;
        while i < labels.len()
            invariant
                i <= labels@.len(),
                v@ == labels@.take(i as int),
            decreases labels@.len() - i,
        {
            v.push(labels[i]);
            i += 1;
            assert(v@ =~= labels@.take(i as int));
        }
        assert(labels@.take(labels@.len() as int) =~= labels@);
        BarSelector { labels: v, selected: 0 }
    }

    /// Select slot `index`; an index past the last slot changes nothing.
    pub fn select(&mut self, index: usize)
        ensures
            final(self).spec_labels() == old(self).spec_labels(),
            final(self).spec_selected() == (if index < old(self).spec_labels().len() {
                index
            } else {
                old(self).spec_selected()
            }),
    {
        if index < self.labels.len() {
            self.selected = index;
        }
    }

    /// The selected slot.
    pub fn selected(&self) -> (i: usize)
        ensures
            i == self.spec_selected(),
            i < self.spec_labels().len(),
    {
        proof {
            use_type_invariant(self);
        }
        self.selected
    }

    /// Select the next slot, wrapping from the last to the first.
    pub fn select_next(&mut self)
        ensures
            final(self).spec_labels() == old(self).spec_labels(),
            final(self).spec_selected() == next_slot(old(self).spec_selected() as int, old(self).spec_labels().len() as int),
    {
        proof {
            use_type_invariant(&*self);
        }
        let n = self.labels.len();
        let s = self.selected;
        let next = if s == n - 1 { 0 } else { s + 1 };
        proof {
            let (si, ni) = (s as int, n as int);
            assert((si + 1) % ni == (if si + 1 == ni { 0 } else { si + 1 })) by (nonlinear_arith)
                requires
                    0 <= si < ni,
            {
                if si + 1 == ni {
                    vstd::arithmetic::div_mod::lemma_mod_self_0(ni);
                } else {
                    vstd::arithmetic::div_mod::lemma_small_mod((si + 1) as nat, ni as nat);
                }
            }
        }
        self.select(next);
    }

    /// Select the previous slot, wrapping from the first to the last.
    pub fn select_prev(&mut self)
        ensures
            final(self).spec_labels() == old(self).spec_labels(),
            final(self).spec_selected() == prev_slot(old(self).spec_selected() as int, old(self).spec_labels().len() as int),
    {
        proof {
            use_type_invariant(&*self);
        }
        let n = self.labels.len();
        let s = self.selected;
        let prev = if s == 0 { n - 1 } else { s - 1 };
        proof {
            let (si, ni) = (s as int, n as int);
            assert((si + ni - 1) % ni == (if si == 0 { ni - 1 } else { si - 1 })) by (nonlinear_arith)
                requires
                    0 <= si < ni,
            {
                if si == 0 {
                    vstd::arithmetic::div_mod::lemma_small_mod((ni - 1) as nat, ni as nat);
                } else {
                    vstd::arithmetic::div_mod::lemma_mod_add_multiples_vanish(si - 1, ni);
                    vstd::arithmetic::div_mod::lemma_small_mod((si - 1) as nat, ni as nat);
                }
            }
        }
        self.select(prev);
    }

    /// Number of slots.
    pub fn len(&self) -> (n: usize)
        ensures
            n == self.spec_labels().len(),
    {
        self.labels.len()
    }

    /// Whether there are no slots; never true, as a selector has at least one.
    pub fn is_empty(&self) -> (b: bool)
        ensures
            b == (self.spec_labels().len() == 0),
            !b,
    {
        proof {
            use_type_invariant(self);
        }
        self.labels.len() == 0
    }

    /// The label of slot `index`.
    pub fn label(&self, index: usize) -> (l: &'static str)
        requires
            index < self.spec_labels().len(),
        ensures
            l == self.spec_labels()[index as int],
    {
        self.labels[index]
    }

    /// The layout at `width`.
    pub fn layout(&self, width: u16) -> (l: SelectorLayout)
        ensures
            l == spec_layout(self.spec_labels().len() as usize, width),
    {
        let slot_count = self.labels.len() as u16;
        if slot_count == 0 {
            return SelectorLayout::Summary;
        }
        let slot_width = width / slot_count;
        if slot_width >= MIN_SLOT_WIDTH_FOR_BARS {
            SelectorLayout::Detailed { slot_width }
        } else {
            SelectorLayout::Summary
        }
    }

    /// The overflow behavior at `width` and an optional height limit.
    pub fn overflow(&self, width: u16, max_height: Option<u16>) -> (o: OverflowBehavior)
        ensures
            o == spec_selector_overflow(self.spec_labels().len() as usize, width, max_height),
    {
        let short = match max_height {
            Some(h) => h < 2,
            None => false,
        };
        if short {
            return OverflowBehavior::Summary;
        }
        match self.layout(width) {
            SelectorLayout::Summary => OverflowBehavior::Summary,
            SelectorLayout::Detailed { .. } => OverflowBehavior::Ellipsis,
        }
    }

    /// Width the bars layout prefers.
    pub fn detailed_width(&self) -> (w: u16)
        ensures
            w == spec_detailed_width(self.spec_labels()),
    {
        let ghost ls = self.labels@;
        let mut widest: usize = 0;
        let mut i: usize = 0;
        while i < self.labels.len()
            invariant
                i <= ls.len(),
                ls == self.labels@,
                widest == widest_label(ls.take(i as int)),
            decreases ls.len() - i,
        {
            proof {
                assert(ls.take(i + 1).drop_last() =~= ls.take(i as int));
            }
            let w = display_width(self.labels[i]);
            if w >= widest {
                widest = w;
            }
            i += 1;
        }
        proof {
            assert(ls.take(ls.len() as int) =~= ls);
        }
        let slot = if widest >= MIN_SLOT_WIDTH_FOR_BARS as usize { widest } else { MIN_SLOT_WIDTH_FOR_BARS as usize };
        let total = slot.checked_mul(self.labels.len());
        let total = match total {
            Some(t) => t,
            None => usize::MAX,
        };
        if total > u16::MAX as usize { u16::MAX } else { total as u16 }
    }

    /// Width the summary layout prefers.
    pub fn summary_width(&self) -> (w: u16)
        ensures
            w == spec_summary_width(self.spec_labels(), self.spec_selected() as int),
    {
        proof {
            use_type_invariant(self);
        }
        let ghost ls = self.labels@;
        let mut row: usize = 0;
        let mut i: usize = 0;
        while i < self.labels.len()
            invariant
                i <= ls.len(),
                ls == self.labels@,
                row == cap(token_sum(ls, self.selected as int, i as int) as int),
            decreases ls.len() - i,
        {
            let w = display_width(self.labels[i]);
            let token = if i == self.selected { w.saturating_add(2) } else { w };
            row = row.saturating_add(token);
            i += 1;
        }
        let row = row.saturating_add(self.labels.len() - 1);
        let mut text: Vec<char> = Vec::new();
        push_decimal_usize(&mut text, self.selected + 1);
        text.push('/');
        push_decimal_usize(&mut text, self.labels.len());
        text.push(' ');
        let label = crate::render::overflow::chars_of(self.labels[self.selected]);
        let ghost before = text@;
        let mut rest = label;
        text.append(&mut rest);
        assert(text@ =~= selected_summary(ls, self.selected as int));
        let sel = display_width(string_from_chars(text.as_slice()).as_str());
        let widest = if row >= sel { row } else { sel };
        if widest > u16::MAX as usize { u16::MAX } else { widest as u16 }
    }

    /// The size the selector takes within `constraints`: no space without
    /// height; otherwise its preferred width (the summary's when fewer than
    /// two rows are allowed) and one row for a summary or
    /// `DETAILED_HEIGHT` rows for bars.
    pub fn measure(&self, constraints: Constraints) -> (s: Size)
        ensures
            s == spec_measure(self.spec_labels(), self.spec_selected() as int, constraints),
    {
        if constraints.max_height == Some(0u16) || self.is_empty() {
            return Size::zero();
        }
        let height_limited = match constraints.max_height {
            Some(h) => h < 2,
            None => false,
        };
        let preferred = if height_limited { self.summary_width() } else { self.detailed_width() };
        let width = constraints.constrain(Size::new(preferred, 0)).width;
        if width == 0 {
            return Size::zero();
        }
        let desired: u16 = match self.overflow(width, constraints.max_height) {
            OverflowBehavior::Summary => 1,
            _ => DETAILED_HEIGHT,
        };
        constraints.constrain(Size::new(preferred, desired))
    }
}

/// Law: stepping to the next slot and back to the previous one, or back
/// and then forward, returns to the slot one started from.
pub proof fn law_next_and_prev_are_inverse(s: int, n: int)
    requires
        0 <= s < n,
    ensures
        prev_slot(next_slot(s, n), n) == s,
        next_slot(prev_slot(s, n), n) == s,
{
    vstd::arithmetic::div_mod::lemma_mod_self_0(n);
    if s + 1 < n {
        vstd::arithmetic::div_mod::lemma_small_mod((s + 1) as nat, n as nat);
        vstd::arithmetic::div_mod::lemma_mod_add_multiples_vanish(s, n);
        vstd::arithmetic::div_mod::lemma_small_mod(s as nat, n as nat);
    } else {
        vstd::arithmetic::div_mod::lemma_small_mod((n - 1) as nat, n as nat);
    }
    if s > 0 {
        vstd::arithmetic::div_mod::lemma_mod_add_multiples_vanish(s - 1, n);
        vstd::arithmetic::div_mod::lemma_small_mod((s - 1) as nat, n as nat);
        vstd::arithmetic::div_mod::lemma_small_mod(s as nat, n as nat);
    } else {
        vstd::arithmetic::div_mod::lemma_small_mod((n - 1) as nat, n as nat);
    }
}

} // verus!
