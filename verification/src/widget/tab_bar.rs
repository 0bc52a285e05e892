//! A single-row bar of tab labels with one selected tab.

use vstd::prelude::*;

use crate::render::layout::{spec_fill, Constraints, Size};
use crate::render::overflow::{ellipsize_text, spec_ellipsize};
use crate::render::text::{display_width, display_width_of};

verus! {

/// Width of the separator drawn between two labels.
pub const SEPARATOR_WIDTH: usize = 3;

/// Horizontal tab bar with wrapping selection.
#[derive(Clone)]
pub struct TabBar {
    labels: Vec<String>,
    selected: usize,
}

impl View for TabBar {
    type V = (Seq<String>, usize);

    closed spec fn view(&self) -> (Seq<String>, usize) {
        (self.labels@, self.selected)
    }
}

/// Columns used by labels `start..=end` with separators between them.
pub open spec fn span_cost(w: Seq<usize>, start: int, end: int) -> int
    decreases end - start,
{
    if end < start {
        0
    } else if end == start {
        w[start] as int
    } else {
        span_cost(w, start, end - 1) + SEPARATOR_WIDTH + w[end]
    }
}

/// Labels `start..=selected` fit in `width` columns.
pub open spec fn fits_through(w: Seq<usize>, start: int, selected: int, width: int) -> bool {
    span_cost(w, start, selected) <= width
}

/// The first label from `start` shown: the earliest start at or before the
/// selection from which everything up to the selection fits, or 0 when no
/// start does.
pub open spec fn spec_best_start(w: Seq<usize>, selected: int, width: int) -> int {
    if exists|s: int| 0 <= s <= selected && fits_through(w, s, selected, width) {
        choose|s: int|
            0 <= s <= selected && fits_through(w, s, selected, width) && forall|t: int|
                0 <= t < s ==> !fits_through(w, t, selected, width)
    } else {
        0
    }
}

/// The first label at or after `i` that no longer fits after `start`, or the
/// number of labels.
pub open spec fn first_overflow(w: Seq<usize>, start: int, width: int, i: int) -> int
    decreases w.len() - i,
{
    if i >= w.len() {
        w.len() as int
    } else if span_cost(w, start, i) > width {
        i
    } else {
        first_overflow(w, start, width, i + 1)
    }
}

/// The labels shown from `start`: those that fit, plus the selected label
/// when it is the first one that does not fit.
pub open spec fn spec_shown(w: Seq<usize>, start: int, selected: int, width: int) -> Seq<usize> {
    let stop = first_overflow(w, start, width, start);
    let fitting = Seq::new((stop - start) as nat, |k: int| (start + k) as usize);
    if stop == selected && stop < w.len() { fitting.push(stop as usize) } else { fitting }
}

proof fn lemma_span_cost_mono(w: Seq<usize>, start: int, a: int, b: int)
    requires
        start <= a <= b < w.len(),
        0 <= start,
    ensures
        span_cost(w, start, a) <= span_cost(w, start, b),
    decreases b - a,
{
    if a < b {
        lemma_span_cost_mono(w, start, a, b - 1);
    }
}

proof fn lemma_span_cost_shift(w: Seq<usize>, s: int, e: int)
    requires
        0 <= s < e < w.len(),
    ensures
        span_cost(w, s, e) == w[s] + SEPARATOR_WIDTH + span_cost(w, s + 1, e),
    decreases e - s,
{
    assert(span_cost(w, s, e) == span_cost(w, s, e - 1) + SEPARATOR_WIDTH + w[e]);
    if e > s + 1 {
        lemma_span_cost_shift(w, s, e - 1);
        assert(span_cost(w, s + 1, e) == span_cost(w, s + 1, e - 1) + SEPARATOR_WIDTH + w[e]);
    } else {
        assert(span_cost(w, s, s) == w[s]);
        assert(span_cost(w, s + 1, e) == w[e]);
    }
}

/// Total columns of all labels and separators.
pub open spec fn total_cost(w: Seq<usize>) -> int {
    span_cost(w, 0, w.len() - 1)
}

proof fn lemma_span_le_total(w: Seq<usize>, s: int, e: int)
    requires
        0 <= s <= e < w.len(),
    ensures
        span_cost(w, s, e) <= total_cost(w),
    decreases s,
{
    lemma_span_cost_mono(w, s, e, w.len() - 1);
    if s > 0 {
        lemma_span_cost_shift(w, s - 1, w.len() - 1);
        lemma_span_le_total(w, s - 1, w.len() - 1);
    }
}

/// Choose which labels to show in `width` columns so that the selected one
/// is visible: returns the first shown index and the shown indices.
pub fn compute_visible_window(label_widths: &[usize], selected: usize, width: usize) -> (r: (usize, Vec<usize>))
    requires
        label_widths@.len() == 0 || selected < label_widths@.len(),
        total_cost(label_widths@) <= usize::MAX,
    ensures
        label_widths@.len() == 0 ==> r.0 == 0 && r.1@.len() == 0,
        label_widths@.len() > 0 ==> {
            &&& r.0 == spec_best_start(label_widths@, selected as int, width as int)
            &&& r.1@ == spec_shown(label_widths@, r.0 as int, selected as int, width as int)
        },
{
    let ghost w = label_widths@;
    let n = label_widths.len();
    if n == 0 {
        return (0, Vec::new());
    }
    let mut best_start: usize = 0;
    let mut candidate: usize = 0;
    let mut found = false;
    while candidate <= selected && !found
        invariant
            n == w.len(),
            w == label_widths@,
            selected < n,
            total_cost(w) <= usize::MAX,
            candidate <= selected + 1,
            forall|t: int| 0 <= t < candidate && !found ==> !fits_through(w, t, selected as int, width as int),
            found ==> best_start <= selected && fits_through(w, best_start as int, selected as int, width as int)
                && forall|t: int| 0 <= t < best_start ==> !fits_through(w, t, selected as int, width as int),
            !found ==> best_start == 0,
        decreases selected + 1 - candidate, if found { 0nat } else { 1nat },
    {
        // Sum the labels from `candidate` through the selection.
        let mut used: usize = 0;
        let mut i = candidate;
        let mut fits = true;
        proof {
            lemma_span_le_total(w, candidate as int, selected as int);
        }
        while i <= selected
            invariant
                n == w.len(),
                w == label_widths@,
                candidate <= i <= selected + 1,
                selected < n,
                total_cost(w) <= usize::MAX,
                span_cost(w, candidate as int, selected as int) <= total_cost(w),
                i <= selected ==> fits,
                fits ==> used == span_cost(w, candidate as int, i - 1),
                fits ==> used <= width,
                !fits ==> span_cost(w, candidate as int, selected as int) > width,
            decreases selected + 1 - i, if fits { 1nat } else { 0nat },
        {
            proof {
                lemma_span_cost_mono(w, candidate as int, i as int, selected as int);
                if i > candidate {
                    assert(span_cost(w, candidate as int, i as int) == span_cost(w, candidate as int, i - 1)
                        + SEPARATOR_WIDTH + w[i as int]);
                } else {
                    assert(span_cost(w, candidate as int, i as int) == w[i as int]);
                }
            }
            let sep = if i > candidate { SEPARATOR_WIDTH } else { 0 };
            let needed = sep + label_widths[i];
            if used + needed > width {
                fits = false;
                i = selected + 1;
            } else {
                used += needed;
                i += 1;
            }
        }
        if fits {
            best_start = candidate;
            found = true;
        } else {
            candidate += 1;
        }
    }
    proof {
        if !found {
            assert(!(exists|s: int| 0 <= s <= selected && fits_through(w, s, selected as int, width as int)));
        } else {
            let s = spec_best_start(w, selected as int, width as int);
            assert(0 <= s <= selected && fits_through(w, s, selected as int, width as int) && forall|t: int|
                0 <= t < s ==> !fits_through(w, t, selected as int, width as int));
            if s < best_start {
                assert(!fits_through(w, s, selected as int, width as int));
            }
            if best_start < s {
                assert(!fits_through(w, best_start as int, selected as int, width as int));
            }
        }
    }
    // Collect the labels shown from `best_start`.
    let mut result: Vec<usize> = Vec::new();
    let mut used: usize = 0;
    let mut i = best_start;
    let mut stopped = false;
    while i < n && !stopped
        invariant
            n == w.len(),
            w == label_widths@,
            best_start <= i <= n,
            selected < n,
            total_cost(w) <= usize::MAX,
            !stopped ==> used == span_cost(w, best_start as int, i - 1) && used <= width,
            !stopped ==> first_overflow(w, best_start as int, width as int, best_start as int)
                == first_overflow(w, best_start as int, width as int, i as int),
            !stopped ==> result@ == Seq::new((i - best_start) as nat, |k: int| (best_start + k) as usize),
            stopped ==> result@ == spec_shown(w, best_start as int, selected as int, width as int),
        decreases n - i, if stopped { 0nat } else { 1nat },
    {
        proof {
            lemma_span_le_total(w, best_start as int, i as int);
            if i > best_start {
                assert(span_cost(w, best_start as int, i as int) == span_cost(w, best_start as int, i - 1)
                    + SEPARATOR_WIDTH + w[i as int]);
            } else {
                assert(span_cost(w, best_start as int, i as int) == w[i as int]);
            }
        }
        let sep = if i > best_start { SEPARATOR_WIDTH } else { 0 };
        let needed = sep + label_widths[i];
        let over = used + needed > width;
        if over {
            proof {
                assert(span_cost(w, best_start as int, i as int) > width);
                assert(first_overflow(w, best_start as int, width as int, i as int) == i);
            }
            if i == selected {
                result.push(i);
            }
            stopped = true;
        } else {
            proof {
                assert(first_overflow(w, best_start as int, width as int, i as int)
                    == first_overflow(w, best_start as int, width as int, i + 1));
            }
            used += needed;
            result.push(i);
            i += 1;
            proof {
                assert(result@ =~= Seq::new((i - best_start) as nat, |k: int| (best_start + k) as usize));
            }
        }
    }
    proof {
        if !stopped {
            assert(first_overflow(w, best_start as int, width as int, i as int) == n);
        }
    }
    (best_start, result)
}

impl TabBar {
    /// The selection is on a label, or at 0 when there are none.
    pub closed spec fn wf(&self) -> bool {
        if self.labels@.len() == 0 { self.selected == 0 } else { self.selected < self.labels@.len() }
    }

    /// The labels, in order.
    pub fn labels(&self) -> (r: &Vec<String>)
        ensures
            r@ == self@.0,
    {
        &self.labels
    }

    /// A tab bar over `labels` with the first one selected.
    pub fn new(labels: Vec<String>) -> (t: Self)
        ensures
            t.wf(),
            t@ == (labels@, 0usize),
    {
        TabBar { labels, selected: 0 }
    }

    /// Index of the selected tab.
    pub fn selected(&self) -> (i: usize)
        ensures
            i == self@.1,
    {
        self.selected
    }

    /// Select tab `index`; out-of-range indices are ignored.
    pub fn select(&mut self, index: usize)
        requires
            old(self).wf(),
        ensures
            final(self).wf(),
            final(self)@ == (old(self)@.0, if index < old(self)@.0.len() { index } else { old(self)@.1 }),
    {
        if index < self.labels.len() {
            self.selected = index;
        }
    }

    /// Select the next tab, wrapping from the last to the first.
    pub fn next(&mut self)
        requires
            old(self).wf(),
        ensures
            final(self).wf(),
            final(self)@ == (old(self)@.0, if old(self)@.0.len() > 0 {
                ((old(self)@.1 + 1) % (old(self)@.0.len() as int)) as usize
            } else {
                old(self)@.1
            }),
    {
        let n = self.labels.len();
        if n > 0 {
            self.selected = (self.selected + 1) % n;
        }
    }

    /// Select the previous tab, wrapping from the first to the last.
    pub fn prev(&mut self)
        requires
            old(self).wf(),
        ensures
            final(self).wf(),
            final(self)@ == (old(self)@.0, if old(self)@.0.len() > 0 {
                ((old(self)@.1 + old(self)@.0.len() - 1) % (old(self)@.0.len() as int)) as usize
            } else {
                old(self)@.1
            }),
    {
        let n = self.labels.len();
        if n > 0 {
            let s = self.selected;
            let p = if s == 0 { n - 1 } else { s - 1 };
            assert((s + n - 1) % (n as int) == p) by (nonlinear_arith)
                requires
                    s < n,
                    p == if s == 0 { n - 1 } else { s - 1 },
            ;
            self.selected = p;
        }
    }

    /// Number of tabs.
    pub fn len(&self) -> (n: usize)
        ensures
            n == self@.0.len(),
    {
        self.labels.len()
    }

    /// Whether there are no tabs.
    pub fn is_empty(&self) -> (b: bool)
        ensures
            b == (self@.0.len() == 0),
    {
        self.labels.len() == 0
    }

    /// A tab bar fills the available width and is always one row high.
    pub fn measure(&self, constraints: Constraints) -> (s: Size)
        ensures
            s == (Size { width: spec_fill(constraints.min_width, constraints.max_width), height: 1 }),
    {
        Size::new(constraints.fill_width(), 1)
    }
}

proof fn lemma_first_overflow_ge(w: Seq<usize>, start: int, width: int, i: int)
    requires
        i <= w.len(),
    ensures
        first_overflow(w, start, width, i) >= i,
    decreases w.len() - i,
{
    if i < w.len() && span_cost(w, start, i) <= width {
        lemma_first_overflow_ge(w, start, width, i + 1);
    }
}

proof fn lemma_first_overflow_past(w: Seq<usize>, start: int, width: int, selected: int, i: int)
    requires
        0 <= start <= i,
        selected < w.len(),
        span_cost(w, start, selected) <= width,
    ensures
        first_overflow(w, start, width, i) > selected || i > selected,
    decreases w.len() - i,
{
    if i <= selected {
        lemma_span_cost_mono(w, start, i, selected);
        lemma_first_overflow_past(w, start, width, selected, i + 1);
        lemma_first_overflow_ge(w, start, width, i + 1);
    }
}

proof fn lemma_minimal_start(w: Seq<usize>, selected: int, width: int, i: int)
    requires
        0 <= i <= selected,
        fits_through(w, selected, selected, width),
        forall|t: int| 0 <= t < i ==> !fits_through(w, t, selected, width),
    ensures
        exists|s: int|
            0 <= s <= selected && fits_through(w, s, selected, width) && forall|t: int|
                0 <= t < s ==> !fits_through(w, t, selected, width),
    decreases selected - i,
{
    if !fits_through(w, i, selected, width) {
        lemma_minimal_start(w, selected, width, i + 1);
    }
}

/// The shown labels always include the selected one when its label alone
/// fits in the width.
pub proof fn law_window_includes_selected(w: Seq<usize>, selected: int, width: int)
    requires
        0 <= selected < w.len(),
        w[selected] <= width,
    ensures
        spec_shown(w, spec_best_start(w, selected, width), selected, width).contains(selected as usize),
{
    assert(fits_through(w, selected, selected, width));
    lemma_minimal_start(w, selected, width, 0);
    let s = spec_best_start(w, selected, width);
    assert(0 <= s <= selected && fits_through(w, s, selected, width));
    lemma_first_overflow_past(w, s, width, selected, s);
    let stop = first_overflow(w, s, width, s);
    let fitting = Seq::new((stop - s) as nat, |k: int| (s + k) as usize);
    assert(fitting[selected - s] == selected as usize);
    let shown = spec_shown(w, s, selected, width);
    assert(shown[selected - s] == selected as usize);
}

proof fn lemma_first_overflow_le(w: Seq<usize>, start: int, width: int, i: int)
    ensures
        first_overflow(w, start, width, i) <= w.len() || i > w.len(),
    decreases w.len() - i,
{
    if i < w.len() && span_cost(w, start, i) <= width {
        lemma_first_overflow_le(w, start, width, i + 1);
    }
}

/// The display widths of the labels.
pub open spec fn tab_widths(labels: Seq<String>) -> Seq<usize> {
    Seq::new(labels.len(), |i: int| display_width_of(labels[i]@))
}

/// A piece of a drawn tab strip as plain values: a separator at a column,
/// or a label's text at a column and whether it is the selected one.
pub enum PieceView {
    Separator(usize),
    Label(usize, Seq<char>, bool),
}

/// A piece of a drawn tab strip, at a column counted from the strip's left
/// edge.
#[derive(Clone, Debug, PartialEq, Eq)]
pub enum TabPiece {
    /// The separator ` │ `, three columns wide.
    Separator { x: usize },
    /// A label, possibly ellipsized, and whether it is selected.
    Label { x: usize, text: String, selected: bool },
}

/// A piece as plain values.
pub open spec fn piece_view(p: TabPiece) -> PieceView {
    match p {
        TabPiece::Separator { x } => PieceView::Separator(x),
        TabPiece::Label { x, text, selected } => PieceView::Label(x, text@, selected),
    }
}

/// The pieces as plain values.
pub open spec fn pieces_view(ps: Seq<TabPiece>) -> Seq<PieceView> {
    Seq::new(ps.len(), |i: int| piece_view(ps[i]))
}

/// The pieces drawn for the shown labels from position `vi` on, the next
/// one starting at column `x` of `width`: before every label but the first
/// a separator when it fits (else drawing stops), then the label in the
/// columns left (stopping when none are), ellipsized when it is the last
/// shown or wider than those columns; drawing stops once the columns run
/// out.
pub open spec fn spec_tab_pieces(
    labels: Seq<String>,
    w: Seq<usize>,
    shown: Seq<usize>,
    selected: usize,
    width: usize,
    vi: int,
    x: usize,
) -> Seq<PieceView>
    decreases shown.len() - vi,
{
    if vi < 0 || vi >= shown.len() || x >= width {
        Seq::empty()
    } else if vi > 0 && x + SEPARATOR_WIDTH > width {
        Seq::empty()
    } else {
        let x1 = if vi > 0 { (x + SEPARATOR_WIDTH) as usize } else { x };
        let sep = if vi > 0 { seq![PieceView::Separator(x)] } else { Seq::<PieceView>::empty() };
        let remaining = (width - x1) as usize;
        if remaining == 0 {
            sep
        } else {
            let idx = shown[vi] as int;
            let text = if vi == shown.len() - 1 || w[idx] > remaining {
                spec_ellipsize(labels[idx]@, remaining)
            } else {
                labels[idx]@
            };
            let tw = display_width_of(text);
            let x2 = if tw >= remaining { width } else { (x1 + tw) as usize };
            sep.push(PieceView::Label(x1, text, shown[vi] == selected)) + spec_tab_pieces(
                labels,
                w,
                shown,
                selected,
                width,
                vi + 1,
                x2,
            )
        }
    }
}

/// The pieces of a tab strip `width` columns wide: nothing without width
/// or labels; otherwise the pieces of the window of labels that shows the
/// selected one.
pub open spec fn spec_tab_cells(labels: Seq<String>, selected: usize, width: usize) -> Seq<PieceView> {
    if width == 0 || labels.len() == 0 {
        Seq::empty()
    } else {
        let w = tab_widths(labels);
        let start = spec_best_start(w, selected as int, width as int);
        spec_tab_pieces(labels, w, spec_shown(w, start, selected as int, width as int), selected, width, 0, 0)
    }
}

/// Whether the labels' widths and separators together fit in a machine
/// word.
fn total_fits(widths: &Vec<usize>) -> (b: bool)
    requires
        widths@.len() > 0,
    ensures
        b <==> total_cost(widths@) <= usize::MAX,
{
    let ghost w = widths@;
    let n = widths.len();
    let mut total: usize = widths[0];
    let mut k: usize = 1;
    while k < n
        invariant
            n == w.len(),
            widths@ == w,
            1 <= k <= n,
            total == span_cost(w, 0, k - 1),
        decreases n - k,
    {
        proof {
            assert(span_cost(w, 0, k as int) == span_cost(w, 0, k - 1) + SEPARATOR_WIDTH + w[k as int]);
        }
        if total > usize::MAX - SEPARATOR_WIDTH || total + SEPARATOR_WIDTH > usize::MAX - widths[k] {
            proof {
                lemma_span_cost_mono(w, 0, k as int, n - 1);
            }
            return false;
        }
        total = total + SEPARATOR_WIDTH + widths[k];
        k += 1;
    }
    true
}

proof fn lemma_span_cost_ge_last(w: Seq<usize>, s: int, e: int)
    requires
        0 <= s <= e < w.len(),
    ensures
        span_cost(w, s, e) >= w[e],
        span_cost(w, s, e) >= 0,
    decreases e - s,
{
    if s < e {
        lemma_span_cost_ge_last(w, s, e - 1);
    }
}

/// The shown labels are labels of the strip.
proof fn lemma_shown_in_range(w: Seq<usize>, selected: int, width: int)
    requires
        0 <= selected < w.len(),
        w.len() <= usize::MAX,
    ensures
        ({
            let start = spec_best_start(w, selected, width);
            let shown = spec_shown(w, start, selected, width);
            forall|j: int| 0 <= j < shown.len() ==> #[trigger] shown[j] < w.len()
        }),
{
    let start = spec_best_start(w, selected, width);
    if exists|s: int| 0 <= s <= selected && fits_through(w, s, selected, width) {
        let s = choose|s: int| 0 <= s <= selected && fits_through(w, s, selected, width);
        lemma_span_cost_ge_last(w, s, selected);
        assert(fits_through(w, selected, selected, width));
        lemma_minimal_start(w, selected, width, 0);
    }
    assert(0 <= start <= selected);
    lemma_first_overflow_le(w, start, width, start);
    lemma_first_overflow_ge(w, start, width, start);
    let stop = first_overflow(w, start, width, start);
    let fitting = Seq::new((stop - start) as nat, |q: int| (start + q) as usize);
    let shown = spec_shown(w, start, selected, width);
    assert forall|j: int| 0 <= j < shown.len() implies #[trigger] shown[j] < w.len() by {
        if j < fitting.len() {
            assert(shown[j] == fitting[j]);
            assert(fitting[j] == (start + j) as usize);
        }
    }
}

/// Draw the shown labels, one after another from the left edge.
#[verifier::rlimit(40)]
fn draw_pieces(labels: &Vec<String>, widths: &Vec<usize>, shown: &Vec<usize>, selected: usize, width: usize) -> (r:
    Vec<TabPiece>)
    requires
        widths@ == tab_widths(labels@),
        forall|j: int| 0 <= j < shown@.len() ==> #[trigger] shown@[j] < labels@.len(),
    ensures
        pieces_view(r@) == spec_tab_pieces(labels@, widths@, shown@, selected, width, 0, 0),
{
    let ghost w = widths@;
    let ghost target = spec_tab_pieces(labels@, w, shown@, selected, width, 0, 0);
    let mut out: Vec<TabPiece> = Vec::new();
    let mut x: usize = 0;
    let mut vi: usize = 0;
    let mut done = false;
    assert(pieces_view(out@) + spec_tab_pieces(labels@, w, shown@, selected, width, 0, 0) =~= target);
    while vi < shown.len() && !done
        invariant
            widths@ == w,
            w == tab_widths(labels@),
            forall|j: int| 0 <= j < shown@.len() ==> #[trigger] shown@[j] < labels@.len(),
            vi <= shown@.len(),
            x <= width,
            target == spec_tab_pieces(labels@, w, shown@, selected, width, 0, 0),
            pieces_view(out@) + (if done {
                Seq::<PieceView>::empty()
            } else {
                spec_tab_pieces(labels@, w, shown@, selected, width, vi as int, x)
            }) == target,
        decreases shown@.len() - vi, if done { 0nat } else { 1nat },
    {
        let ghost before = out@;
        let ghost rest = spec_tab_pieces(labels@, w, shown@, selected, width, vi as int, x);
        if x >= width || (vi > 0 && width - x < SEPARATOR_WIDTH) {
            done = true;
            assert(rest =~= Seq::<PieceView>::empty());
            assert(pieces_view(out@) + Seq::<PieceView>::empty() =~= pieces_view(out@));
        } else {
            let x1 = if vi > 0 {
                out.push(TabPiece::Separator { x });
                x + SEPARATOR_WIDTH
            } else {
                x
            };
            let remaining = width - x1;
            if remaining == 0 {
                done = true;
                assert(pieces_view(out@) + Seq::<PieceView>::empty() =~= target) by {
                    assert(pieces_view(out@) =~= pieces_view(before) + rest);
                }
            } else {
                let idx = shown[vi];
                let text = if vi == shown.len() - 1 || widths[idx] > remaining {
                    ellipsize_text(labels[idx].as_str(), remaining)
                } else {
                    labels[idx].clone()
                };
                let tw = display_width(text.as_str());
                let ghost tv = text@;
                let ghost sep = if vi > 0 { seq![PieceView::Separator(x)] } else { Seq::<PieceView>::empty() };
                let ghost x0 = x;
                out.push(TabPiece::Label { x: x1, text, selected: idx == selected });
                x = if tw >= remaining { width } else { x1 + tw };
                vi += 1;
                assert(pieces_view(out@) =~= pieces_view(before) + sep.push(PieceView::Label(x1, tv, idx == selected)));
                assert(rest == sep.push(PieceView::Label(x1, tv, idx == selected)) + spec_tab_pieces(
                    labels@,
                    w,
                    shown@,
                    selected,
                    width,
                    vi as int,
                    x,
                ));
            }
        }
    }
    proof {
        if !done {
            assert(spec_tab_pieces(labels@, w, shown@, selected, width, vi as int, x) =~= Seq::<PieceView>::empty());
        }
        assert(pieces_view(out@) =~= pieces_view(out@) + Seq::<PieceView>::empty());
    }
    out
}

impl TabBar {
    /// The separators and labels to draw in a strip `width` columns wide.
    /// `None` only when the labels' widths and separators together exceed
    /// the machine word, which the window computation adds up.
    pub fn tab_cells(&self, width: usize) -> (r: Option<Vec<TabPiece>>)
        requires
            self.wf(),
        ensures
            (r is None) <==> (width > 0 && self@.0.len() > 0 && total_cost(tab_widths(self@.0)) > usize::MAX),
            r matches Some(p) ==> pieces_view(p@) == spec_tab_cells(self@.0, self@.1, width),
    {
        let labels = &self.labels;
        if width == 0 || labels.len() == 0 {
            let out: Vec<TabPiece> = Vec::new();
            assert(pieces_view(out@) =~= Seq::<PieceView>::empty());
            return Some(out);
        }
        let n = labels.len();
        let mut widths: Vec<usize> = Vec::new();
        let mut i: usize = 0;
        while i < n
            invariant
                n == labels@.len(),
                i <= n,
                widths@.len() == i,
                forall|j: int| 0 <= j < i ==> #[trigger] widths@[j] == display_width_of(labels@[j]@),
            decreases n - i,
        {
            widths.push(display_width(labels[i].as_str()));
            i += 1;
        }
        assert(widths@ =~= tab_widths(labels@));
        if !total_fits(&widths) {
            return None;
        }
        let (start, shown) = compute_visible_window(widths.as_slice(), self.selected, width);
        proof {
            lemma_shown_in_range(widths@, self.selected as int, width as int);
        }
        Some(draw_pieces(labels, &widths, &shown, self.selected, width))
    }
}

} // verus!
