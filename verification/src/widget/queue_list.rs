//! An ordered list with a selection cursor.

use vstd::prelude::*;

use crate::render::layout::{spec_fill, Constraints, Size};

verus! {

/// Interactive ordered list with a selection cursor.
///
/// Each item is shown as one row `{indicator} {index}. {label}`; when the
/// items do not fit, a window centred on the selected item is shown.
#[derive(Clone)]
pub struct QueueList {
    items: Vec<String>,
    selected: usize,
}

/// Number of decimal digits of `n` (1 for 0).
pub open spec fn decimal_digits(n: nat) -> nat
    decreases n,
{
    if n < 10 { 1 } else { 1 + decimal_digits(n / 10) }
}

/// The window `(start, end)` of items shown in `height` rows when `count`
/// items exist and `selected` is selected: everything when it fits,
/// otherwise `height` rows centred on the selection and kept inside the list.
pub open spec fn spec_visible_window(count: int, selected: int, height: int) -> (int, int) {
    if height >= count {
        (0, count)
    } else {
        let half = height / 2;
        let start = if selected <= half {
            0
        } else if selected + height - half > count {
            count - height
        } else {
            selected - half
        };
        (start, if start + height <= count { start + height } else { count })
    }
}

impl View for QueueList {
    type V = (Seq<String>, usize);

    closed spec fn view(&self) -> (Seq<String>, usize) {
        (self.items@, self.selected)
    }
}

/// The selected item swapped with the one above it, still selected;
/// unchanged at the top.
pub open spec fn spec_move_up(q: (Seq<String>, usize)) -> (Seq<String>, usize) {
    let (v, s) = q;
    if s > 0 {
        (v.update(s as int, v[s - 1]).update(s - 1, v[s as int]), (s - 1) as usize)
    } else {
        q
    }
}

/// The selected item swapped with the one below it, still selected;
/// unchanged at the bottom.
pub open spec fn spec_move_down(q: (Seq<String>, usize)) -> (Seq<String>, usize) {
    let (v, s) = q;
    if s + 1 < v.len() {
        (v.update(s as int, v[s + 1]).update(s + 1, v[s as int]), (s + 1) as usize)
    } else {
        q
    }
}

/// The selection after inserting at `index` (clamped to the length).
pub open spec fn selected_after_insert(len: int, selected: usize, index: int) -> usize {
    if len > 0 && index <= selected { (selected + 1) as usize } else { selected }
}

/// The selection after removing item `index` from a list of `len > index`
/// items: it follows its item when an earlier one is removed and stays on
/// the last item when the selected last item goes.
pub open spec fn selected_after_remove(len: int, selected: usize, index: int) -> usize {
    if len - 1 == 0 {
        0
    } else if index < selected {
        (selected - 1) as usize
    } else if selected >= len - 1 {
        (len - 2) as usize
    } else {
        selected
    }
}

/// Exchange the items at `a` and `b`.
fn swap_items(v: &mut Vec<String>, a: usize, b: usize)
    requires
        a < old(v)@.len(),
        b < old(v)@.len(),
    ensures
        final(v)@ == old(v)@.update(a as int, old(v)@[b as int]).update(b as int, old(v)@[a as int]),
{
    let va = v[a].clone();
    let vb = v[b].clone();
    v.set(a, vb);
    v.set(b, va);
}

proof fn lemma_digits_le(n: nat)
    requires
        n >= 1,
    ensures
        decimal_digits(n) <= n,
    decreases n,
{
    if n >= 10 {
        lemma_digits_le(n / 10);
    }
}

impl QueueList {
    /// The selection is on an item, or at 0 when the list is empty.
    pub closed spec fn wf(&self) -> bool {
        if self.items@.len() == 0 { self.selected == 0 } else { self.selected < self.items@.len() }
    }

    /// A well-formed list has its selection on an item, or at 0 when the
    /// list is empty.
    pub proof fn lemma_selection_in_range(&self)
        requires
            self.wf(),
        ensures
            self@.0.len() == 0 ==> self@.1 == 0,
            self@.0.len() > 0 ==> self@.1 < self@.0.len(),
    {
    }

    /// A list of `items` with the first one selected.
    pub fn new(items: Vec<String>) -> (q: Self)
        ensures
            q.wf(),
            q@ == (items@, 0usize),
    {
        QueueList { items, selected: 0 }
    }

    /// Index of the selected item.
    pub fn selected(&self) -> (i: usize)
        ensures
            i == self@.1,
    {
        self.selected
    }

    /// Select item `index`; out-of-range indices are ignored.
    pub fn select(&mut self, index: usize)
        requires
            old(self).wf(),
        ensures
            final(self).wf(),
            final(self)@ == (old(self)@.0, if index < old(self)@.0.len() { index } else { old(self)@.1 }),
    {
        if index < self.items.len() {
            self.selected = index;
        }
    }

    /// Select the next item, staying on the last one.
    pub fn next(&mut self)
        requires
            old(self).wf(),
        ensures
            final(self).wf(),
            final(self)@ == (old(self)@.0, if old(self)@.1 + 1 < old(self)@.0.len() {
                (old(self)@.1 + 1) as usize
            } else {
                old(self)@.1
            }),
    {
        let n = self.items.len();
        if self.selected + 1 < n {
            self.selected += 1;
        }
    }

    /// Select the previous item, staying on the first one.
    pub fn prev(&mut self)
        requires
            old(self).wf(),
        ensures
            final(self).wf(),
            final(self)@ == (old(self)@.0, if old(self)@.1 > 0 { (old(self)@.1 - 1) as usize } else { 0usize }),
    {
        if self.selected > 0 {
            self.selected -= 1;
        }
    }

    /// Append an item; the selection is unchanged.
    pub fn push(&mut self, item: String)
        requires
            old(self).wf(),
        ensures
            final(self).wf(),
            final(self)@ == (old(self)@.0.push(item), old(self)@.1),
    {
        self.items.push(item);
    }

    /// Insert an item at `index` (clamped to the end); the selection keeps
    /// following the item it was on.
    pub fn insert(&mut self, index: usize, item: String)
        requires
            old(self).wf(),
        ensures
            final(self).wf(),
            ({
                let len = old(self)@.0.len();
                let at = if index <= len { index as int } else { len as int };
                final(self)@ == (old(self)@.0.insert(at, item), selected_after_insert(len as int, old(self)@.1, at))
            }),
    {
        let index = if index < self.items.len() { index } else { self.items.len() };
        if self.items.len() > 0 && index <= self.selected {
            self.selected += 1;
        }
        self.items.insert(index, item);
    }

    /// Remove and return item `index`, or `None` when out of range; the
    /// selection follows its item, or moves to the new last item.
    pub fn remove(&mut self, index: usize) -> (r: Option<String>)
        requires
            old(self).wf(),
        ensures
            final(self).wf(),
            index < old(self)@.0.len() ==> {
                &&& r == Some(old(self)@.0[index as int])
                &&& final(self)@ == (
                    old(self)@.0.remove(index as int),
                    selected_after_remove(old(self)@.0.len() as int, old(self)@.1, index as int),
                )
            },
            index >= old(self)@.0.len() ==> r is None && final(self)@ == old(self)@,
    {
        if index >= self.items.len() {
            return None;
        }
        let item = self.items.remove(index);
        if self.items.len() == 0 {
            self.selected = 0;
        } else if index < self.selected {
            self.selected -= 1;
        } else if self.selected >= self.items.len() {
            self.selected = self.items.len() - 1;
        }
        Some(item)
    }

    /// Swap items `a` and `b` when both exist; the selection index is kept.
    pub fn swap(&mut self, a: usize, b: usize)
        requires
            old(self).wf(),
        ensures
            final(self).wf(),
            a < old(self)@.0.len() && b < old(self)@.0.len() ==> final(self)@ == (
                old(self)@.0.update(a as int, old(self)@.0[b as int]).update(b as int, old(self)@.0[a as int]),
                old(self)@.1,
            ),
            !(a < old(self)@.0.len() && b < old(self)@.0.len()) ==> final(self)@ == old(self)@,
    {
        if a < self.items.len() && b < self.items.len() {
            swap_items(&mut self.items, a, b);
        }
    }

    /// Move the selected item one place up, keeping it selected.
    pub fn move_up(&mut self)
        requires
            old(self).wf(),
        ensures
            final(self).wf(),
            final(self)@ == spec_move_up(old(self)@),
    {
        if self.selected > 0 {
            swap_items(&mut self.items, self.selected, self.selected - 1);
            self.selected -= 1;
        }
    }

    /// Move the selected item one place down, keeping it selected.
    pub fn move_down(&mut self)
        requires
            old(self).wf(),
        ensures
            final(self).wf(),
            final(self)@ == spec_move_down(old(self)@),
    {
        let n = self.items.len();
        if self.selected + 1 < n {
            swap_items(&mut self.items, self.selected, self.selected + 1);
            self.selected += 1;
        }
    }

    /// The items, in order.
    pub fn items(&self) -> (s: &[String])
        ensures
            s@ == self@.0,
    {
        self.items.as_slice()
    }

    /// Number of items.
    pub fn len(&self) -> (n: usize)
        ensures
            n == self@.0.len(),
    {
        self.items.len()
    }

    /// Whether the list has no items.
    pub fn is_empty(&self) -> (b: bool)
        ensures
            b == (self@.0.len() == 0),
    {
        self.items.len() == 0
    }

    /// The window `(start, end)` of items shown in `height` rows.
    pub fn visible_window(&self, height: usize) -> (w: (usize, usize))
        requires
            self.wf(),
        ensures
            w.0 == spec_visible_window(self@.0.len() as int, self@.1 as int, height as int).0,
            w.1 == spec_visible_window(self@.0.len() as int, self@.1 as int, height as int).1,
            w.0 <= w.1 <= self@.0.len(),
            w.1 - w.0 <= height,
            self@.0.len() > 0 ==> w.0 <= self@.1 < w.1 || height == 0,
    {
        let count = self.items.len();
        if height >= count {
            return (0, count);
        }
        let half = height / 2;
        let start = if self.selected <= half {
            0
        } else if self.selected > count - (height - half) {
            count - height
        } else {
            self.selected - half
        };
        let end = if start + height <= count { start + height } else { count };
        (start, end)
    }

    /// Number of decimal digits of the largest 1-based index (1 when empty).
    pub fn index_width(&self) -> (w: usize)
        ensures
            w == if self@.0.len() == 0 { 1 } else { decimal_digits(self@.0.len() as nat) },
    {
        let mut n = self.items.len();
        if n == 0 {
            return 1;
        }
        let mut digits: usize = 1;
        proof {
            lemma_digits_le(self@.0.len() as nat);
        }
        while n >= 10
            invariant
                1 <= digits,
                n >= 1,
                digits + decimal_digits(n as nat) - 1 == decimal_digits(self@.0.len() as nat),
                decimal_digits(self@.0.len() as nat) <= self@.0.len() <= usize::MAX,
            decreases n,
        {
            assert(decimal_digits(n as nat) == 1 + decimal_digits((n / 10) as nat));
            assert(decimal_digits((n / 10) as nat) >= 1);
            n = n / 10;
            digits += 1;
        }
        digits
    }

    /// Fill the available width; as many rows as items, capped by the
    /// available height.
    pub fn measure(&self, constraints: Constraints) -> (s: Size)
        ensures
            s.width == spec_fill(constraints.min_width, constraints.max_width),
            s.height == if (self@.0.len() as u16) <= spec_fill(constraints.min_height, constraints.max_height) {
                self@.0.len() as u16
            } else {
                spec_fill(constraints.min_height, constraints.max_height)
            },
    {
        let width = constraints.fill_width();
        let item_count = self.items.len() as u16;
        let max_height = constraints.fill_height();
        let height = if item_count <= max_height { item_count } else { max_height };
        Size::new(width, height)
    }
}

/// Law: moving the selected item down and back up, or up and back down,
/// restores the list and the selection; and moving never adds, drops or
/// duplicates an item.
pub proof fn law_moves_undo_each_other(q: (Seq<String>, usize))
    requires
        q.1 < q.0.len() <= usize::MAX,
    ensures
        q.1 + 1 < q.0.len() ==> spec_move_up(spec_move_down(q)) == q,
        q.1 > 0 ==> spec_move_down(spec_move_up(q)) == q,
        spec_move_up(q).0.to_multiset() == q.0.to_multiset(),
        spec_move_down(q).0.to_multiset() == q.0.to_multiset(),
{
    let (v, s) = q;
    if s + 1 < v.len() {
        let d = spec_move_down(q);
        assert(spec_move_up(d).0 =~= v);
        lemma_swap_multiset(v, s as int, s + 1);
    }
    if s > 0 {
        let u = spec_move_up(q);
        assert(spec_move_down(u).0 =~= v);
        lemma_swap_multiset(v, s as int, s - 1);
    }
}

proof fn lemma_swap_multiset(v: Seq<String>, i: int, j: int)
    requires
        0 <= i < v.len(),
        0 <= j < v.len(),
    ensures
        v.update(i, v[j]).update(j, v[i]).to_multiset() == v.to_multiset(),
{
    broadcast use vstd::seq_lib::group_to_multiset_ensures;
    let w = v.update(i, v[j]);
    assert(w.to_multiset() == v.to_multiset().remove(v[i]).insert(v[j]));
    assert(w.update(j, v[i]).to_multiset() == w.to_multiset().remove(w[j]).insert(v[i]));
    if i != j {
        assert(w[j] == v[j]);
    }
}

} // verus!
