//! Bounded undo/redo history of `(text, cursor)` snapshots.

use vstd::prelude::*;

verus! {

/// Maximum number of snapshots kept by `push`.
pub const UNDO_STACK_CAPACITY: usize = 100;

/// A snapshot: the text as characters and the cursor as a character index.
pub type Snapshot = (Vec<char>, usize);

/// A snapshot taken by value.
pub open spec fn snap_view(s: Snapshot) -> (Seq<char>, usize) {
    (s.0@, s.1)
}

/// A linear history of snapshots. `position` indexes the snapshot last
/// restored by undo, or equals the history's length when the live buffer is
/// ahead of every snapshot; undo moves left, redo right.
pub struct UndoStack {
    entries: Vec<Snapshot>,
    position: usize,
    live_saved: bool,
}

/// What an undo stack holds: its snapshots, position, and whether the live
/// state was saved during the current undo sequence.
pub struct UndoView {
    pub entries: Seq<(Seq<char>, usize)>,
    pub position: nat,
    pub live_saved: bool,
}

/// History after `push`: everything right of the position is discarded, the
/// snapshot appended, and the oldest entries dropped down to the capacity.
pub open spec fn spec_push(u: UndoView, s: (Seq<char>, usize)) -> UndoView {
    let kept = u.entries.take(u.position as int).push(s);
    let entries = if kept.len() > UNDO_STACK_CAPACITY {
        kept.skip(kept.len() - UNDO_STACK_CAPACITY)
    } else {
        kept
    };
    UndoView { entries, position: entries.len(), live_saved: false }
}

/// History after `save_live`: the live state is appended once per undo
/// sequence, when the position is at the top.
pub open spec fn spec_save_live(u: UndoView, s: (Seq<char>, usize)) -> UndoView {
    if !u.live_saved && u.position == u.entries.len() {
        UndoView { entries: u.entries.push(s), position: u.position, live_saved: true }
    } else {
        u
    }
}

impl UndoStack {
    /// The abstract history.
    pub closed spec fn view(&self) -> UndoView {
        UndoView {
            entries: self.entries@.map_values(|e: Snapshot| snap_view(e)),
            position: self.position as nat,
            live_saved: self.live_saved,
        }
    }

    /// The position never passes the end of the history.
    pub closed spec fn wf(&self) -> bool {
        self.position <= self.entries@.len()
    }

    /// An empty history.
    pub fn new() -> (r: Self)
        ensures
            r.wf(),
            r.view().entries == Seq::<(Seq<char>, usize)>::empty(),
            r.view().position == 0,
            !r.view().live_saved,
    {
        let r = UndoStack { entries: Vec::new(), position: 0, live_saved: false };
        assert(r.view().entries =~= Seq::<(Seq<char>, usize)>::empty());
        r
    }

    /// Save a pre-mutation snapshot, discarding redo history.
    pub fn push(&mut self, text: Vec<char>, cursor: usize)
        requires
            old(self).wf(),
        ensures
            final(self).wf(),
            final(self).view() == spec_push(old(self).view(), (text@, cursor)),
            final(self).view().entries.len() <= UNDO_STACK_CAPACITY,
    {
        let ghost s = (text@, cursor);
        let ghost kept = old(self).view().entries.take(old(self).position as int).push(s);
        self.entries.truncate(self.position);
        self.entries.push((text, cursor));
        assert(self.entries@.map_values(|e: Snapshot| snap_view(e)) =~= kept);
        self.position = self.entries.len();
        self.live_saved = false;
        if self.entries.len() > UNDO_STACK_CAPACITY {
            let excess = self.entries.len() - UNDO_STACK_CAPACITY;
            let mut k: usize = 0;
            while k < excess
                invariant
                    k <= excess,
                    excess == kept.len() - UNDO_STACK_CAPACITY,
                    kept.len() > UNDO_STACK_CAPACITY,
                    self.entries@.len() == kept.len() - k,
                    !self.live_saved,
                    self.entries@.map_values(|e: Snapshot| snap_view(e)) =~= kept.skip(k as int),
                decreases excess - k,
            {
                let ghost before = self.entries@;
                self.entries.remove(0);
                assert(self.entries@ =~= before.drop_first());
                assert forall|i: int| 0 <= i < self.entries@.len() implies snap_view(self.entries@[i]) == kept.skip(
                    k + 1,
                )[i] by {
                    assert(self.entries@[i] == before[i + 1]);
                    assert(before.map_values(|e: Snapshot| snap_view(e))[i + 1] == kept.skip(k as int)[i + 1]);
                }
                assert(self.entries@.map_values(|e: Snapshot| snap_view(e)) =~= kept.skip(k + 1));
                k += 1;
            }
            self.position = self.entries.len();
        }
    }

    /// Save the live state so redo can return to it; only the first call of
    /// an undo sequence, at the top of the history, records it.
    pub fn save_live(&mut self, text: Vec<char>, cursor: usize)
        requires
            old(self).wf(),
        ensures
            final(self).wf(),
            final(self).view() == spec_save_live(old(self).view(), (text@, cursor)),
    {
        if !self.live_saved && self.position == self.entries.len() {
            let ghost before = self.view().entries;
            self.entries.push((text, cursor));
            assert(self.view().entries =~= before.push((text@, cursor)));
            self.live_saved = true;
        }
    }

    /// Step back: the previous snapshot, or `None` at the bottom.
    pub fn undo(&mut self) -> (r: Option<&Snapshot>)
        requires
            old(self).wf(),
        ensures
            final(self).wf(),
            final(self).view().entries == old(self).view().entries,
            final(self).view().live_saved == old(self).view().live_saved,
            old(self).view().position == 0 ==> r is None && final(self).view().position == 0,
            old(self).view().position > 0 ==> {
                &&& final(self).view().position == old(self).view().position - 1
                &&& r matches Some(e) && snap_view(*e) == old(self).view().entries[final(self).view().position as int]
            },
    {
        if self.position == 0 {
            return None;
        }
        self.position -= 1;
        Some(&self.entries[self.position])
    }

    /// Step forward: the next snapshot, or `None` at the top.
    pub fn redo(&mut self) -> (r: Option<&Snapshot>)
        requires
            old(self).wf(),
        ensures
            final(self).wf(),
            final(self).view().entries == old(self).view().entries,
            final(self).view().live_saved == old(self).view().live_saved,
            old(self).view().position + 1 >= old(self).view().entries.len() ==> r is None && final(self).view()
                == old(self).view(),
            old(self).view().position + 1 < old(self).view().entries.len() ==> {
                &&& final(self).view().position == old(self).view().position + 1
                &&& r matches Some(e) && snap_view(*e) == old(self).view().entries[final(self).view().position as int]
            },
    {
        if self.entries.len() - self.position <= 1 {
            return None;
        }
        self.position += 1;
        Some(&self.entries[self.position])
    }
}

} // verus!
