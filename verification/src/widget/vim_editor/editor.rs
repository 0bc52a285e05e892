//! A modal line editor with vim keybindings: a state machine from key
//! events to effects.

use vstd::prelude::*;

use crate::input::key::{KeyCode, KeyEvent, CONTROL, NO_MODIFIERS, SHIFT};
use crate::render::text::{bytes_before, string_from_chars, utf8_len};
use crate::widget::vim_editor::buffer::LineBuffer;
use crate::widget::vim_editor::spec::{
    backspace_n, backward_motion, count_or_one, counted_loop, counted_range, delete_n, ensure_snap, find_all,
    find_kind_of, find_n, is_command_key, is_motion, is_pending_key, motion_n, push_digit, redo_n, replaced,
    sat32, simple_motion, snap, spec_apply, spec_command, spec_dispatch, spec_enter_pending,
    spec_enter_visual, spec_exit_visual, spec_motion, spec_operator_motion, spec_paste, spec_redo, spec_step,
    spec_step_insert, spec_step_normal, spec_step_pending, spec_step_visual, spec_undo, spec_visual_operator,
    undo_n, EdView, Effect, FindKind, Operator, Pending, TextObjectScope, VimMode,
};
use crate::widget::vim_editor::undo::{snap_view, spec_push, spec_save_live, UndoStack, UndoView};

verus! {

/// What a key did.
#[derive(Clone, Debug, PartialEq, Eq)]
pub enum EditorEffect {
    /// The key was handled; the caller should redraw.
    Consumed,
    /// The line was submitted (Enter in insert mode).
    Submit(String),
    /// The user asked to leave the editor (Esc in normal mode).
    Exit,
    /// The key was not handled; the caller may use it.
    Ignored,
}

/// An effect as plain values.
pub open spec fn effect_view(e: EditorEffect) -> Effect {
    match e {
        EditorEffect::Consumed => Effect::Consumed,
        EditorEffect::Submit(s) => Effect::Submit(s@),
        EditorEffect::Exit => Effect::Exit,
        EditorEffect::Ignored => Effect::Ignored,
    }
}

/// The invariant of an editor state: cursor and anchor within the text, an
/// anchor exactly in visual mode, the cursor on a character outside insert
/// mode, counts at least 1, a nonempty register, and undo snapshots whose
/// cursors lie within their texts.
pub open spec fn ed_wf(e: EdView) -> bool {
    &&& e.cursor <= e.text.len()
    &&& (e.mode == VimMode::Visual) == (e.anchor is Some)
    &&& e.anchor matches Some(a) ==> a <= e.text.len()
    &&& e.mode != VimMode::Insert && e.text.len() > 0 ==> e.cursor < e.text.len()
    &&& e.pending matches Some(p) ==> e.mode != VimMode::Insert && (e.mode == VimMode::Visual) == (
    p is VisualTextObject)
    &&& e.pending == Some(Pending::Replace) ==> e.text.len() > 0
    &&& e.count matches Some(n) ==> n >= 1
    &&& e.op_count matches Some(n) ==> n >= 1
    &&& e.register matches Some(r) ==> r.len() > 0
    &&& undo_ok(e.undo)
}

/// A history whose position is within it and whose snapshots have their
/// cursors within their texts.
pub open spec fn undo_ok(u: UndoView) -> bool {
    &&& u.position <= u.entries.len()
    &&& forall|i: int| 0 <= i < u.entries.len() ==> #[trigger] u.entries[i].1 <= u.entries[i].0.len()
}

proof fn lemma_push_ok(u: UndoView, s: (Seq<char>, usize))
    requires
        undo_ok(u),
        s.1 <= s.0.len(),
    ensures
        undo_ok(spec_push(u, s)),
{
    let kept = u.entries.take(u.position as int).push(s);
    assert forall|i: int| 0 <= i < kept.len() implies #[trigger] kept[i].1 <= kept[i].0.len() by {
        if i < u.position {
            assert(kept[i] == u.entries[i]);
        }
    }
    if kept.len() > 100 {
        let sk = kept.skip(kept.len() - 100);
        assert forall|i: int| 0 <= i < sk.len() implies #[trigger] sk[i].1 <= sk[i].0.len() by {
            assert(sk[i] == kept[i + kept.len() - 100]);
        }
    }
}

proof fn lemma_save_live_ok(u: UndoView, s: (Seq<char>, usize))
    requires
        undo_ok(u),
        s.1 <= s.0.len(),
    ensures
        undo_ok(spec_save_live(u, s)),
{
    let p = u.entries.push(s);
    assert forall|i: int| 0 <= i < p.len() implies #[trigger] p[i].1 <= p[i].0.len() by {
        if i < u.entries.len() {
            assert(p[i] == u.entries[i]);
        }
    }
}

/// A modal line editor with vim keybindings.
pub struct VimEditor {
    buf: LineBuffer,
    mode: VimMode,
    pending: Option<Pending>,
    undo_stack: UndoStack,
    insert_snapshot_saved: bool,
    count: Option<u32>,
    operator_count: Option<u32>,
    register: Option<Vec<char>>,
}

impl Default for VimEditor {
    /// An empty editor in insert mode.
    fn default() -> (r: Self)
        ensures
            r.wf(),
            r.view().text == Seq::<char>::empty(),
            r.view().cursor == 0,
            r.view().mode == VimMode::Insert,
            r.view().pending is None,
            r.view().count is None,
            r.view().op_count is None,
            r.view().register is None,
            r.view().undo.entries.len() == 0,
    {
        VimEditor::new()
    }
}

/// A copy of the characters.
fn clone_chars(v: &Vec<char>) -> (r: Vec<char>)
    ensures
        r@ == v@,
{
    let r = v.clone();
    assert(r@ =~= v@);
    r
}

/// The characters of `v` in `[start, end)`.
fn slice_chars(v: &Vec<char>, start: usize, end: usize) -> (r: Vec<char>)
    requires
        start <= end <= v@.len(),
    ensures
        r@ == v@.subrange(start as int, end as int),
{
    let mut w = clone_chars(v);
    w.truncate(end);
    w.split_off(start)
}

/// `a * b` capped at `u32::MAX`.
fn sat_mul(a: u32, b: u32) -> (r: u32)
    ensures
        r == sat32(a * b),
{
    assert((a as u64) * (b as u64) <= 0xfffffffe00000001u64) by (nonlinear_arith)
        requires
            a <= 0xffffffffu32,
            b <= 0xffffffffu32,
    ;
    let p: u64 = (a as u64) * (b as u64);
    if p > u32::MAX as u64 {
        u32::MAX
    } else {
        p as u32
    }
}

/// The count after typing digit `d`.
fn next_count(count: Option<u32>, d: u32) -> (r: u32)
    requires
        d <= 9,
    ensures
        r == push_digit(count, d as int),
{
    let base = match count {
        Some(n) => n,
        None => 0,
    };
    sat_mul(base, 10).saturating_add(d)
}

/// UTF-8 byte offset of character index `i`, capped at `usize::MAX`.
pub open spec fn byte_pos(text: Seq<char>, i: int) -> usize {
    if bytes_before(text, i) <= usize::MAX { bytes_before(text, i) as usize } else { usize::MAX }
}

/// The state of a new editor: an empty line in insert mode with an empty
/// history and nothing pending, counted or yanked.
pub open spec fn spec_fresh() -> EdView {
    EdView {
        text: Seq::empty(),
        cursor: 0,
        anchor: None,
        mode: VimMode::Insert,
        pending: None,
        undo: UndoView { entries: Seq::empty(), position: 0, live_saved: false },
        insert_saved: false,
        count: None,
        op_count: None,
        register: None,
    }
}

/// The visual selection in bytes: the offsets of its first and last
/// characters.
pub open spec fn spec_selection(e: EdView) -> Option<(usize, usize)> {
    match e.anchor {
        Some(a) => if e.mode == VimMode::Visual {
            let lo = if a <= e.cursor { a } else { e.cursor };
            let hi = if a >= e.cursor { a } else { e.cursor };
            Some((byte_pos(e.text, lo as int), byte_pos(e.text, hi as int)))
        } else {
            None
        },
        None => None,
    }
}

/// The decimal digit `d`.
pub open spec fn digit_char(d: int) -> char {
    if d == 0 {
        '0'
    } else if d == 1 {
        '1'
    } else if d == 2 {
        '2'
    } else if d == 3 {
        '3'
    } else if d == 4 {
        '4'
    } else if d == 5 {
        '5'
    } else if d == 6 {
        '6'
    } else if d == 7 {
        '7'
    } else if d == 8 {
        '8'
    } else {
        '9'
    }
}

/// Decimal digits of `n`.
pub open spec fn decimal(n: nat) -> Seq<char>
    decreases n,
{
    if n < 10 {
        seq![digit_char(n as int)]
    } else {
        decimal(n / 10).push(digit_char((n % 10) as int))
    }
}

/// The keys a pending state stands for.
pub open spec fn pending_label(p: Pending) -> Seq<char> {
    match p {
        Pending::FindForward => seq!['f'],
        Pending::FindBackward => seq!['F'],
        Pending::TilForward => seq!['t'],
        Pending::TilBackward => seq!['T'],
        Pending::Replace => seq!['r'],
        Pending::Operator(Operator::Delete) => seq!['d'],
        Pending::Operator(Operator::Change) => seq!['c'],
        Pending::Operator(Operator::Yank) => seq!['y'],
        Pending::OperatorFind(Operator::Delete, FindKind::FindForward) => seq!['d', 'f'],
        Pending::OperatorFind(Operator::Delete, FindKind::FindBackward) => seq!['d', 'F'],
        Pending::OperatorFind(Operator::Delete, FindKind::TilForward) => seq!['d', 't'],
        Pending::OperatorFind(Operator::Delete, FindKind::TilBackward) => seq!['d', 'T'],
        Pending::OperatorFind(Operator::Change, FindKind::FindForward) => seq!['c', 'f'],
        Pending::OperatorFind(Operator::Change, FindKind::FindBackward) => seq!['c', 'F'],
        Pending::OperatorFind(Operator::Change, FindKind::TilForward) => seq!['c', 't'],
        Pending::OperatorFind(Operator::Change, FindKind::TilBackward) => seq!['c', 'T'],
        Pending::OperatorFind(Operator::Yank, FindKind::FindForward) => seq!['y', 'f'],
        Pending::OperatorFind(Operator::Yank, FindKind::FindBackward) => seq!['y', 'F'],
        Pending::OperatorFind(Operator::Yank, FindKind::TilForward) => seq!['y', 't'],
        Pending::OperatorFind(Operator::Yank, FindKind::TilBackward) => seq!['y', 'T'],
        Pending::TextObject(Operator::Delete, TextObjectScope::Inner) => seq!['d', 'i'],
        Pending::TextObject(Operator::Delete, TextObjectScope::A) => seq!['d', 'a'],
        Pending::TextObject(Operator::Change, TextObjectScope::Inner) => seq!['c', 'i'],
        Pending::TextObject(Operator::Change, TextObjectScope::A) => seq!['c', 'a'],
        Pending::TextObject(Operator::Yank, TextObjectScope::Inner) => seq!['y', 'i'],
        Pending::TextObject(Operator::Yank, TextObjectScope::A) => seq!['y', 'a'],
        Pending::VisualTextObject(TextObjectScope::Inner) => seq!['i'],
        Pending::VisualTextObject(TextObjectScope::A) => seq!['a'],
    }
}

/// The count, pending keys, and motion count typed so far, if any.
pub open spec fn spec_pending_display(e: EdView) -> Option<Seq<char>> {
    let parts = (match e.op_count {
        Some(n) => decimal(n as nat),
        None => Seq::empty(),
    }) + (match e.pending {
        Some(p) => pending_label(p),
        None => Seq::empty(),
    }) + (match e.count {
        Some(n) => decimal(n as nat),
        None => Seq::empty(),
    });
    if parts.len() == 0 { None } else { Some(parts) }
}

/// The decimal digit `d`.
fn digit(d: u32) -> (c: char)
    requires
        d < 10,
    ensures
        c == digit_char(d as int),
{
    if d == 0 {
        '0'
    } else if d == 1 {
        '1'
    } else if d == 2 {
        '2'
    } else if d == 3 {
        '3'
    } else if d == 4 {
        '4'
    } else if d == 5 {
        '5'
    } else if d == 6 {
        '6'
    } else if d == 7 {
        '7'
    } else if d == 8 {
        '8'
    } else {
        '9'
    }
}

/// Append the decimal digits of `n`.
fn push_decimal(out: &mut Vec<char>, n: u32)
    ensures
        final(out)@ == old(out)@ + decimal(n as nat),
    decreases n,
{
    if n >= 10 {
        push_decimal(out, n / 10);
    }
    out.push(digit(n % 10));
    assert(final(out)@ =~= old(out)@ + decimal(n as nat));
}

/// Append the decimal digits of `n`.
pub(crate) fn push_decimal_usize(out: &mut Vec<char>, n: usize)
    ensures
        final(out)@ == old(out)@ + decimal(n as nat),
    decreases n,
{
    if n >= 10 {
        push_decimal_usize(out, n / 10);
    }
    out.push(digit((n % 10) as u32));
    assert(final(out)@ =~= old(out)@ + decimal(n as nat));
}

/// Append the decimal digits of `n`.
pub(crate) fn push_decimal_u64(out: &mut Vec<char>, n: u64)
    ensures
        final(out)@ == old(out)@ + decimal(n as nat),
    decreases n,
{
    if n >= 10 {
        push_decimal_u64(out, n / 10);
    }
    out.push(digit((n % 10) as u32));
    assert(final(out)@ =~= old(out)@ + decimal(n as nat));
}

/// The keys a pending state stands for.
fn pending_keys(p: Pending) -> (r: Vec<char>)
    ensures
        r@ == pending_label(p),
{
    let r = match p {
        Pending::FindForward => vec!['f'],
        Pending::FindBackward => vec!['F'],
        Pending::TilForward => vec!['t'],
        Pending::TilBackward => vec!['T'],
        Pending::Replace => vec!['r'],
        Pending::Operator(Operator::Delete) => vec!['d'],
        Pending::Operator(Operator::Change) => vec!['c'],
        Pending::Operator(Operator::Yank) => vec!['y'],
        Pending::OperatorFind(Operator::Delete, FindKind::FindForward) => vec!['d', 'f'],
        Pending::OperatorFind(Operator::Delete, FindKind::FindBackward) => vec!['d', 'F'],
        Pending::OperatorFind(Operator::Delete, FindKind::TilForward) => vec!['d', 't'],
        Pending::OperatorFind(Operator::Delete, FindKind::TilBackward) => vec!['d', 'T'],
        Pending::OperatorFind(Operator::Change, FindKind::FindForward) => vec!['c', 'f'],
        Pending::OperatorFind(Operator::Change, FindKind::FindBackward) => vec!['c', 'F'],
        Pending::OperatorFind(Operator::Change, FindKind::TilForward) => vec!['c', 't'],
        Pending::OperatorFind(Operator::Change, FindKind::TilBackward) => vec!['c', 'T'],
        Pending::OperatorFind(Operator::Yank, FindKind::FindForward) => vec!['y', 'f'],
        Pending::OperatorFind(Operator::Yank, FindKind::FindBackward) => vec!['y', 'F'],
        Pending::OperatorFind(Operator::Yank, FindKind::TilForward) => vec!['y', 't'],
        Pending::OperatorFind(Operator::Yank, FindKind::TilBackward) => vec!['y', 'T'],
        Pending::TextObject(Operator::Delete, TextObjectScope::Inner) => vec!['d', 'i'],
        Pending::TextObject(Operator::Delete, TextObjectScope::A) => vec!['d', 'a'],
        Pending::TextObject(Operator::Change, TextObjectScope::Inner) => vec!['c', 'i'],
        Pending::TextObject(Operator::Change, TextObjectScope::A) => vec!['c', 'a'],
        Pending::TextObject(Operator::Yank, TextObjectScope::Inner) => vec!['y', 'i'],
        Pending::TextObject(Operator::Yank, TextObjectScope::A) => vec!['y', 'a'],
        Pending::VisualTextObject(TextObjectScope::Inner) => vec!['i'],
        Pending::VisualTextObject(TextObjectScope::A) => vec!['a'],
    };
    proof {
        assert(r@ =~= pending_label(p));
    }
    r
}

/// Whether a pending state can follow this (pending-free) state.
pub open spec fn pending_ok(e: EdView, p: Pending) -> bool {
    &&& e.pending is None
    &&& e.mode != VimMode::Insert
    &&& (e.mode == VimMode::Visual) == (p is VisualTextObject)
    &&& p == Pending::Replace ==> e.text.len() > 0
}

impl EdView {
    /// The state with the given count.
    pub open spec fn with_count(self, count: Option<u32>) -> EdView {
        EdView { count, ..self }
    }
}

/// Whether `code` is a cursor motion of normal mode.
fn motion_key(code: KeyCode) -> (b: bool)
    ensures
        b == is_motion(code),
{
    match code {
        KeyCode::Char(c) => c == 'h' || c == 'l' || c == 'w' || c == 'b' || c == 'e' || c == '0' || c == '$' || c
            == '^',
        KeyCode::Left | KeyCode::Right => true,
        _ => false,
    }
}

/// Whether `code` starts a pending command in normal mode.
fn pending_key(code: KeyCode) -> (b: bool)
    ensures
        b == is_pending_key(code),
{
    match code {
        KeyCode::Char(c) => c == 'f' || c == 't' || c == 'F' || c == 'T' || c == 'r' || c == 'd' || c == 'c' || c
            == 'y',
        _ => false,
    }
}

/// Whether `code` is one of `i`, `a`, `I`, `A`, `x`, `X`.
fn command_key(code: KeyCode) -> (b: bool)
    ensures
        b == is_command_key(code),
{
    match code {
        KeyCode::Char(c) => c == 'i' || c == 'a' || c == 'I' || c == 'A' || c == 'x' || c == 'X',
        _ => false,
    }
}

impl VimEditor {
    /// The editor's state as plain values.
    pub closed spec fn view(&self) -> EdView {
        EdView {
            text: self.buf.chars@,
            cursor: self.buf.cursor,
            anchor: self.buf.anchor,
            mode: self.mode,
            pending: self.pending,
            undo: self.undo_stack.view(),
            insert_saved: self.insert_snapshot_saved,
            count: self.count,
            op_count: self.operator_count,
            register: match self.register {
                Some(r) => Some(r@),
                None => None,
            },
        }
    }

    /// The editor's invariant.
    pub closed spec fn wf(&self) -> bool {
        ed_wf(self.view()) && self.undo_stack.wf()
    }

    /// The invariant of a well-formed editor holds of its state.
    pub proof fn lemma_state_ok(&self)
        requires
            self.wf(),
        ensures
            ed_wf(self.view()),
    {
    }

    /// An empty editor in insert mode.
    pub fn new() -> (r: Self)
        ensures
            r.wf(),
            r.view() == spec_fresh(),
            r.view().text == Seq::<char>::empty(),
            r.view().cursor == 0,
            r.view().mode == VimMode::Insert,
            r.view().pending is None,
            r.view().count is None,
            r.view().op_count is None,
            r.view().register is None,
            r.view().undo.entries.len() == 0,
    {
        VimEditor {
            buf: LineBuffer::new(),
            mode: VimMode::Insert,
            pending: None,
            undo_stack: UndoStack::new(),
            insert_snapshot_saved: false,
            count: None,
            operator_count: None,
            register: None,
        }
    }

    /// The text.
    pub fn text(&self) -> (s: String)
        ensures
            s@ == self.view().text,
    {
        string_from_chars(self.buf.chars.as_slice())
    }

    /// UTF-8 byte offset of character index `i`, capped at `usize::MAX`.
    fn byte_offset(&self, i: usize) -> (r: usize)
        requires
            i <= self.buf.chars@.len(),
        ensures
            r == byte_pos(self.buf.chars@, i as int),
    {
        let mut total: usize = 0;
        let mut k: usize = 0;
        let mut capped = false;
        while k < i
            invariant
                k <= i <= self.buf.chars@.len(),
                !capped ==> total == bytes_before(self.buf.chars@, k as int),
                capped ==> total == usize::MAX && bytes_before(self.buf.chars@, k as int) > usize::MAX,
            decreases i - k,
        {
            let n = utf8_len(self.buf.chars[k]);
            if capped || total > usize::MAX - n {
                total = usize::MAX;
                capped = true;
            } else {
                total = total + n;
            }
            k += 1;
        }
        total
    }

    /// The cursor as a UTF-8 byte offset into the text.
    pub fn cursor(&self) -> (r: usize)
        requires
            self.wf(),
        ensures
            r == byte_pos(self.view().text, self.view().cursor as int),
    {
        self.byte_offset(self.buf.cursor)
    }

    /// The editing mode.
    pub fn mode(&self) -> (m: VimMode)
        ensures
            m == self.view().mode,
    {
        self.mode
    }

    /// The visual selection as UTF-8 byte offsets `(start, end)` of its
    /// first and last characters, in visual mode.
    pub fn selection(&self) -> (r: Option<(usize, usize)>)
        requires
            self.wf(),
        ensures
            r == spec_selection(self.view()),
    {
        if self.mode == VimMode::Visual {
            match self.buf.anchor {
                Some(anchor) => {
                    let cursor = self.buf.cursor;
                    let lo = if anchor <= cursor { anchor } else { cursor };
                    let hi = if anchor >= cursor { anchor } else { cursor };
                    Some((self.byte_offset(lo), self.byte_offset(hi)))
                },
                None => None,
            }
        } else {
            None
        }
    }

    /// Start a new editing session in insert mode, dropping any pending
    /// command, count and selection.
    pub fn enter(&mut self)
        requires
            old(self).wf(),
        ensures
            final(self).wf(),
            final(self).view() == (EdView {
                mode: VimMode::Insert,
                pending: None,
                count: None,
                op_count: None,
                anchor: None,
                ..old(self).view()
            }),
    {
        self.mode = VimMode::Insert;
        self.pending = None;
        self.count = None;
        self.operator_count = None;
        self.buf.anchor = None;
    }

    /// Take the text out, leaving an empty buffer in insert mode.
    pub fn take_text(&mut self) -> (s: String)
        requires
            old(self).wf(),
        ensures
            final(self).wf(),
            s@ == old(self).view().text,
            final(self).view() == (EdView {
                text: Seq::empty(),
                cursor: 0,
                anchor: None,
                pending: None,
                mode: VimMode::Insert,
                count: None,
                op_count: None,
                insert_saved: false,
                ..old(self).view()
            }),
    {
        self.pending = None;
        self.mode = VimMode::Insert;
        self.count = None;
        self.operator_count = None;
        self.insert_snapshot_saved = false;
        let taken = self.buf.take_text();
        string_from_chars(taken.as_slice())
    }

    /// Save an undo snapshot of the text and cursor.
    fn save_undo_snapshot(&mut self)
        requires
            old(self).buf.wf(),
            old(self).undo_stack.wf(),
            undo_ok(old(self).view().undo),
        ensures
            final(self).view() == snap(old(self).view()),
            final(self).undo_stack.wf(),
            undo_ok(final(self).view().undo),
            final(self).buf == old(self).buf,
    {
        let text = clone_chars(&self.buf.chars);
        proof {
            lemma_push_ok(self.undo_stack.view(), (text@, self.buf.cursor));
        }
        self.undo_stack.push(text, self.buf.cursor);
    }

    /// Consume the typed count, 1 when none.
    fn take_count(&mut self) -> (n: u32)
        ensures
            n == count_or_one(old(self).view().count),
            final(self).view() == (EdView { count: None, ..old(self).view() }),
            final(self).buf == old(self).buf,
            final(self).undo_stack == old(self).undo_stack,
    {
        match self.count.take() {
            Some(n) => n,
            None => 1,
        }
    }

    /// Save the snapshot of an insert session on its first change.
    fn ensure_insert_snapshot(&mut self)
        requires
            old(self).buf.wf(),
            old(self).undo_stack.wf(),
            undo_ok(old(self).view().undo),
        ensures
            final(self).view() == ensure_snap(old(self).view()),
            final(self).undo_stack.wf(),
            undo_ok(final(self).view().undo),
            final(self).buf == old(self).buf,
    {
        if !self.insert_snapshot_saved {
            self.save_undo_snapshot();
            self.insert_snapshot_saved = true;
        }
    }

    /// Process one key, returning its effect.
    pub fn step(&mut self, key: KeyEvent) -> (r: EditorEffect)
        requires
            old(self).wf(),
        ensures
            final(self).wf(),
            (final(self).view(), effect_view(r)) == spec_step(old(self).view(), key),
    {
        match self.mode {
            VimMode::Insert => self.step_insert(key),
            VimMode::Normal => self.step_normal(key),
            VimMode::Visual => self.step_visual(key),
        }
    }

    fn step_insert(&mut self, key: KeyEvent) -> (r: EditorEffect)
        requires
            old(self).wf(),
            old(self).view().mode == VimMode::Insert,
        ensures
            final(self).wf(),
            (final(self).view(), effect_view(r)) == spec_step_insert(old(self).view(), key),
    {
        match key.code {
            KeyCode::Esc => {
                self.mode = VimMode::Normal;
                self.insert_snapshot_saved = false;
                if self.buf.cursor() > 0 && !self.buf.is_empty() {
                    self.buf.move_left();
                }
                EditorEffect::Consumed
            },
            KeyCode::Enter => {
                let text = self.buf.take_text();
                self.insert_snapshot_saved = false;
                EditorEffect::Submit(string_from_chars(text.as_slice()))
            },
            KeyCode::Backspace => {
                self.ensure_insert_snapshot();
                self.buf.backspace();
                EditorEffect::Consumed
            },
            KeyCode::Delete => {
                self.ensure_insert_snapshot();
                self.buf.delete_at_cursor();
                EditorEffect::Consumed
            },
            KeyCode::Left => {
                self.buf.move_left();
                EditorEffect::Consumed
            },
            KeyCode::Right => {
                self.buf.move_right();
                EditorEffect::Consumed
            },
            KeyCode::Char(c) => {
                self.ensure_insert_snapshot();
                self.buf.insert_char(c);
                EditorEffect::Consumed
            },
            _ => EditorEffect::Ignored,
        }
    }

    fn step_normal(&mut self, key: KeyEvent) -> (r: EditorEffect)
        requires
            old(self).wf(),
            old(self).view().mode == VimMode::Normal,
        ensures
            final(self).wf(),
            (final(self).view(), effect_view(r)) == spec_step_normal(old(self).view(), key),
    {
        if let Some(pending) = self.pending.take() {
            return self.step_pending(pending, key);
        }
        if let KeyCode::Char(d) = key.code {
            let v = d as u32;
            if 49 <= v && v <= 57 {
                self.count = Some(next_count(self.count, v - 48));
                return EditorEffect::Consumed;
            }
            if v == 48 {
                if let Some(n) = self.count {
                    self.count = Some(sat_mul(n, 10));
                    return EditorEffect::Consumed;
                }
            }
        }
        self.step_normal_dispatch(key)
    }

    /// A normal-mode key after counts.
    fn step_normal_dispatch(&mut self, key: KeyEvent) -> (r: EditorEffect)
        requires
            old(self).wf(),
            old(self).view().mode == VimMode::Normal,
            old(self).view().pending is None,
        ensures
            final(self).wf(),
            (final(self).view(), effect_view(r)) == spec_dispatch(old(self).view(), key),
    {
        let code = key.code;
        let mods = key.modifiers;
        let none_or_shift = mods == NO_MODIFIERS || mods == SHIFT;
        if code == KeyCode::Esc {
            self.count = None;
            return EditorEffect::Exit;
        }
        if code == KeyCode::Char('u') && mods == NO_MODIFIERS {
            return self.step_undo();
        }
        if code == KeyCode::Char('r') && mods == CONTROL {
            return self.step_redo();
        }
        if motion_key(code) {
            let n = self.take_count();
            let ghost c0 = self.buf.cursor;
            let mut i: u32 = 0;
            while i < n
                invariant
                    self.wf(),
                    self.view().mode == VimMode::Normal,
                    self.view().pending is None,
                    self.view() == (EdView { cursor: self.buf.cursor, ..old(self).view().with_count(None) }),
                    i <= n,
                    code == key.code,
                    is_motion(code),
                    motion_n(self.buf.chars@, c0, code, n as nat) == motion_n(
                        self.buf.chars@,
                        self.buf.cursor,
                        code,
                        (n - i) as nat,
                    ),
                decreases n - i,
            {
                let ghost t = self.buf.chars@;
                let ghost c = self.buf.cursor;
                assert(motion_n(t, c, code, (n - i) as nat) == motion_n(t, spec_motion(t, c, code), code, (n - i - 1) as nat));
                self.step_normal_motion(key);
                i += 1;
            }
            return EditorEffect::Consumed;
        }
        if pending_key(code) && none_or_shift {
            return self.enter_pending(key);
        }
        if (code == KeyCode::Char('p') || code == KeyCode::Char('P')) && none_or_shift {
            self.count = None;
            return self.step_paste(code == KeyCode::Char('P'));
        }
        if code == KeyCode::Char('v') && mods == NO_MODIFIERS {
            self.count = None;
            return self.enter_visual_mode();
        }
        if command_key(code) {
            return self.step_normal_command(key);
        }
        self.count = None;
        EditorEffect::Ignored
    }

    /// Start the pending state of `f`, `F`, `t`, `T`, `r`, `d`, `c`, `y`.
    fn enter_pending(&mut self, key: KeyEvent) -> (r: EditorEffect)
        requires
            old(self).wf(),
            old(self).view().mode == VimMode::Normal,
            old(self).view().pending is None,
            is_pending_key(key.code),
        ensures
            final(self).wf(),
            final(self).view() == spec_enter_pending(old(self).view(), key.code->0),
            r == EditorEffect::Consumed,
    {
        if let KeyCode::Char(ch) = key.code {
            if ch == 'f' {
                self.pending = Some(Pending::FindForward);
            } else if ch == 'F' {
                self.pending = Some(Pending::FindBackward);
            } else if ch == 't' {
                self.pending = Some(Pending::TilForward);
            } else if ch == 'T' {
                self.pending = Some(Pending::TilBackward);
            } else if ch == 'r' {
                if !self.buf.is_empty() {
                    self.pending = Some(Pending::Replace);
                }
            } else {
                let op = if ch == 'd' {
                    Operator::Delete
                } else if ch == 'c' {
                    Operator::Change
                } else {
                    Operator::Yank
                };
                self.operator_count = self.count.take();
                self.pending = Some(Pending::Operator(op));
            }
        }
        EditorEffect::Consumed
    }

    /// Undo the count of steps (`u`), saving the live state first so redo
    /// can return to it.
    fn step_undo(&mut self) -> (r: EditorEffect)
        requires
            old(self).wf(),
            old(self).view().mode == VimMode::Normal,
            old(self).view().pending is None,
        ensures
            final(self).wf(),
            (final(self).view(), effect_view(r)) == spec_undo(old(self).view()),
    {
        let n = self.take_count();
        let text = clone_chars(&self.buf.chars);
        proof {
            lemma_save_live_ok(self.undo_stack.view(), (text@, self.buf.cursor));
        }
        self.undo_stack.save_live(text, self.buf.cursor);
        let ghost t0 = self.buf.chars@;
        let ghost c0 = self.buf.cursor;
        let ghost u1 = self.undo_stack.view();
        let mut i: u32 = 0;
        let mut done = false;
        while i < n && !done
            invariant
                self.undo_stack.wf(),
                undo_ok(self.undo_stack.view()),
                self.buf.cursor <= self.buf.chars@.len(),
                i <= n,
                self.view() == (EdView {
                    text: self.buf.chars@,
                    cursor: self.buf.cursor,
                    undo: self.undo_stack.view(),
                    ..old(self).view().with_count(None)
                }),
                !done ==> undo_n(t0, c0, u1, n as nat) == undo_n(
                    self.buf.chars@,
                    self.buf.cursor,
                    self.undo_stack.view(),
                    (n - i) as nat,
                ),
                done ==> undo_n(t0, c0, u1, n as nat) == (self.buf.chars@, self.buf.cursor, self.undo_stack.view()),
            decreases n - i + (if done { 0int } else { 1int }),
        {
            let ghost before = self.undo_stack.view();
            match self.undo_stack.undo() {
                Some(snapshot) => {
                    assert(before.entries[before.position - 1] == snap_view(*snapshot));
                    self.buf.chars = clone_chars(&snapshot.0);
                    self.buf.cursor = snapshot.1;
                    i += 1;
                },
                None => {
                    done = true;
                },
            }
        }
        self.buf.clamp_normal();
        EditorEffect::Consumed
    }

    /// Redo the count of steps (Ctrl-r).
    fn step_redo(&mut self) -> (r: EditorEffect)
        requires
            old(self).wf(),
            old(self).view().mode == VimMode::Normal,
            old(self).view().pending is None,
        ensures
            final(self).wf(),
            (final(self).view(), effect_view(r)) == spec_redo(old(self).view()),
    {
        let n = self.take_count();
        let ghost t0 = self.buf.chars@;
        let ghost c0 = self.buf.cursor;
        let ghost u1 = self.undo_stack.view();
        let mut i: u32 = 0;
        let mut done = false;
        while i < n && !done
            invariant
                self.undo_stack.wf(),
                undo_ok(self.undo_stack.view()),
                self.buf.cursor <= self.buf.chars@.len(),
                i <= n,
                self.view() == (EdView {
                    text: self.buf.chars@,
                    cursor: self.buf.cursor,
                    undo: self.undo_stack.view(),
                    ..old(self).view().with_count(None)
                }),
                !done ==> redo_n(t0, c0, u1, n as nat) == redo_n(
                    self.buf.chars@,
                    self.buf.cursor,
                    self.undo_stack.view(),
                    (n - i) as nat,
                ),
                done ==> redo_n(t0, c0, u1, n as nat) == (self.buf.chars@, self.buf.cursor, self.undo_stack.view()),
            decreases n - i + (if done { 0int } else { 1int }),
        {
            let ghost before = self.undo_stack.view();
            match self.undo_stack.redo() {
                Some(snapshot) => {
                    assert(before.entries[before.position + 1int] == snap_view(*snapshot));
                    self.buf.chars = clone_chars(&snapshot.0);
                    self.buf.cursor = snapshot.1;
                    i += 1;
                },
                None => {
                    done = true;
                },
            }
        }
        self.buf.clamp_normal();
        EditorEffect::Consumed
    }

    /// One cursor motion of normal or visual mode.
    fn step_normal_motion(&mut self, key: KeyEvent)
        requires
            old(self).wf(),
            old(self).view().mode != VimMode::Insert,
        ensures
            final(self).wf(),
            final(self).view() == (EdView {
                cursor: spec_motion(old(self).view().text, old(self).view().cursor, key.code),
                ..old(self).view()
            }),
    {
        match key.code {
            KeyCode::Char('h') | KeyCode::Left => {
                self.buf.move_left();
            },
            KeyCode::Char('l') | KeyCode::Right => {
                self.buf.move_right_normal();
            },
            KeyCode::Char('w') => {
                self.buf.cursor = self.buf.next_word_start();
                self.buf.clamp_normal();
            },
            KeyCode::Char('b') => {
                self.buf.cursor = self.buf.prev_word_start();
            },
            KeyCode::Char('e') => {
                self.buf.cursor = self.buf.word_end();
            },
            KeyCode::Char('0') => {
                self.buf.cursor = 0;
            },
            KeyCode::Char('$') => {
                if !self.buf.is_empty() {
                    self.buf.cursor = self.buf.last_char_offset();
                }
            },
            KeyCode::Char('^') => {
                self.buf.cursor = self.buf.first_non_whitespace();
                self.buf.clamp_normal();
            },
            _ => {},
        }
    }

    /// Enter insert mode; the snapshot of the session is already saved.
    fn enter_insert_mode(&mut self)
        ensures
            final(self).view() == (EdView { insert_saved: true, mode: VimMode::Insert, ..old(self).view() }),
            final(self).buf == old(self).buf,
            final(self).undo_stack == old(self).undo_stack,
    {
        self.insert_snapshot_saved = true;
        self.mode = VimMode::Insert;
    }

    /// `i`, `a`, `I`, `A`: enter insert mode; `x`, `X`: delete the count of
    /// characters at or before the cursor.
    fn step_normal_command(&mut self, key: KeyEvent) -> (r: EditorEffect)
        requires
            old(self).wf(),
            old(self).view().mode == VimMode::Normal,
            old(self).view().pending is None,
            is_command_key(key.code),
        ensures
            final(self).wf(),
            final(self).view() == spec_command(old(self).view(), key.code->0),
            r == EditorEffect::Consumed,
    {
        let ch = match key.code {
            KeyCode::Char(c) => c,
            _ => 'i',
        };
        if ch == 'i' || ch == 'a' || ch == 'I' || ch == 'A' {
            self.count = None;
            self.save_undo_snapshot();
            self.enter_insert_mode();
            if ch == 'a' {
                self.buf.move_right();
            } else if ch == 'I' {
                self.buf.cursor = self.buf.first_non_whitespace();
            } else if ch == 'A' {
                self.buf.cursor = self.buf.len();
            }
        } else if ch == 'x' {
            if !self.buf.is_empty() {
                let n = self.take_count();
                let start = self.buf.cursor();
                let mut end = start;
                let mut i: u32 = 0;
                while i < n
                    invariant
                        i <= n,
                        start == self.buf.cursor,
                        self.buf.cursor <= self.buf.chars@.len(),
                        end == (if start + i <= self.buf.chars@.len() { start + i } else { self.buf.chars@.len() as int }),
                    decreases n - i,
                {
                    if end < self.buf.len() {
                        end = self.buf.next_boundary(end);
                    }
                    i += 1;
                }
                self.register = Some(slice_chars(&self.buf.chars, start, end));
                self.save_undo_snapshot();
                let ghost t0 = self.buf.chars@;
                let ghost c0 = self.buf.cursor;
                let ghost s1 = self.view();
                let mut i: u32 = 0;
                while i < n
                    invariant
                        i <= n,
                        self.buf.wf(),
                        self.undo_stack.wf(),
                        self.view() == (EdView { text: self.buf.chars@, cursor: self.buf.cursor, ..s1 }),
                        self.buf.chars@.len() > 0 ==> self.buf.cursor < self.buf.chars@.len(),
                        delete_n(t0, c0, n as nat) == delete_n(self.buf.chars@, self.buf.cursor, (n - i) as nat),
                    decreases n - i,
                {
                    self.buf.delete_at_cursor();
                    i += 1;
                }
            }
        } else {
            if !self.buf.is_empty() {
                self.save_undo_snapshot();
                let n = self.take_count();
                let ghost t0 = self.buf.chars@;
                let ghost c0 = self.buf.cursor;
                let ghost s1 = self.view();
                let mut i: u32 = 0;
                while i < n
                    invariant
                        i <= n,
                        self.buf.wf(),
                        self.undo_stack.wf(),
                        self.view() == (EdView { text: self.buf.chars@, cursor: self.buf.cursor, ..s1 }),
                        self.buf.chars@.len() > 0 ==> self.buf.cursor < self.buf.chars@.len(),
                        backspace_n(t0, c0, n as nat) == backspace_n(self.buf.chars@, self.buf.cursor, (n - i) as nat),
                    decreases n - i,
                {
                    self.buf.backspace();
                    i += 1;
                }
            }
        }
        EditorEffect::Consumed
    }

    /// The key after a pending state.
    fn step_pending(&mut self, pending: Pending, key: KeyEvent) -> (r: EditorEffect)
        requires
            old(self).wf(),
            pending_ok(old(self).view(), pending),
        ensures
            final(self).wf(),
            (final(self).view(), effect_view(r)) == spec_step_pending(old(self).view(), pending, key),
    {
        if key.code == KeyCode::Esc {
            self.count = None;
            self.operator_count = None;
            return EditorEffect::Consumed;
        }
        match pending {
            Pending::FindForward | Pending::FindBackward | Pending::TilForward | Pending::TilBackward => self.step_pending_find(
                pending,
                key,
            ),
            Pending::Replace => self.step_pending_replace(key),
            Pending::Operator(op) => self.step_operator(op, key),
            Pending::OperatorFind(op, kind) => self.step_operator_find(op, kind, key),
            Pending::TextObject(op, scope) => self.step_text_object(op, scope, key),
            Pending::VisualTextObject(scope) => self.step_visual_text_object(scope, key),
        }
    }

    /// A bare find: move to the count-th match, stopping at the first miss.
    fn step_pending_find(&mut self, pending: Pending, key: KeyEvent) -> (r: EditorEffect)
        requires
            old(self).wf(),
            pending_ok(old(self).view(), pending),
            pending is FindForward || pending is FindBackward || pending is TilForward || pending is TilBackward,
            key.code != KeyCode::Esc,
        ensures
            final(self).wf(),
            (final(self).view(), effect_view(r)) == spec_step_pending(old(self).view(), pending, key),
    {
        let target = match key.code {
            KeyCode::Char(t) => t,
            _ => {
                self.count = None;
                return EditorEffect::Consumed;
            },
        };
        let n = self.take_count();
        let kind = match pending {
            Pending::FindForward => FindKind::FindForward,
            Pending::FindBackward => FindKind::FindBackward,
            Pending::TilForward => FindKind::TilForward,
            _ => FindKind::TilBackward,
        };
        let ghost c0 = self.buf.cursor;
        let mut i: u32 = 0;
        while i < n
            invariant
                self.wf(),
                self.view().mode == VimMode::Normal,
                self.view() == (EdView { cursor: self.buf.cursor, ..old(self).view().with_count(None) }),
                i <= n,
                kind == find_kind_of(pending),
                find_n(self.buf.chars@, c0, kind, target, n as nat) == find_n(
                    self.buf.chars@,
                    self.buf.cursor,
                    kind,
                    target,
                    (n - i) as nat,
                ),
            decreases n - i,
        {
            let found = match kind {
                FindKind::FindForward => self.buf.find_forward(target),
                FindKind::FindBackward => self.buf.find_backward(target),
                FindKind::TilForward => self.buf.til_forward(target),
                FindKind::TilBackward => self.buf.til_backward(target),
            };
            match found {
                Some(pos) => {
                    self.buf.cursor = pos;
                    i += 1;
                },
                None => {
                    i = n;
                },
            }
        }
        EditorEffect::Consumed
    }

    /// `r{char}`: replace the count of characters from the cursor, or
    /// nothing when fewer remain.
    fn step_pending_replace(&mut self, key: KeyEvent) -> (r: EditorEffect)
        requires
            old(self).wf(),
            pending_ok(old(self).view(), Pending::Replace),
            key.code != KeyCode::Esc,
        ensures
            final(self).wf(),
            (final(self).view(), effect_view(r)) == spec_step_pending(old(self).view(), Pending::Replace, key),
    {
        let c = match key.code {
            KeyCode::Char(c) => c,
            _ => {
                self.count = None;
                return EditorEffect::Consumed;
            },
        };
        let n = self.take_count();
        let chars_remaining = self.buf.len() - self.buf.cursor();
        if (n as usize) > chars_remaining {
            return EditorEffect::Consumed;
        }
        self.save_undo_snapshot();
        let ghost t0 = self.buf.chars@;
        let ghost c0 = self.buf.cursor;
        let ghost s1 = self.view();
        let mut i: u32 = 0;
        while i < n
            invariant
                i <= n,
                c0 + n <= t0.len(),
                self.undo_stack.wf(),
                self.view() == (EdView { text: self.buf.chars@, cursor: self.buf.cursor, ..s1 }),
                self.buf.chars@ == replaced(t0, c0 as int, i as int, c),
                self.buf.cursor == (if i < n { c0 + i } else if n > 0 { c0 + n - 1 } else { c0 as int }),
            decreases n - i,
        {
            let pos = self.buf.cursor;
            self.buf.replace_at_cursor(c);
            assert(self.buf.chars@ =~= replaced(t0, c0 as int, i + 1, c));
            if i + 1 < n {
                self.buf.cursor = self.buf.next_boundary(pos);
            }
            i += 1;
        }
        EditorEffect::Consumed
    }

    /// The key after an operator: more count digits, else its motion.
    fn step_operator(&mut self, op: Operator, key: KeyEvent) -> (r: EditorEffect)
        requires
            old(self).wf(),
            pending_ok(old(self).view(), Pending::Operator(op)),
            key.code != KeyCode::Esc,
        ensures
            final(self).wf(),
            (final(self).view(), effect_view(r)) == spec_step_pending(old(self).view(), Pending::Operator(op), key),
    {
        if let KeyCode::Char(d) = key.code {
            let v = d as u32;
            if 49 <= v && v <= 57 {
                self.count = Some(next_count(self.count, v - 48));
                self.pending = Some(Pending::Operator(op));
                return EditorEffect::Consumed;
            }
            if v == 48 {
                if let Some(n) = self.count {
                    self.count = Some(sat_mul(n, 10));
                    self.pending = Some(Pending::Operator(op));
                    return EditorEffect::Consumed;
                }
            }
        }
        self.step_operator_motion(op, key);
        EditorEffect::Consumed
    }

    /// The motion key of an operator.
    fn step_operator_motion(&mut self, op: Operator, key: KeyEvent)
        requires
            old(self).wf(),
            old(self).view().mode == VimMode::Normal,
            old(self).view().pending is None,
        ensures
            final(self).wf(),
            final(self).view() == spec_operator_motion(old(self).view(), op, key),
    {
        let ch = match key.code {
            KeyCode::Char(ch) => ch,
            _ => {
                self.count = None;
                self.operator_count = None;
                return;
            },
        };
        if ch == 'w' || ch == 'b' || ch == 'e' || ch == '$' || ch == '0' || ch == '^' || ch == 'h' || ch == 'l' {
            let range = self.resolve_counted_motion(op, ch);
            self.count = None;
            self.apply_operator(op, range);
        } else if (ch == 'd' && op == Operator::Delete) || (ch == 'c' && op == Operator::Change) || (ch == 'y' && op
            == Operator::Yank) {
            self.count = None;
            self.operator_count = None;
            let len = self.buf.len();
            self.apply_operator(op, Some((0, len)));
        } else if ch == 'i' {
            self.pending = Some(Pending::TextObject(op, TextObjectScope::Inner));
        } else if ch == 'a' {
            self.pending = Some(Pending::TextObject(op, TextObjectScope::A));
        } else if ch == 'f' {
            self.pending = Some(Pending::OperatorFind(op, FindKind::FindForward));
        } else if ch == 'F' {
            self.pending = Some(Pending::OperatorFind(op, FindKind::FindBackward));
        } else if ch == 't' {
            self.pending = Some(Pending::OperatorFind(op, FindKind::TilForward));
        } else if ch == 'T' {
            self.pending = Some(Pending::OperatorFind(op, FindKind::TilBackward));
        } else {
            self.count = None;
            self.operator_count = None;
        }
    }

    /// The range of a simple motion repeated by the operator's count times
    /// the motion's count, from the cursor; the operator's count is consumed.
    fn resolve_counted_motion(&mut self, op: Operator, ch: char) -> (r: Option<(usize, usize)>)
        requires
            old(self).wf(),
            old(self).view().mode == VimMode::Normal,
        ensures
            final(self).wf(),
            r == counted_range(old(self).view(), ch),
            final(self).view() == (EdView { op_count: None, ..old(self).view() }),
            r matches Some((s, e)) ==> s <= e <= old(self).view().text.len(),
    {
        let motion_count = match self.count {
            Some(n) => n,
            None => 1,
        };
        let op_count = match self.operator_count.take() {
            Some(n) => n,
            None => 1,
        };
        let n = sat_mul(op_count, motion_count);
        let saved = self.buf.cursor();
        let is_backward = ch == 'b' || ch == 'h' || ch == '0' || ch == '^';
        let mut found_any = false;
        let mut i: u32 = 0;
        let ghost v0 = self.view();
        while i < n
            invariant
                i <= n,
                self.buf.wf(),
                self.undo_stack.wf(),
                self.view() == (EdView { cursor: self.buf.cursor, ..v0 }),
                v0 == (EdView { op_count: None, ..old(self).view() }),
                self.buf.chars@ == old(self).buf.chars@,
                is_backward == backward_motion(ch),
                is_backward ==> self.buf.cursor <= saved,
                !is_backward ==> self.buf.cursor >= saved,
                saved <= self.buf.chars@.len(),
                counted_loop(self.buf.chars@, saved, ch, n as nat, false) == counted_loop(
                    self.buf.chars@,
                    self.buf.cursor,
                    ch,
                    (n - i) as nat,
                    found_any,
                ),
            decreases n - i,
        {
            if let Some((s, e)) = self.resolve_simple_motion(op, ch) {
                found_any = true;
                self.buf.cursor = if is_backward { s } else { e };
            }
            i += 1;
        }
        let final_cursor = self.buf.cursor;
        self.buf.cursor = saved;
        if !found_any {
            return None;
        }
        if is_backward {
            Some((final_cursor, saved))
        } else {
            Some((saved, final_cursor))
        }
    }

    /// The range a simple motion covers from the cursor, if it moves.
    fn resolve_simple_motion(&self, _op: Operator, ch: char) -> (r: Option<(usize, usize)>)
        requires
            self.buf.wf(),
        ensures
            r == simple_motion(self.buf.chars@, self.buf.cursor, ch),
            r matches Some((s, e)) ==> s <= self.buf.cursor <= e <= self.buf.chars@.len(),
    {
        let cur = self.buf.cursor();
        if ch == 'w' {
            Some((cur, self.buf.next_word_start()))
        } else if ch == 'b' {
            Some((self.buf.prev_word_start(), cur))
        } else if ch == 'e' {
            let end = self.buf.word_end();
            Some((cur, self.buf.next_boundary(end)))
        } else if ch == '$' {
            Some((cur, self.buf.len()))
        } else if ch == '0' {
            Some((0, cur))
        } else if ch == '^' {
            let fnw = self.buf.first_non_whitespace();
            if fnw < cur {
                Some((fnw, cur))
            } else {
                Some((cur, fnw))
            }
        } else if ch == 'h' {
            if cur > 0 {
                Some((self.buf.prev_boundary(cur), cur))
            } else {
                None
            }
        } else if ch == 'l' {
            if cur < self.buf.len() {
                Some((cur, self.buf.next_boundary(cur)))
            } else {
                None
            }
        } else {
            None
        }
    }

    /// The character argument of an operator's find: the range to the
    /// count-th match, or nothing when there are fewer matches.
    fn step_operator_find(&mut self, op: Operator, kind: FindKind, key: KeyEvent) -> (r: EditorEffect)
        requires
            old(self).wf(),
            pending_ok(old(self).view(), Pending::OperatorFind(op, kind)),
            key.code != KeyCode::Esc,
        ensures
            final(self).wf(),
            (final(self).view(), effect_view(r)) == spec_step_pending(
                old(self).view(),
                Pending::OperatorFind(op, kind),
                key,
            ),
    {
        let target = match key.code {
            KeyCode::Char(t) => t,
            _ => {
                self.count = None;
                self.operator_count = None;
                return EditorEffect::Consumed;
            },
        };
        let motion_count = self.take_count();
        let op_count = match self.operator_count.take() {
            Some(n) => n,
            None => 1,
        };
        let n = sat_mul(op_count, motion_count);
        let cur = self.buf.cursor();
        let forward = match kind {
            FindKind::FindForward | FindKind::TilForward => true,
            _ => false,
        };
        let mut i: u32 = 0;
        let mut failed = false;
        let ghost v0 = self.view();
        while i < n && !failed
            invariant
                i <= n,
                self.buf.wf(),
                self.undo_stack.wf(),
                self.view() == (EdView { cursor: self.buf.cursor, ..v0 }),
                ed_wf(v0),
                v0 == (EdView { count: None, op_count: None, ..old(self).view() }),
                self.buf.chars@ == old(self).buf.chars@,
                self.buf.anchor == old(self).buf.anchor,
                cur <= self.buf.chars@.len(),
                forward ==> self.buf.cursor >= cur,
                !forward ==> self.buf.cursor <= cur,
                forward == (kind is FindForward || kind is TilForward),
                !failed ==> find_all(self.buf.chars@, cur, kind, target, n as nat) == find_all(
                    self.buf.chars@,
                    self.buf.cursor,
                    kind,
                    target,
                    (n - i) as nat,
                ),
                failed ==> find_all(self.buf.chars@, cur, kind, target, n as nat) is None,
            decreases n - i + (if failed { 0int } else { 1int }),
        {
            let found = match kind {
                FindKind::FindForward => self.buf.find_forward(target),
                FindKind::TilForward => self.buf.til_forward(target),
                FindKind::FindBackward => self.buf.find_backward(target),
                FindKind::TilBackward => self.buf.til_backward(target),
            };
            match found {
                Some(pos) => {
                    self.buf.cursor = pos;
                    i += 1;
                },
                None => {
                    failed = true;
                },
            }
        }
        if failed {
            self.buf.cursor = cur;
            self.apply_operator(op, None);
            return EditorEffect::Consumed;
        }
        let endpoint = self.buf.cursor();
        self.buf.cursor = cur;
        let range = match kind {
            FindKind::FindForward => (cur, self.buf.next_boundary(endpoint)),
            FindKind::TilForward => (cur, endpoint),
            FindKind::FindBackward => (endpoint, cur),
            FindKind::TilBackward => (endpoint, cur),
        };
        self.apply_operator(op, Some(range));
        EditorEffect::Consumed
    }

    /// Apply an operator to a range; empty ranges do nothing.
    fn apply_operator(&mut self, op: Operator, range: Option<(usize, usize)>)
        requires
            old(self).wf(),
            old(self).view().mode == VimMode::Normal,
            old(self).view().pending is None,
            range matches Some((s, e)) ==> e <= old(self).view().text.len(),
        ensures
            final(self).wf(),
            final(self).view() == spec_apply(old(self).view(), op, range),
    {
        let (start, end) = match range {
            Some(r) => r,
            None => {
                return;
            },
        };
        if start >= end {
            return;
        }
        let yanked = slice_chars(&self.buf.chars, start, end);
        match op {
            Operator::Yank => {
                self.register = Some(yanked);
            },
            Operator::Delete => {
                self.register = Some(yanked);
                self.save_undo_snapshot();
                self.buf.delete_range(start, end);
                self.buf.clamp_normal();
            },
            Operator::Change => {
                self.register = Some(yanked);
                self.save_undo_snapshot();
                self.buf.delete_range(start, end);
                self.mode = VimMode::Insert;
                self.insert_snapshot_saved = true;
            },
        }
    }

    /// A text object after an operator (`iw`, `aw`).
    fn step_text_object(&mut self, op: Operator, scope: TextObjectScope, key: KeyEvent) -> (r: EditorEffect)
        requires
            old(self).wf(),
            pending_ok(old(self).view(), Pending::TextObject(op, scope)),
            key.code != KeyCode::Esc,
        ensures
            final(self).wf(),
            (final(self).view(), effect_view(r)) == spec_step_pending(
                old(self).view(),
                Pending::TextObject(op, scope),
                key,
            ),
    {
        self.count = None;
        self.operator_count = None;
        if key.code != KeyCode::Char('w') {
            return EditorEffect::Consumed;
        }
        let range = match scope {
            TextObjectScope::Inner => self.buf.inner_word(),
            TextObjectScope::A => self.buf.a_word(),
        };
        if range.0 < range.1 {
            self.apply_operator(op, Some(range));
        }
        EditorEffect::Consumed
    }

    /// A text object in visual mode: select it.
    fn step_visual_text_object(&mut self, scope: TextObjectScope, key: KeyEvent) -> (r: EditorEffect)
        requires
            old(self).wf(),
            pending_ok(old(self).view(), Pending::VisualTextObject(scope)),
            key.code != KeyCode::Esc,
        ensures
            final(self).wf(),
            (final(self).view(), effect_view(r)) == spec_step_pending(
                old(self).view(),
                Pending::VisualTextObject(scope),
                key,
            ),
    {
        if key.code != KeyCode::Char('w') {
            return EditorEffect::Consumed;
        }
        let (start, end) = match scope {
            TextObjectScope::Inner => self.buf.inner_word(),
            TextObjectScope::A => self.buf.a_word(),
        };
        if start < end {
            self.buf.anchor = Some(start);
            let before_end = self.buf.prev_boundary(end);
            self.buf.cursor = if before_end >= start { before_end } else { start };
        }
        EditorEffect::Consumed
    }

    /// Enter visual mode with the anchor at the cursor.
    fn enter_visual_mode(&mut self) -> (r: EditorEffect)
        requires
            old(self).wf(),
            old(self).view().mode == VimMode::Normal,
            old(self).view().pending is None,
        ensures
            final(self).wf(),
            final(self).view() == spec_enter_visual(old(self).view()),
            r == EditorEffect::Consumed,
    {
        self.mode = VimMode::Visual;
        let cursor = self.buf.cursor();
        self.buf.anchor = Some(cursor);
        EditorEffect::Consumed
    }

    /// Leave visual mode.
    fn exit_visual_mode(&mut self)
        requires
            old(self).wf(),
            old(self).view().mode == VimMode::Visual,
        ensures
            final(self).wf(),
            final(self).view() == spec_exit_visual(old(self).view()),
    {
        self.mode = VimMode::Normal;
        self.buf.anchor = None;
        self.pending = None;
    }

    fn step_visual(&mut self, key: KeyEvent) -> (r: EditorEffect)
        requires
            old(self).wf(),
            old(self).view().mode == VimMode::Visual,
        ensures
            final(self).wf(),
            (final(self).view(), effect_view(r)) == spec_step_visual(old(self).view(), key),
    {
        if let Some(pending) = self.pending.take() {
            return self.step_pending(pending, key);
        }
        match key.code {
            KeyCode::Esc | KeyCode::Char('v') => {
                self.exit_visual_mode();
            },
            KeyCode::Char('h') | KeyCode::Left | KeyCode::Char('l') | KeyCode::Right | KeyCode::Char('w')
            | KeyCode::Char('b') | KeyCode::Char('e') | KeyCode::Char('0') | KeyCode::Char('$') => {
                self.step_normal_motion(key);
            },
            KeyCode::Char('d') | KeyCode::Char('x') => {
                self.step_visual_operator(Operator::Delete);
            },
            KeyCode::Char('c') => {
                self.step_visual_operator(Operator::Change);
            },
            KeyCode::Char('y') => {
                self.step_visual_operator(Operator::Yank);
            },
            KeyCode::Char('i') => {
                self.pending = Some(Pending::VisualTextObject(TextObjectScope::Inner));
            },
            KeyCode::Char('a') => {
                self.pending = Some(Pending::VisualTextObject(TextObjectScope::A));
            },
            _ => {},
        }
        EditorEffect::Consumed
    }

    /// Apply an operator to the selection and leave visual mode.
    fn step_visual_operator(&mut self, op: Operator) -> (r: EditorEffect)
        requires
            old(self).wf(),
            old(self).view().mode == VimMode::Visual,
            old(self).view().pending is None,
        ensures
            final(self).wf(),
            final(self).view() == spec_visual_operator(old(self).view(), op),
            r == EditorEffect::Consumed,
    {
        let cursor = self.buf.cursor();
        let anchor = match self.buf.anchor {
            Some(a) => a,
            None => cursor,
        };
        let start = if anchor <= cursor { anchor } else { cursor };
        let far = if anchor >= cursor { anchor } else { cursor };
        let end = if far < self.buf.len() {
            self.buf.next_boundary(far)
        } else {
            self.buf.len()
        };
        self.exit_visual_mode();
        if start < end {
            self.apply_operator(op, Some((start, end)));
        }
        EditorEffect::Consumed
    }

    /// Paste the register before the cursor, or after the character under it.
    fn step_paste(&mut self, before: bool) -> (r: EditorEffect)
        requires
            old(self).wf(),
            old(self).view().mode == VimMode::Normal,
            old(self).view().pending is None,
        ensures
            final(self).wf(),
            final(self).view() == spec_paste(old(self).view(), before),
            r == EditorEffect::Consumed,
    {
        let reg = match &self.register {
            Some(r) => clone_chars(r),
            None => {
                return EditorEffect::Consumed;
            },
        };
        self.save_undo_snapshot();
        let pos = if before {
            self.buf.cursor()
        } else if self.buf.is_empty() {
            0
        } else {
            self.buf.next_boundary(self.buf.cursor())
        };
        let ghost t0 = self.buf.chars@;
        let mut tail = self.buf.chars.split_off(pos);
        let mut pasted = reg;
        let reg_len = pasted.len();
        self.buf.chars.append(&mut pasted);
        self.buf.chars.append(&mut tail);
        let total = self.buf.len();
        assert(self.buf.chars@ =~= t0.subrange(0, pos as int) + reg@ + t0.subrange(pos as int, t0.len() as int));
        let end = pos + reg_len;
        let before_end = self.buf.prev_boundary(end);
        self.buf.cursor = if before_end >= pos { before_end } else { pos };
        EditorEffect::Consumed
    }

    /// The count and pending keys typed so far, as `[operator count][keys][count]`
    /// (such as "3", "d", "3d", "2d3"), or none.
    pub fn pending_display(&self) -> (r: Option<String>)
        ensures
            match r {
                Some(s) => spec_pending_display(self.view()) == Some(s@),
                None => spec_pending_display(self.view()) is None,
            },
    {
        let mut parts: Vec<char> = Vec::new();
        if let Some(oc) = self.operator_count {
            push_decimal(&mut parts, oc);
        }
        if let Some(p) = self.pending {
            let keys = pending_keys(p);
            let mut k = keys;
            parts.append(&mut k);
        }
        if let Some(mc) = self.count {
            push_decimal(&mut parts, mc);
        }
        assert(parts@ =~= (match self.view().op_count {
            Some(n) => decimal(n as nat),
            None => Seq::empty(),
        }) + (match self.view().pending {
            Some(p) => pending_label(p),
            None => Seq::empty(),
        }) + (match self.view().count {
            Some(n) => decimal(n as nat),
            None => Seq::empty(),
        }));
        if parts.len() == 0 {
            None
        } else {
            Some(string_from_chars(parts.as_slice()))
        }
    }

    /// The characters of the text.
    pub fn chars(&self) -> (r: &Vec<char>)
        ensures
            r@ == self.view().text,
    {
        &self.buf.chars
    }

    /// The cursor as a character index.
    pub fn char_cursor(&self) -> (r: usize)
        requires
            self.wf(),
        ensures
            r == self.view().cursor,
            r <= self.view().text.len(),
    {
        self.buf.cursor
    }
}

} // verus!
