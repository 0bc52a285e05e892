//! What one key does to a vim line editor: its state as plain values and
//! the transition for each mode.

use vstd::prelude::*;

use crate::input::key::{KeyCode, KeyEvent, CONTROL, NO_MODIFIERS, SHIFT};
use crate::widget::vim_editor::buffer::{
    next_pos, prev_pos, skip_fwd, spec_a_word, spec_find_backward, spec_find_forward, spec_inner_word,
    spec_next_word_start, spec_prev_word_start, spec_til_backward, spec_til_forward, spec_word_end, ws,
};
use crate::widget::vim_editor::undo::{spec_push, spec_save_live, UndoView};

verus! {

/// Editing mode.
#[derive(Clone, Copy, Debug, PartialEq, Eq, Structural)]
pub enum VimMode {
    Normal,
    Insert,
    Visual,
}

/// Operator of operator-pending mode (`d`, `c`, `y`).
#[derive(Clone, Copy, Debug, PartialEq, Eq, Structural)]
pub enum Operator {
    Delete,
    Change,
    Yank,
}

/// Which character search an operator waits for.
#[derive(Clone, Copy, Debug, PartialEq, Eq, Structural)]
pub enum FindKind {
    FindForward,
    FindBackward,
    TilForward,
    TilBackward,
}

/// Whether a text object is "inner" or "a" (with surrounding space).
#[derive(Clone, Copy, Debug, PartialEq, Eq, Structural)]
pub enum TextObjectScope {
    Inner,
    A,
}

/// The unfinished part of a multi-key command.
#[derive(Clone, Copy, Debug, PartialEq, Eq, Structural)]
pub enum Pending {
    /// `f` waiting for its character.
    FindForward,
    /// `F` waiting for its character.
    FindBackward,
    /// `t` waiting for its character.
    TilForward,
    /// `T` waiting for its character.
    TilBackward,
    /// `r` waiting for the replacement character.
    Replace,
    /// An operator waiting for its motion.
    Operator(Operator),
    /// An operator waiting for the character of a find.
    OperatorFind(Operator, FindKind),
    /// An operator waiting for a text object after `i` or `a`.
    TextObject(Operator, TextObjectScope),
    /// Visual mode waiting for a text object after `i` or `a`.
    VisualTextObject(TextObjectScope),
}

/// What a key did, as plain values.
pub enum Effect {
    Consumed,
    Submit(Seq<char>),
    Exit,
    Ignored,
}

/// The editor's state as plain values.
pub struct EdView {
    pub text: Seq<char>,
    pub cursor: usize,
    pub anchor: Option<usize>,
    pub mode: VimMode,
    pub pending: Option<Pending>,
    pub undo: UndoView,
    pub insert_saved: bool,
    pub count: Option<u32>,
    pub op_count: Option<u32>,
    pub register: Option<Seq<char>>,
}

/// `x` capped at `u32::MAX`.
pub open spec fn sat32(x: int) -> u32 {
    if x > u32::MAX { u32::MAX } else { x as u32 }
}

/// A count after typing digit `d`: ten times the old count (0 when none)
/// plus `d`, saturating.
pub open spec fn push_digit(count: Option<u32>, d: int) -> u32 {
    let base: u32 = match count {
        Some(n) => n,
        None => 0,
    };
    sat32(sat32(base * 10) + d)
}

/// The count, 1 when none was typed.
pub open spec fn count_or_one(c: Option<u32>) -> u32 {
    match c {
        Some(n) => n,
        None => 1,
    }
}

/// The cursor kept on a character when there is one.
pub open spec fn clamp_cursor(text: Seq<char>, c: int) -> usize {
    if text.len() > 0 && c >= text.len() { (text.len() - 1) as usize } else { c as usize }
}

/// The state with an undo snapshot of its text and cursor saved.
pub open spec fn snap(e: EdView) -> EdView {
    EdView { undo: spec_push(e.undo, (e.text, e.cursor)), ..e }
}

/// The state with the snapshot of the current insert session saved, once.
pub open spec fn ensure_snap(e: EdView) -> EdView {
    if !e.insert_saved {
        EdView { insert_saved: true, ..snap(e) }
    } else {
        e
    }
}

/// Text and cursor after deleting the character before the cursor.
pub open spec fn spec_backspace(text: Seq<char>, c: usize) -> (Seq<char>, usize) {
    if c > 0 { (text.remove(c - 1), (c - 1) as usize) } else { (text, c) }
}

/// Text and cursor after deleting the character at the cursor.
pub open spec fn spec_delete_at(text: Seq<char>, c: usize) -> (Seq<char>, usize) {
    let t = if c < text.len() { text.remove(c as int) } else { text };
    (t, clamp_cursor(t, c as int))
}

/// `spec_backspace` applied `n` times.
pub open spec fn backspace_n(text: Seq<char>, c: usize, n: nat) -> (Seq<char>, usize)
    decreases n,
{
    if n == 0 {
        (text, c)
    } else {
        let (t, c2) = spec_backspace(text, c);
        backspace_n(t, c2, (n - 1) as nat)
    }
}

/// `spec_delete_at` applied `n` times.
pub open spec fn delete_n(text: Seq<char>, c: usize, n: nat) -> (Seq<char>, usize)
    decreases n,
{
    if n == 0 {
        (text, c)
    } else {
        let (t, c2) = spec_delete_at(text, c);
        delete_n(t, c2, (n - 1) as nat)
    }
}

/// Where one cursor motion key moves the cursor.
pub open spec fn spec_motion(text: Seq<char>, c: usize, code: KeyCode) -> usize {
    match code {
        KeyCode::Char('h') | KeyCode::Left => prev_pos(c as int) as usize,
        KeyCode::Char('l') | KeyCode::Right => if c + 1 < text.len() { (c + 1) as usize } else { c },
        KeyCode::Char('w') => clamp_cursor(text, spec_next_word_start(text, c as int)),
        KeyCode::Char('b') => spec_prev_word_start(text, c as int) as usize,
        KeyCode::Char('e') => spec_word_end(text, c as int) as usize,
        KeyCode::Char('0') => 0,
        KeyCode::Char('$') => if text.len() > 0 { (text.len() - 1) as usize } else { c },
        KeyCode::Char('^') => clamp_cursor(text, skip_fwd(text, 0, ws())),
        _ => c,
    }
}

/// A motion repeated `n` times.
pub open spec fn motion_n(text: Seq<char>, c: usize, code: KeyCode, n: nat) -> usize
    decreases n,
{
    if n == 0 { c } else { motion_n(text, spec_motion(text, c, code), code, (n - 1) as nat) }
}

/// Whether `code` is a cursor motion of normal mode.
pub open spec fn is_motion(code: KeyCode) -> bool {
    match code {
        KeyCode::Char('h') | KeyCode::Left | KeyCode::Char('l') | KeyCode::Right | KeyCode::Char('w')
        | KeyCode::Char('b') | KeyCode::Char('e') | KeyCode::Char('0') | KeyCode::Char('$')
        | KeyCode::Char('^') => true,
        _ => false,
    }
}

/// Undo `n` steps from the given text, cursor and history.
pub open spec fn undo_n(t: Seq<char>, c: usize, u: UndoView, n: nat) -> (Seq<char>, usize, UndoView)
    decreases n,
{
    if n == 0 || u.position == 0 {
        (t, c, u)
    } else {
        let p = (u.position - 1) as nat;
        undo_n(u.entries[p as int].0, u.entries[p as int].1, UndoView { position: p, ..u }, (n - 1) as nat)
    }
}

/// Redo `n` steps from the given text, cursor and history.
pub open spec fn redo_n(t: Seq<char>, c: usize, u: UndoView, n: nat) -> (Seq<char>, usize, UndoView)
    decreases n,
{
    if n == 0 || u.position + 1 >= u.entries.len() {
        (t, c, u)
    } else {
        let p = u.position + 1;
        redo_n(u.entries[p as int].0, u.entries[p as int].1, UndoView { position: p, ..u }, (n - 1) as nat)
    }
}

/// `u`: save the live state, undo the count of steps, clamp the cursor.
pub open spec fn spec_undo(e: EdView) -> (EdView, Effect) {
    let u1 = spec_save_live(e.undo, (e.text, e.cursor));
    let (t, c, u2) = undo_n(e.text, e.cursor, u1, count_or_one(e.count) as nat);
    (EdView { count: None, text: t, cursor: clamp_cursor(t, c as int), undo: u2, ..e }, Effect::Consumed)
}

/// Ctrl-r: redo the count of steps, clamp the cursor.
pub open spec fn spec_redo(e: EdView) -> (EdView, Effect) {
    let (t, c, u2) = redo_n(e.text, e.cursor, e.undo, count_or_one(e.count) as nat);
    (EdView { count: None, text: t, cursor: clamp_cursor(t, c as int), undo: u2, ..e }, Effect::Consumed)
}

/// Apply an operator to a range: nothing for none or an empty range;
/// otherwise the text of the range goes to the register, and delete and
/// change remove it after saving a snapshot; change enters insert mode.
pub open spec fn spec_apply(e: EdView, op: Operator, range: Option<(usize, usize)>) -> EdView {
    match range {
        None => e,
        Some((s, t)) => if s >= t {
            e
        } else {
            let e1 = EdView { register: Some(e.text.subrange(s as int, t as int)), ..e };
            match op {
                Operator::Yank => e1,
                Operator::Delete => {
                    let e2 = snap(e1);
                    let text = e2.text.subrange(0, s as int) + e2.text.subrange(t as int, e2.text.len() as int);
                    EdView { text, cursor: clamp_cursor(text, s as int), ..e2 }
                },
                Operator::Change => {
                    let e2 = snap(e1);
                    let text = e2.text.subrange(0, s as int) + e2.text.subrange(t as int, e2.text.len() as int);
                    EdView { text, cursor: s, mode: VimMode::Insert, insert_saved: true, ..e2 }
                },
            }
        },
    }
}

/// Enter insert mode after saving a snapshot (`i`, `a`, `I`, `A`).
pub open spec fn spec_insert_at(e: EdView, cursor: usize) -> EdView {
    let s = snap(EdView { count: None, ..e });
    EdView { insert_saved: true, mode: VimMode::Insert, cursor, ..s }
}

/// Normal-mode commands `i`, `a`, `I`, `A`, `x`, `X`.
pub open spec fn spec_command(e: EdView, ch: char) -> EdView {
    let n = count_or_one(e.count) as nat;
    if ch == 'i' {
        spec_insert_at(e, e.cursor)
    } else if ch == 'a' {
        spec_insert_at(e, next_pos(e.text, e.cursor as int) as usize)
    } else if ch == 'I' {
        spec_insert_at(e, skip_fwd(e.text, 0, ws()) as usize)
    } else if ch == 'A' {
        spec_insert_at(e, e.text.len() as usize)
    } else if e.text.len() == 0 {
        e
    } else if ch == 'x' {
        let end = if e.cursor + n <= e.text.len() { e.cursor + n } else { e.text.len() as int };
        let s = snap(EdView { count: None, register: Some(e.text.subrange(e.cursor as int, end)), ..e });
        let (t, c) = delete_n(s.text, s.cursor, n);
        EdView { text: t, cursor: c, ..s }
    } else {
        let s = snap(EdView { count: None, ..e });
        let (t, c) = backspace_n(s.text, s.cursor, n);
        EdView { text: t, cursor: c, ..s }
    }
}

/// The pending state a key of `f`, `F`, `t`, `T`, `r`, `d`, `c`, `y` starts;
/// operators take the typed count as their own.
pub open spec fn spec_enter_pending(e: EdView, ch: char) -> EdView {
    if ch == 'f' {
        EdView { pending: Some(Pending::FindForward), ..e }
    } else if ch == 'F' {
        EdView { pending: Some(Pending::FindBackward), ..e }
    } else if ch == 't' {
        EdView { pending: Some(Pending::TilForward), ..e }
    } else if ch == 'T' {
        EdView { pending: Some(Pending::TilBackward), ..e }
    } else if ch == 'r' {
        if e.text.len() > 0 { EdView { pending: Some(Pending::Replace), ..e } } else { e }
    } else {
        let op = if ch == 'd' { Operator::Delete } else if ch == 'c' { Operator::Change } else { Operator::Yank };
        EdView { op_count: e.count, count: None, pending: Some(Pending::Operator(op)), ..e }
    }
}

/// Paste the register before the cursor, or after the character under it,
/// leaving the cursor on the last pasted character.
pub open spec fn spec_paste(e: EdView, before: bool) -> EdView {
    match e.register {
        None => e,
        Some(reg) => {
            let s = snap(e);
            let pos: int = if before { e.cursor as int } else if e.text.len() == 0 { 0 } else { next_pos(
                e.text,
                e.cursor as int,
            ) };
            let text = e.text.subrange(0, pos) + reg + e.text.subrange(pos, e.text.len() as int);
            let end = pos + reg.len();
            EdView { text, cursor: (if prev_pos(end) >= pos { prev_pos(end) } else { pos }) as usize, ..s }
        },
    }
}

/// Enter visual mode with the anchor at the cursor.
pub open spec fn spec_enter_visual(e: EdView) -> EdView {
    EdView { mode: VimMode::Visual, anchor: Some(e.cursor), ..e }
}

/// Leave visual mode.
pub open spec fn spec_exit_visual(e: EdView) -> EdView {
    EdView { mode: VimMode::Normal, anchor: None, pending: None, ..e }
}

/// Keys that start a pending command in normal mode.
pub open spec fn is_pending_key(code: KeyCode) -> bool {
    match code {
        KeyCode::Char(c) => c == 'f' || c == 't' || c == 'F' || c == 'T' || c == 'r' || c == 'd' || c == 'c' || c
            == 'y',
        _ => false,
    }
}

/// Keys of the normal-mode commands `i`, `a`, `I`, `A`, `x`, `X`.
pub open spec fn is_command_key(code: KeyCode) -> bool {
    match code {
        KeyCode::Char(c) => c == 'i' || c == 'a' || c == 'I' || c == 'A' || c == 'x' || c == 'X',
        _ => false,
    }
}

/// A normal-mode key after counts.
pub open spec fn spec_dispatch(e: EdView, k: KeyEvent) -> (EdView, Effect) {
    let none_or_shift = k.modifiers == NO_MODIFIERS || k.modifiers == SHIFT;
    let code = k.code;
    if code == KeyCode::Esc {
        (EdView { count: None, ..e }, Effect::Exit)
    } else if code == KeyCode::Char('u') && k.modifiers == NO_MODIFIERS {
        spec_undo(e)
    } else if code == KeyCode::Char('r') && k.modifiers == CONTROL {
        spec_redo(e)
    } else if is_motion(code) {
        (
            EdView { count: None, cursor: motion_n(e.text, e.cursor, code, count_or_one(e.count) as nat), ..e },
            Effect::Consumed,
        )
    } else if is_pending_key(code) && none_or_shift {
        (spec_enter_pending(e, code->0), Effect::Consumed)
    } else if (code == KeyCode::Char('p') || code == KeyCode::Char('P')) && none_or_shift {
        (spec_paste(EdView { count: None, ..e }, code == KeyCode::Char('P')), Effect::Consumed)
    } else if code == KeyCode::Char('v') && k.modifiers == NO_MODIFIERS {
        (spec_enter_visual(EdView { count: None, ..e }), Effect::Consumed)
    } else if is_command_key(code) {
        (spec_command(e, code->0), Effect::Consumed)
    } else {
        (EdView { count: None, ..e }, Effect::Ignored)
    }
}

/// One search of a pending find.
pub open spec fn find_one(text: Seq<char>, c: usize, kind: FindKind, t: char) -> Option<int> {
    match kind {
        FindKind::FindForward => spec_find_forward(text, c as int, t),
        FindKind::FindBackward => spec_find_backward(text, c as int, t),
        FindKind::TilForward => spec_til_forward(text, c as int, t),
        FindKind::TilBackward => spec_til_backward(text, c as int, t),
    }
}

/// The cursor after up to `n` searches, stopping at the first that fails.
pub open spec fn find_n(text: Seq<char>, c: usize, kind: FindKind, t: char, n: nat) -> usize
    decreases n,
{
    if n == 0 {
        c
    } else {
        match find_one(text, c, kind, t) {
            Some(q) => find_n(text, q as usize, kind, t, (n - 1) as nat),
            None => c,
        }
    }
}

/// The position after exactly `n` searches, or none when one fails.
pub open spec fn find_all(text: Seq<char>, c: usize, kind: FindKind, t: char, n: nat) -> Option<usize>
    decreases n,
{
    if n == 0 {
        Some(c)
    } else {
        match find_one(text, c, kind, t) {
            Some(q) => find_all(text, q as usize, kind, t, (n - 1) as nat),
            None => None,
        }
    }
}

/// The search a bare find key starts.
pub open spec fn find_kind_of(p: Pending) -> FindKind {
    match p {
        Pending::FindForward => FindKind::FindForward,
        Pending::FindBackward => FindKind::FindBackward,
        Pending::TilForward => FindKind::TilForward,
        _ => FindKind::TilBackward,
    }
}

/// The text with `n` characters from `start` replaced by `ch`.
pub open spec fn replaced(text: Seq<char>, start: int, n: int, ch: char) -> Seq<char> {
    Seq::new(text.len(), |i: int| if start <= i < start + n { ch } else { text[i] })
}

/// The range a simple motion covers from the cursor, if it moves.
pub open spec fn simple_motion(text: Seq<char>, cur: usize, ch: char) -> Option<(usize, usize)> {
    if ch == 'w' {
        Some((cur, spec_next_word_start(text, cur as int) as usize))
    } else if ch == 'b' {
        Some((spec_prev_word_start(text, cur as int) as usize, cur))
    } else if ch == 'e' {
        Some((cur, next_pos(text, spec_word_end(text, cur as int)) as usize))
    } else if ch == '$' {
        Some((cur, text.len() as usize))
    } else if ch == '0' {
        Some((0, cur))
    } else if ch == '^' {
        let f = skip_fwd(text, 0, ws()) as usize;
        if f < cur { Some((f, cur)) } else { Some((cur, f)) }
    } else if ch == 'h' {
        if cur > 0 { Some(((cur - 1) as usize, cur)) } else { None }
    } else if ch == 'l' {
        if cur < text.len() { Some((cur, (cur + 1) as usize)) } else { None }
    } else {
        None
    }
}

/// Whether a motion of an operator extends left of the cursor.
pub open spec fn backward_motion(ch: char) -> bool {
    ch == 'b' || ch == 'h' || ch == '0' || ch == '^'
}

/// A simple motion simulated `n` times: whether any step moved, and the
/// final cursor.
pub open spec fn counted_loop(text: Seq<char>, c: usize, ch: char, n: nat, found: bool) -> (bool, usize)
    decreases n,
{
    if n == 0 {
        (found, c)
    } else {
        match simple_motion(text, c, ch) {
            Some((s, t)) => counted_loop(text, if backward_motion(ch) { s } else { t }, ch, (n - 1) as nat, true),
            None => counted_loop(text, c, ch, (n - 1) as nat, found),
        }
    }
}

/// The range an operator with a simple motion covers: the operator's count
/// times the motion's count repetitions, from the cursor to where they end.
pub open spec fn counted_range(e: EdView, ch: char) -> Option<(usize, usize)> {
    let n = sat32(count_or_one(e.op_count) * count_or_one(e.count)) as nat;
    let (found, fin) = counted_loop(e.text, e.cursor, ch, n, false);
    if !found {
        None
    } else if backward_motion(ch) {
        Some((fin, e.cursor))
    } else {
        Some((e.cursor, fin))
    }
}

/// The key after an operator, once counts are done.
pub open spec fn spec_operator_motion(e: EdView, op: Operator, k: KeyEvent) -> EdView {
    let cleared = EdView { count: None, op_count: None, ..e };
    match k.code {
        KeyCode::Char(ch) => if ch == 'w' || ch == 'b' || ch == 'e' || ch == '$' || ch == '0' || ch == '^' || ch
            == 'h' || ch == 'l' {
            spec_apply(cleared, op, counted_range(e, ch))
        } else if (ch == 'd' && op == Operator::Delete) || (ch == 'c' && op == Operator::Change) || (ch == 'y' && op
            == Operator::Yank) {
            spec_apply(cleared, op, Some((0usize, e.text.len() as usize)))
        } else if ch == 'i' {
            EdView { pending: Some(Pending::TextObject(op, TextObjectScope::Inner)), ..e }
        } else if ch == 'a' {
            EdView { pending: Some(Pending::TextObject(op, TextObjectScope::A)), ..e }
        } else if ch == 'f' {
            EdView { pending: Some(Pending::OperatorFind(op, FindKind::FindForward)), ..e }
        } else if ch == 'F' {
            EdView { pending: Some(Pending::OperatorFind(op, FindKind::FindBackward)), ..e }
        } else if ch == 't' {
            EdView { pending: Some(Pending::OperatorFind(op, FindKind::TilForward)), ..e }
        } else if ch == 'T' {
            EdView { pending: Some(Pending::OperatorFind(op, FindKind::TilBackward)), ..e }
        } else {
            cleared
        },
        _ => cleared,
    }
}

/// The range an operator with a find covers, from the cursor to the `n`-th
/// match (inclusive for `f`, exclusive for `t`, from it for `F` and `T`).
pub open spec fn find_range(text: Seq<char>, cur: usize, kind: FindKind, endpoint: usize) -> (usize, usize) {
    match kind {
        FindKind::FindForward => (cur, next_pos(text, endpoint as int) as usize),
        FindKind::TilForward => (cur, endpoint),
        _ => (endpoint, cur),
    }
}

/// The key after an operator's pending find.
pub open spec fn spec_operator_find(e: EdView, op: Operator, kind: FindKind, k: KeyEvent) -> EdView {
    let cleared = EdView { count: None, op_count: None, ..e };
    match k.code {
        KeyCode::Char(t) => {
            let n = sat32(count_or_one(e.op_count) * count_or_one(e.count)) as nat;
            match find_all(e.text, e.cursor, kind, t, n) {
                None => cleared,
                Some(endpoint) => spec_apply(cleared, op, Some(find_range(e.text, e.cursor, kind, endpoint))),
            }
        },
        _ => cleared,
    }
}

/// The word range of a text object.
pub open spec fn object_range(text: Seq<char>, c: usize, scope: TextObjectScope) -> (int, int) {
    match scope {
        TextObjectScope::Inner => spec_inner_word(text, c as int),
        TextObjectScope::A => spec_a_word(text, c as int),
    }
}

/// The key after a pending state.
pub open spec fn spec_step_pending(e: EdView, p: Pending, k: KeyEvent) -> (EdView, Effect) {
    if k.code == KeyCode::Esc {
        (EdView { count: None, op_count: None, ..e }, Effect::Consumed)
    } else {
        let r = match p {
            Pending::FindForward | Pending::FindBackward | Pending::TilForward | Pending::TilBackward => match k.code {
                KeyCode::Char(t) => EdView {
                    count: None,
                    cursor: find_n(e.text, e.cursor, find_kind_of(p), t, count_or_one(e.count) as nat),
                    ..e
                },
                _ => EdView { count: None, ..e },
            },
            Pending::Replace => match k.code {
                KeyCode::Char(ch) => {
                    let n = count_or_one(e.count);
                    let e1 = EdView { count: None, ..e };
                    if n > e.text.len() - e.cursor {
                        e1
                    } else {
                        let s = snap(e1);
                        EdView {
                            text: replaced(e.text, e.cursor as int, n as int, ch),
                            cursor: if n > 0 { (e.cursor + n - 1) as usize } else { e.cursor },
                            ..s
                        }
                    }
                },
                _ => EdView { count: None, ..e },
            },
            Pending::Operator(op) => match k.code {
                KeyCode::Char(d) if '1' <= d <= '9' => EdView {
                    count: Some(push_digit(e.count, d as int - '0' as int)),
                    pending: Some(Pending::Operator(op)),
                    ..e
                },
                KeyCode::Char('0') if e.count is Some => EdView {
                    count: Some(sat32(e.count->0 * 10)),
                    pending: Some(Pending::Operator(op)),
                    ..e
                },
                _ => spec_operator_motion(e, op, k),
            },
            Pending::OperatorFind(op, kind) => spec_operator_find(e, op, kind, k),
            Pending::TextObject(op, scope) => {
                let cleared = EdView { count: None, op_count: None, ..e };
                if k.code == KeyCode::Char('w') {
                    let (s, t) = object_range(e.text, e.cursor, scope);
                    if s < t { spec_apply(cleared, op, Some((s as usize, t as usize))) } else { cleared }
                } else {
                    cleared
                }
            },
            Pending::VisualTextObject(scope) => if k.code == KeyCode::Char('w') {
                let (s, t) = object_range(e.text, e.cursor, scope);
                if s < t {
                    EdView {
                        anchor: Some(s as usize),
                        cursor: (if prev_pos(t) >= s { prev_pos(t) } else { s }) as usize,
                        ..e
                    }
                } else {
                    e
                }
            } else {
                e
            },
        };
        (r, Effect::Consumed)
    }
}

/// A key in insert mode.
pub open spec fn spec_step_insert(e: EdView, k: KeyEvent) -> (EdView, Effect) {
    match k.code {
        KeyCode::Esc => (
            EdView {
                mode: VimMode::Normal,
                insert_saved: false,
                cursor: if e.cursor > 0 && e.text.len() > 0 { (e.cursor - 1) as usize } else { e.cursor },
                ..e
            },
            Effect::Consumed,
        ),
        KeyCode::Enter => (
            EdView { text: Seq::empty(), cursor: 0, anchor: None, insert_saved: false, ..e },
            Effect::Submit(e.text),
        ),
        KeyCode::Backspace => {
            let s = ensure_snap(e);
            let (t, c) = spec_backspace(s.text, s.cursor);
            (EdView { text: t, cursor: c, ..s }, Effect::Consumed)
        },
        KeyCode::Delete => {
            let s = ensure_snap(e);
            let (t, c) = spec_delete_at(s.text, s.cursor);
            (EdView { text: t, cursor: c, ..s }, Effect::Consumed)
        },
        KeyCode::Left => (EdView { cursor: prev_pos(e.cursor as int) as usize, ..e }, Effect::Consumed),
        KeyCode::Right => (EdView { cursor: next_pos(e.text, e.cursor as int) as usize, ..e }, Effect::Consumed),
        KeyCode::Char(c) => {
            let s = ensure_snap(e);
            (EdView { text: s.text.insert(s.cursor as int, c), cursor: (s.cursor + 1) as usize, ..s }, Effect::Consumed)
        },
        _ => (e, Effect::Ignored),
    }
}

/// A key in normal mode.
pub open spec fn spec_step_normal(e: EdView, k: KeyEvent) -> (EdView, Effect) {
    match e.pending {
        Some(p) => spec_step_pending(EdView { pending: None, ..e }, p, k),
        None => match k.code {
            KeyCode::Char(d) if '1' <= d <= '9' => (
                EdView { count: Some(push_digit(e.count, d as int - '0' as int)), ..e },
                Effect::Consumed,
            ),
            KeyCode::Char('0') if e.count is Some => (
                EdView { count: Some(sat32(e.count->0 * 10)), ..e },
                Effect::Consumed,
            ),
            _ => spec_dispatch(e, k),
        },
    }
}

/// Apply an operator to the visual selection (inclusive of the character
/// under its far end), leaving visual mode.
pub open spec fn spec_visual_operator(e: EdView, op: Operator) -> EdView {
    let a = match e.anchor {
        Some(a) => a,
        None => e.cursor,
    };
    let start = if a <= e.cursor { a } else { e.cursor };
    let far = if a >= e.cursor { a } else { e.cursor };
    let end = if far < e.text.len() { (far + 1) as usize } else { e.text.len() as usize };
    let e1 = spec_exit_visual(e);
    if start < end { spec_apply(e1, op, Some((start, end))) } else { e1 }
}

/// A key in visual mode.
pub open spec fn spec_step_visual(e: EdView, k: KeyEvent) -> (EdView, Effect) {
    match e.pending {
        Some(p) => spec_step_pending(EdView { pending: None, ..e }, p, k),
        None => {
            let r = match k.code {
                KeyCode::Esc | KeyCode::Char('v') => spec_exit_visual(e),
                KeyCode::Char('h') | KeyCode::Left | KeyCode::Char('l') | KeyCode::Right | KeyCode::Char('w')
                | KeyCode::Char('b') | KeyCode::Char('e') | KeyCode::Char('0') | KeyCode::Char('$') => EdView {
                    cursor: spec_motion(e.text, e.cursor, k.code),
                    ..e
                },
                KeyCode::Char('d') | KeyCode::Char('x') => spec_visual_operator(e, Operator::Delete),
                KeyCode::Char('c') => spec_visual_operator(e, Operator::Change),
                KeyCode::Char('y') => spec_visual_operator(e, Operator::Yank),
                KeyCode::Char('i') => EdView { pending: Some(Pending::VisualTextObject(TextObjectScope::Inner)), ..e },
                KeyCode::Char('a') => EdView { pending: Some(Pending::VisualTextObject(TextObjectScope::A)), ..e },
                _ => e,
            };
            (r, Effect::Consumed)
        },
    }
}

/// What one key does to the editor.
pub open spec fn spec_step(e: EdView, k: KeyEvent) -> (EdView, Effect) {
    match e.mode {
        VimMode::Insert => spec_step_insert(e, k),
        VimMode::Normal => spec_step_normal(e, k),
        VimMode::Visual => spec_step_visual(e, k),
    }
}

} // verus!
