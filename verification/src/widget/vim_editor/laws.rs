//! Properties of the editor that span several keys.

use vstd::prelude::*;

use crate::input::key::{KeyCode, KeyEvent, CONTROL, NO_MODIFIERS};
use crate::render::text::{bytes_before, spec_utf8_len};
use vstd::utf8::{
    char_is_scalar, encode_scalar, encode_utf8, encode_utf8_first_scalar, encode_utf8_valid_utf8, is_char_boundary,
    pop_first_scalar,
};
use crate::widget::vim_editor::editor::{byte_pos, ed_wf, spec_selection, VimEditor};
use crate::widget::vim_editor::spec::{
    clamp_cursor, is_command_key, is_motion, is_pending_key, redo_n, spec_command, spec_redo, spec_step,
    spec_undo, undo_n, EdView, VimMode,
};
use crate::widget::vim_editor::undo::{spec_push, spec_save_live, UndoView};

verus! {

/// A key without modifiers.
pub open spec fn plain(code: KeyCode) -> KeyEvent {
    KeyEvent { code, modifiers: NO_MODIFIERS }
}

/// In normal mode, with no count or pending command on a nonempty line,
/// `x` followed by `u` gives back the text and cursor from before the `x`.
pub proof fn law_undo_restores_deleted_char(e: EdView)
    requires
        ed_wf(e),
        e.mode == VimMode::Normal,
        e.pending is None,
        e.count is None,
        e.text.len() > 0,
    ensures
        ({
            let e1 = spec_step(e, plain(KeyCode::Char('x'))).0;
            let e2 = spec_step(e1, plain(KeyCode::Char('u'))).0;
            e2.text == e.text && e2.cursor == e.cursor
        }),
{
    let e1 = lemma_x_step(e);
    let e2 = spec_step(e1, plain(KeyCode::Char('u'))).0;
    lemma_u_step(e1);
    let entries = e1.undo.entries;
    let u1 = spec_save_live(e1.undo, (e1.text, e1.cursor));
    assert(u1.entries == entries.push((e1.text, e1.cursor)));
    assert(u1.position == entries.len());
    assert(u1.entries[entries.len() - 1] == (e.text, e.cursor));
    reveal_with_fuel(undo_n, 2);
    assert(e2.text == e.text);
}

/// What `x` does from a normal-mode state without count or pending command
/// on a nonempty line: the result's history ends with the state before.
proof fn lemma_x_step(e: EdView) -> (e1: EdView)
    requires
        ed_wf(e),
        e.mode == VimMode::Normal,
        e.pending is None,
        e.count is None,
        e.text.len() > 0,
    ensures
        e1 == spec_step(e, plain(KeyCode::Char('x'))).0,
        e1 == spec_command(e, 'x'),
        e1.mode == VimMode::Normal,
        e1.pending is None,
        e1.count is None,
        e1.undo == spec_push(e.undo, (e.text, e.cursor)),
        e1.undo.entries.len() > 0,
        e1.undo.entries.last() == (e.text, e.cursor),
        e1.undo.position == e1.undo.entries.len(),
        !e1.undo.live_saved,
        clamp_cursor(e1.text, e1.cursor as int) == e1.cursor,
{
    reveal_with_fuel(crate::widget::vim_editor::spec::delete_n, 2);
    let k = plain(KeyCode::Char('x'));
    assert(!is_motion(k.code));
    assert(!is_pending_key(k.code));
    assert(is_command_key(k.code));
    let e1 = spec_command(e, 'x');
    let kept = e.undo.entries.take(e.undo.position as int).push((e.text, e.cursor));
    if kept.len() > 100 {
        assert(kept.skip(kept.len() - 100).last() == kept.last());
    }
    e1
}

/// `u` from a normal-mode state without count or pending command undoes.
proof fn lemma_u_step(e: EdView)
    requires
        e.mode == VimMode::Normal,
        e.pending is None,
        e.count is None,
    ensures
        spec_step(e, plain(KeyCode::Char('u'))).0 == spec_undo(e).0,
{
}

/// Undoing `x` and then redoing (Ctrl-r) gives back the text and cursor
/// right after the `x`.
pub proof fn law_redo_reapplies_deleted_char(e: EdView)
    requires
        ed_wf(e),
        e.mode == VimMode::Normal,
        e.pending is None,
        e.count is None,
        e.text.len() > 0,
    ensures
        ({
            let e1 = spec_step(e, plain(KeyCode::Char('x'))).0;
            let e2 = spec_step(e1, plain(KeyCode::Char('u'))).0;
            let e3 = spec_step(e2, KeyEvent { code: KeyCode::Char('r'), modifiers: CONTROL }).0;
            e3.text == e1.text && e3.cursor == e1.cursor
        }),
{
    let e1 = lemma_x_step(e);
    lemma_u_step(e1);
    let e2 = spec_step(e1, plain(KeyCode::Char('u'))).0;
    let entries = e1.undo.entries;
    let u1 = spec_save_live(e1.undo, (e1.text, e1.cursor));
    assert(u1.entries == entries.push((e1.text, e1.cursor)));
    reveal_with_fuel(undo_n, 2);
    assert(e2.undo.entries == entries.push((e1.text, e1.cursor)));
    assert(e2.undo.position == entries.len() - 1);
    assert(e2.mode == VimMode::Normal && e2.pending is None && e2.count is None);
    let k = KeyEvent { code: KeyCode::Char('r'), modifiers: CONTROL };
    assert(!is_motion(k.code));
    assert(spec_step(e2, k).0 == spec_redo(e2).0);
    reveal_with_fuel(redo_n, 2);
    assert(e2.undo.entries[entries.len() as int] == (e1.text, e1.cursor));
}

/// In insert mode, typing a character and then Backspace gives back the
/// text and cursor from before.
pub proof fn law_backspace_cancels_insert(e: EdView, c: char)
    requires
        ed_wf(e),
        e.mode == VimMode::Insert,
        e.text.len() < usize::MAX,
    ensures
        ({
            let e1 = spec_step(e, plain(KeyCode::Char(c))).0;
            let e2 = spec_step(e1, plain(KeyCode::Backspace)).0;
            e2.text == e.text && e2.cursor == e.cursor
        }),
{
    let e1 = spec_step(e, plain(KeyCode::Char(c))).0;
    assert(e1.text == e.text.insert(e.cursor as int, c));
    assert(e1.cursor == e.cursor + 1);
    assert(e1.mode == VimMode::Insert);
    assert(e1.insert_saved);
    assert(e1.text.remove(e.cursor as int) =~= e.text);
}

/// Byte offsets grow with the character index.
proof fn lemma_bytes_before_monotone(text: Seq<char>, i: int, j: int)
    requires
        0 <= i <= j,
    ensures
        bytes_before(text, i) <= bytes_before(text, j),
    decreases j - i,
{
    if i < j {
        lemma_bytes_before_monotone(text, i, j - 1);
    }
}

/// Capped byte offsets grow with the character index.
proof fn lemma_byte_pos_monotone(text: Seq<char>, i: int, j: int)
    requires
        0 <= i <= j,
    ensures
        byte_pos(text, i) <= byte_pos(text, j),
{
    lemma_bytes_before_monotone(text, i, j);
}

/// Every editor reached through its operations keeps its cursor within the
/// text, and on a character outside insert mode; it has a selection exactly
/// in visual mode, and a selection runs forward, ends within the text and
/// has the cursor at one of its ends.
pub proof fn law_cursor_and_selection_bounds(ed: &VimEditor)
    requires
        ed.wf(),
    ensures
        ed.view().cursor <= ed.view().text.len(),
        ed.view().mode != VimMode::Insert && ed.view().text.len() > 0 ==> ed.view().cursor < ed.view().text.len(),
        (spec_selection(ed.view()) is Some) <==> ed.view().mode == VimMode::Visual,
        spec_selection(ed.view()) matches Some((s, e)) ==> {
            &&& s <= e
            &&& e <= byte_pos(ed.view().text, ed.view().text.len() as int)
            &&& (byte_pos(ed.view().text, ed.view().cursor as int) == s || byte_pos(
                ed.view().text,
                ed.view().cursor as int,
            ) == e)
        },
{
    ed.lemma_state_ok();
    let v = ed.view();
    if let Some(a) = v.anchor {
        if v.mode == VimMode::Visual {
            let lo = if a <= v.cursor { a } else { v.cursor };
            let hi = if a >= v.cursor { a } else { v.cursor };
            lemma_byte_pos_monotone(v.text, lo as int, hi as int);
            lemma_byte_pos_monotone(v.text, hi as int, v.text.len() as int);
        }
    }
}

/// Whether `k` is `u` or Ctrl-r where they move through the history: in
/// normal mode with nothing pending.
pub open spec fn history_key(e: EdView, k: KeyEvent) -> bool {
    &&& e.mode == VimMode::Normal
    &&& e.pending is None
    &&& ((k.code == KeyCode::Char('u') && k.modifiers == NO_MODIFIERS) || (k.code == KeyCode::Char('r')
        && k.modifiers == CONTROL))
}

/// A key outside insert mode that changes the text first saves the text and
/// cursor from before it as the newest undo snapshot.
proof fn lemma_change_saves_snapshot(e: EdView, k: KeyEvent)
    requires
        e.mode != VimMode::Insert,
        !history_key(e, k),
        spec_step(e, k).0.text != e.text,
    ensures
        spec_step(e, k).0.undo == spec_push(e.undo, (e.text, e.cursor)),
        spec_step(e, k).0.mode == VimMode::Insert ==> spec_step(e, k).0.insert_saved,
{
}

/// `u` right after a snapshot was saved, in normal mode with nothing
/// pending or counted, gives back the snapshot's text and cursor.
proof fn lemma_undo_takes_snapshot(e1: EdView, u0: UndoView, t: Seq<char>, c: usize)
    requires
        e1.mode == VimMode::Normal,
        e1.pending is None,
        e1.count is None,
        e1.undo == spec_push(u0, (t, c)),
    ensures
        spec_step(e1, plain(KeyCode::Char('u'))).0.text == t,
        spec_step(e1, plain(KeyCode::Char('u'))).0.cursor == clamp_cursor(t, c as int),
        spec_step(e1, plain(KeyCode::Char('u'))).0.mode == VimMode::Normal,
{
    lemma_u_step(e1);
    let entries = e1.undo.entries;
    let kept = u0.entries.take(u0.position as int).push((t, c));
    if kept.len() > 100 {
        assert(kept.skip(kept.len() - 100).last() == kept.last());
    }
    assert(entries.last() == (t, c));
    let u1 = spec_save_live(e1.undo, (e1.text, e1.cursor));
    assert(u1.entries == entries.push((e1.text, e1.cursor)));
    assert(u1.entries[entries.len() - 1] == (t, c));
    reveal_with_fuel(undo_n, 2);
}

/// One `u` undoes the last command: when a key outside insert mode (other
/// than `u` and Ctrl-r themselves) changes the text and leaves the editor
/// in normal mode with nothing pending or counted, `u` gives back the text
/// and cursor from before that key. A command typed over several keys
/// (`dw`, `r` then a character, a visual selection then `d`) changes the
/// text only at its last key, so this is the text before the command.
pub proof fn law_undo_restores_last_command(e: EdView, k: KeyEvent)
    requires
        ed_wf(e),
        e.mode != VimMode::Insert,
        !history_key(e, k),
        spec_step(e, k).0.text != e.text,
        spec_step(e, k).0.mode == VimMode::Normal,
        spec_step(e, k).0.pending is None,
        spec_step(e, k).0.count is None,
    ensures
        ({
            let e1 = spec_step(e, k).0;
            let e2 = spec_step(e1, plain(KeyCode::Char('u'))).0;
            e2.text == e.text && e2.cursor == e.cursor && e2.mode == VimMode::Normal
        }),
{
    lemma_change_saves_snapshot(e, k);
    let e1 = spec_step(e, k).0;
    lemma_undo_takes_snapshot(e1, e.undo, e.text, e.cursor);
}

/// The editor state after the keys, one after another.
pub open spec fn spec_steps(e: EdView, keys: Seq<KeyEvent>) -> EdView
    decreases keys.len(),
{
    if keys.len() == 0 {
        e
    } else {
        spec_step(spec_steps(e, keys.drop_last()), keys.last()).0
    }
}

/// Stepping through two runs of keys is stepping through the first, then
/// the second.
pub proof fn lemma_steps_append(e: EdView, a: Seq<KeyEvent>, b: Seq<KeyEvent>)
    ensures
        spec_steps(e, a + b) == spec_steps(spec_steps(e, a), b),
    decreases b.len(),
{
    if b.len() > 0 {
        lemma_steps_append(e, a, b.drop_last());
        assert((a + b).drop_last() =~= a + b.drop_last());
    } else {
        assert(a + b =~= a);
    }
}

/// An insert-mode key that edits or moves within the line: neither Esc
/// nor Enter.
pub open spec fn in_session(k: KeyEvent) -> bool {
    k.code != KeyCode::Esc && k.code != KeyCode::Enter
}

/// Keys typed within an insert session keep its snapshot and leave the
/// editor in insert mode.
#[verifier::spinoff_prover]
#[verifier::rlimit(40)]
proof fn lemma_session_keeps_snapshot(e: EdView, keys: Seq<KeyEvent>)
    requires
        e.mode == VimMode::Insert,
        e.insert_saved,
        forall|i: int| 0 <= i < keys.len() ==> in_session(#[trigger] keys[i]),
    ensures
        spec_steps(e, keys).mode == VimMode::Insert,
        spec_steps(e, keys).insert_saved,
        spec_steps(e, keys).undo == e.undo,
        spec_steps(e, keys).pending == e.pending,
        spec_steps(e, keys).count == e.count,
    decreases keys.len(),
{
    if keys.len() > 0 {
        lemma_session_keeps_snapshot(e, keys.drop_last());
        assert(in_session(keys[keys.len() - 1]));
    }
}

/// Whether `c` opens an insert session: `i`, `a`, `I` or `A`.
pub open spec fn opens_session(c: char) -> bool {
    c == 'i' || c == 'a' || c == 'I' || c == 'A'
}

/// One `u` undoes a whole insert session: from normal mode with nothing
/// pending or counted, opening a session with `i`, `a`, `I` or `A`, typing
/// any keys but Esc and Enter, and leaving with Esc, `u` gives back the text
/// and cursor from before the session.
pub proof fn law_undo_restores_insert_session(e: EdView, c: char, keys: Seq<KeyEvent>)
    requires
        ed_wf(e),
        e.mode == VimMode::Normal,
        e.pending is None,
        e.count is None,
        opens_session(c),
        forall|i: int| 0 <= i < keys.len() ==> in_session(#[trigger] keys[i]),
    ensures
        ({
            let e1 = spec_step(e, plain(KeyCode::Char(c))).0;
            let e2 = spec_steps(e1, keys);
            let e3 = spec_step(e2, plain(KeyCode::Esc)).0;
            let e4 = spec_step(e3, plain(KeyCode::Char('u'))).0;
            e4.text == e.text && e4.cursor == e.cursor && e4.mode == VimMode::Normal
        }),
{
    let k = plain(KeyCode::Char(c));
    assert(!is_motion(k.code));
    assert(!is_pending_key(k.code));
    assert(is_command_key(k.code));
    let e1 = spec_step(e, k).0;
    assert(e1.undo == spec_push(e.undo, (e.text, e.cursor)));
    lemma_session_keeps_snapshot(e1, keys);
    let e2 = spec_steps(e1, keys);
    let e3 = spec_step(e2, plain(KeyCode::Esc)).0;
    lemma_undo_takes_snapshot(e3, e.undo, e.text, e.cursor);
}

/// One `u` undoes a whole edit command typed over several keys: starting
/// in normal mode with nothing pending or counted, keys that change neither
/// the text nor the cursor (a count, an operator, a find, replace or
/// text-object prefix) followed by a key (not `u` or Ctrl-r where those move
/// through the history) that changes the text and leaves normal mode with
/// nothing pending or counted; `u` then gives back the text and cursor from
/// before the command.
pub proof fn law_undo_restores_edit_command(e: EdView, prefix: Seq<KeyEvent>, k: KeyEvent)
    requires
        ed_wf(e),
        e.mode == VimMode::Normal,
        e.pending is None,
        e.count is None,
        ({
            let e0 = spec_steps(e, prefix);
            let e1 = spec_step(e0, k).0;
            &&& e0.text == e.text && e0.cursor == e.cursor && e0.mode != VimMode::Insert
            &&& !history_key(e0, k)
            &&& e1.text != e.text
            &&& e1.mode == VimMode::Normal && e1.pending is None && e1.count is None
        }),
    ensures
        ({
            let e1 = spec_step(spec_steps(e, prefix), k).0;
            let e2 = spec_step(e1, plain(KeyCode::Char('u'))).0;
            e2.text == e.text && e2.cursor == e.cursor && e2.mode == VimMode::Normal
        }),
{
    let e0 = spec_steps(e, prefix);
    lemma_change_saves_snapshot(e0, k);
    let e1 = spec_step(e0, k).0;
    lemma_undo_takes_snapshot(e1, e0.undo, e0.text, e0.cursor);
}

/// One `u` undoes a change command with the insert session it opens:
/// starting in normal mode with nothing pending or counted, keys that change
/// neither the text nor the cursor, a key that changes the text and enters
/// insert mode with nothing pending or counted (`c` with a motion, or `c`
/// on a visual selection), any keys but Esc and Enter, and Esc; `u` then
/// gives back the text and cursor from before the command.
pub proof fn law_undo_restores_change_command(
    e: EdView,
    prefix: Seq<KeyEvent>,
    k: KeyEvent,
    session: Seq<KeyEvent>,
)
    requires
        ed_wf(e),
        e.mode == VimMode::Normal,
        e.pending is None,
        e.count is None,
        forall|i: int| 0 <= i < session.len() ==> in_session(#[trigger] session[i]),
        ({
            let e0 = spec_steps(e, prefix);
            let e1 = spec_step(e0, k).0;
            &&& e0.text == e.text && e0.cursor == e.cursor && e0.mode != VimMode::Insert
            &&& !history_key(e0, k)
            &&& e1.text != e.text
            &&& e1.mode == VimMode::Insert && e1.pending is None && e1.count is None
        }),
    ensures
        ({
            let e1 = spec_step(spec_steps(e, prefix), k).0;
            let e2 = spec_steps(e1, session);
            let e3 = spec_step(e2, plain(KeyCode::Esc)).0;
            let e4 = spec_step(e3, plain(KeyCode::Char('u'))).0;
            e4.text == e.text && e4.cursor == e.cursor && e4.mode == VimMode::Normal
        }),
{
    let e0 = spec_steps(e, prefix);
    lemma_change_saves_snapshot(e0, k);
    let e1 = spec_step(e0, k).0;
    lemma_session_keeps_snapshot(e1, session);
    let e2 = spec_steps(e1, session);
    let e3 = spec_step(e2, plain(KeyCode::Esc)).0;
    lemma_undo_takes_snapshot(e3, e0.undo, e0.text, e0.cursor);
}

/// The UTF-8 length of a character is that of its encoding.
proof fn lemma_utf8_len_is_encoding(c: char)
    ensures
        spec_utf8_len(c) == encode_scalar(c as u32).len(),
{
    char_is_scalar(c);
}

/// The byte offset of character `c` counted from the second character.
proof fn lemma_bytes_before_front(text: Seq<char>, c: int)
    requires
        1 <= c <= text.len(),
    ensures
        bytes_before(text, c) == spec_utf8_len(text[0]) + bytes_before(text.drop_first(), c - 1),
    decreases c,
{
    if c > 1 {
        lemma_bytes_before_front(text, c - 1);
        assert(text.drop_first()[c - 2] == text[c - 1]);
    } else {
        assert(bytes_before(text, 0) == 0);
        assert(bytes_before(text.drop_first(), 0) == 0);
    }
}

/// The byte offset of every character index lies on a character boundary
/// of the text's UTF-8 encoding.
proof fn lemma_offset_is_boundary(text: Seq<char>, c: int)
    requires
        0 <= c <= text.len(),
    ensures
        is_char_boundary(encode_utf8(text), bytes_before(text, c) as int),
        bytes_before(text, c) <= encode_utf8(text).len(),
    decreases text.len(),
{
    let bytes = encode_utf8(text);
    encode_utf8_valid_utf8(text);
    if c == 0 {
        assert(bytes_before(text, 0) == 0);
    } else {
        encode_utf8_first_scalar(text);
        let rest = text.drop_first();
        assert(pop_first_scalar(bytes) =~= encode_utf8(rest));
        lemma_bytes_before_front(text, c);
        lemma_utf8_len_is_encoding(text[0]);
        lemma_offset_is_boundary(rest, c - 1);
        encode_utf8_valid_utf8(rest);
        assert(bytes.len() == encode_scalar(text[0] as u32).len() + encode_utf8(rest).len());
    }
}

/// The editor's byte cursor lies on a character boundary of its text's
/// UTF-8 encoding (the bytes `str::is_char_boundary` reads): the cursor
/// reported by `cursor()` is that offset whenever it fits in a `usize`.
pub proof fn law_cursor_on_char_boundary(ed: &VimEditor)
    requires
        ed.wf(),
    ensures
        is_char_boundary(encode_utf8(ed.view().text), bytes_before(ed.view().text, ed.view().cursor as int) as int),
        bytes_before(ed.view().text, ed.view().cursor as int) <= usize::MAX ==> byte_pos(
            ed.view().text,
            ed.view().cursor as int,
        ) == bytes_before(ed.view().text, ed.view().cursor as int),
{
    ed.lemma_state_ok();
    lemma_offset_is_boundary(ed.view().text, ed.view().cursor as int);
}

} // verus!
