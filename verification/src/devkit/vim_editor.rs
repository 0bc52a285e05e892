//! Key dispatch and status context of the vim editor playground.

use vstd::prelude::*;

use crate::input::key::{KeyCode, KeyEvent, KeyResult, NO_MODIFIERS};
use crate::render::overflow::chars_of;
use crate::widget::vim_editor::editor::{spec_fresh, spec_pending_display, EditorEffect, VimEditor};
use crate::widget::vim_editor::laws::{lemma_steps_append, spec_steps};
use crate::widget::vim_editor::spec::{spec_step, Effect, VimMode};

verus! {

/// The key result of an editor step: consumed for a handled key or a
/// submitted line; ignored for a request to leave (so that the enclosing
/// shell can act on it) and for an unhandled key.
pub open spec fn effect_result(e: Effect) -> KeyResult {
    match e {
        Effect::Consumed | Effect::Submit(_) => KeyResult::Consumed,
        Effect::Exit | Effect::Ignored => KeyResult::Ignored,
    }
}

/// Step the editor with a key, and report whether the key was used.
pub fn apply_vim_editor(editor: &mut VimEditor, event: &KeyEvent) -> (r: KeyResult)
    requires
        old(editor).wf(),
    ensures
        final(editor).wf(),
        final(editor).view() == spec_step(old(editor).view(), *event).0,
        r == effect_result(spec_step(old(editor).view(), *event).1),
{
    match editor.step(*event) {
        EditorEffect::Consumed | EditorEffect::Submit(_) => KeyResult::Consumed,
        EditorEffect::Exit => KeyResult::Ignored,
        EditorEffect::Ignored => KeyResult::Ignored,
    }
}

/// The name of a mode in the status context.
pub open spec fn mode_name(m: VimMode) -> &'static str {
    match m {
        VimMode::Insert => "insert",
        VimMode::Normal => "normal",
        VimMode::Visual => "visual",
    }
}

/// The labels of the editor's status context: the editor, its mode, and
/// `pending` while a command is partly typed.
pub fn vim_editor_context(editor: &VimEditor) -> (r: Vec<&'static str>)
    ensures
        r@ == seq!["vim-editor", mode_name(editor.view().mode)] + (if spec_pending_display(editor.view()) is Some {
            seq!["pending"]
        } else {
            Seq::empty()
        }),
{
    let mut context: Vec<&'static str> = vec!["vim-editor"];
    let mode = match editor.mode() {
        VimMode::Insert => "insert",
        VimMode::Normal => "normal",
        VimMode::Visual => "visual",
    };
    context.push(mode);
    if editor.pending_display().is_some() {
        context.push("pending");
    }
    assert(context@ =~= seq!["vim-editor", mode_name(editor.view().mode)] + (if spec_pending_display(editor.view()) is Some {
        seq!["pending"]
    } else {
        Seq::empty()
    }));
    context
}

/// A key without modifiers.
pub open spec fn plain_key(code: KeyCode) -> KeyEvent {
    KeyEvent { code, modifiers: NO_MODIFIERS }
}

/// The keys that type `text`, one character each, without modifiers.
pub open spec fn typed(text: Seq<char>) -> Seq<KeyEvent>
    decreases text.len(),
{
    if text.len() == 0 {
        Seq::empty()
    } else {
        typed(text.drop_last()).push(plain_key(KeyCode::Char(text.last())))
    }
}

/// A key without modifiers.
fn key(code: KeyCode) -> (k: KeyEvent)
    ensures
        k == plain_key(code),
{
    KeyEvent::new(code, NO_MODIFIERS)
}

/// Step the editor through the keys, ignoring their effects.
fn step_all(editor: &mut VimEditor, keys: &Vec<KeyEvent>)
    requires
        old(editor).wf(),
    ensures
        final(editor).wf(),
        final(editor).view() == spec_steps(old(editor).view(), keys@),
{
    let ghost start = editor.view();
    let mut i: usize = 0;
    while i < keys.len()
        invariant
            i <= keys@.len(),
            editor.wf(),
            editor.view() == spec_steps(start, keys@.take(i as int)),
        decreases keys@.len() - i,
    {
        editor.step(keys[i]);
        proof {
            assert(keys@.take(i + 1).drop_last() =~= keys@.take(i as int));
        }
        i += 1;
    }
    proof {
        assert(keys@.take(keys@.len() as int) =~= keys@);
    }
}

/// The keys that type `text`, one unmodified key per character.
fn keys_of(text: &str) -> (keys: Vec<KeyEvent>)
    ensures
        keys@ == typed(text@),
{
    let chars = chars_of(text);
    let mut keys: Vec<KeyEvent> = Vec::new();
    let mut i: usize = 0;
    proof {
        assert(keys@ =~= typed(chars@.take(0)));
    }
    while i < chars.len()
        invariant
            i <= chars@.len(),
            keys@ == typed(chars@.take(i as int)),
        decreases chars@.len() - i,
    {
        keys.push(key(KeyCode::Char(chars[i])));
        proof {
            assert(chars@.take(i + 1).drop_last() =~= chars@.take(i as int));
        }
        i += 1;
    }
    proof {
        assert(chars@.take(chars@.len() as int) =~= text@);
    }
    keys
}

/// Type `text` into the editor, one unmodified key per character.
fn type_text(editor: &mut VimEditor, text: &str)
    requires
        old(editor).wf(),
    ensures
        final(editor).wf(),
        final(editor).view() == spec_steps(old(editor).view(), typed(text@)),
{
    let keys = keys_of(text);
    step_all(editor, &keys);
}

/// A new editor with `text` typed.
fn typed_editor(text: &str) -> (r: VimEditor)
    ensures
        r.wf(),
        r.view() == spec_steps(spec_fresh(), typed(text@)),
{
    let mut editor = VimEditor::new();
    type_text(&mut editor, text);
    editor
}

/// A new editor with `text` typed and insert mode left.
fn normal_editor(text: &str) -> (r: VimEditor)
    ensures
        r.wf(),
        r.view() == spec_steps(spec_fresh(), typed(text@).push(plain_key(KeyCode::Esc))),
{
    let mut editor = VimEditor::new();
    type_text(&mut editor, text);
    editor.step(key(KeyCode::Esc));
    proof {
        assert(typed(text@).push(plain_key(KeyCode::Esc)).drop_last() =~= typed(text@));
    }
    editor
}

/// A playground scenario of the editor: its name, what it shows, the state
/// it starts from, and the keys it plays.
pub struct VimScenario {
    pub name: &'static str,
    pub description: &'static str,
    pub state: VimEditor,
    pub inputs: Vec<KeyEvent>,
}

/// The static scenarios: editor states to look at, each reached from a new
/// editor by typing and stepping keys, with nothing to play.
pub fn vim_editor_static_catalog() -> (r: Vec<VimScenario>)
    ensures
        r@.len() == 6,
        forall|i: int| 0 <= i < 6 ==> (#[trigger] r@[i]).state.wf() && r@[i].inputs@.len() == 0,
        r@[0].name == "insert-empty" && r@[0].description == "Fresh editor in insert mode",
        r@[0].state.view() == spec_fresh(),
        r@[1].name == "insert-with-text" && r@[1].description == "Insert mode with text and cursor at end",
        r@[1].state.view() == spec_steps(spec_fresh(), typed("hello world"@)),
        r@[2].name == "normal-mode" && r@[2].description == "Normal mode after leaving insert",
        r@[2].state.view() == spec_steps(spec_fresh(), typed("hello world"@).push(plain_key(KeyCode::Esc))),
        r@[3].name == "visual-selection" && r@[3].description == "Visual mode with an active forward selection",
        r@[3].state.view() == spec_steps(
            spec_fresh(),
            typed("hello world"@).push(plain_key(KeyCode::Esc)) + typed("0vw"@),
        ),
        r@[4].name == "pending-delete" && r@[4].description
            == "Normal mode showing an operator-pending delete command",
        r@[4].state.view() == spec_steps(
            spec_fresh(),
            typed("hello world"@).push(plain_key(KeyCode::Esc)).push(plain_key(KeyCode::Char('d'))),
        ),
        r@[5].name == "pending-find" && r@[5].description == "Normal mode showing a pending find command",
        r@[5].state.view() == spec_steps(
            spec_fresh(),
            typed("hello world"@).push(plain_key(KeyCode::Esc)).push(plain_key(KeyCode::Char('f'))),
        ),
{
    let mut r: Vec<VimScenario> = Vec::new();
    r.push(
        VimScenario {
            name: "insert-empty",
            description: "Fresh editor in insert mode",
            state: VimEditor::new(),
            inputs: Vec::new(),
        },
    );
    let mut typed_editor = VimEditor::new();
    type_text(&mut typed_editor, "hello world");
    r.push(
        VimScenario {
            name: "insert-with-text",
            description: "Insert mode with text and cursor at end",
            state: typed_editor,
            inputs: Vec::new(),
        },
    );
    r.push(
        VimScenario {
            name: "normal-mode",
            description: "Normal mode after leaving insert",
            state: normal_editor("hello world"),
            inputs: Vec::new(),
        },
    );
    let mut visual = normal_editor("hello world");
    type_text(&mut visual, "0vw");
    proof {
        lemma_steps_append(spec_fresh(), typed("hello world"@).push(plain_key(KeyCode::Esc)), typed("0vw"@));
    }
    r.push(
        VimScenario {
            name: "visual-selection",
            description: "Visual mode with an active forward selection",
            state: visual,
            inputs: Vec::new(),
        },
    );
    let mut delete = normal_editor("hello world");
    delete.step(key(KeyCode::Char('d')));
    proof {
        let k = typed("hello world"@).push(plain_key(KeyCode::Esc));
        assert(k.push(plain_key(KeyCode::Char('d'))).drop_last() =~= k);
    }
    r.push(
        VimScenario {
            name: "pending-delete",
            description: "Normal mode showing an operator-pending delete command",
            state: delete,
            inputs: Vec::new(),
        },
    );
    let mut find = normal_editor("hello world");
    find.step(key(KeyCode::Char('f')));
    proof {
        let k = typed("hello world"@).push(plain_key(KeyCode::Esc));
        assert(k.push(plain_key(KeyCode::Char('f'))).drop_last() =~= k);
    }
    r.push(
        VimScenario {
            name: "pending-find",
            description: "Normal mode showing a pending find command",
            state: find,
            inputs: Vec::new(),
        },
    );
    r
}

/// The interactive scenarios: each starts from a new editor, perhaps with
/// text typed, and plays keys through the editor.
pub fn vim_editor_interactive_catalog() -> (r: Vec<VimScenario>)
    ensures
        r@.len() == 5,
        forall|i: int| 0 <= i < 5 ==> (#[trigger] r@[i]).state.wf(),
        r@[0].name == "insert-to-normal" && r@[0].description == "Type text and leave insert mode",
        r@[0].state.view() == spec_fresh(),
        r@[0].inputs@ == typed("hello"@).push(plain_key(KeyCode::Esc)),
        r@[1].name == "visual-motion" && r@[1].description == "Create a visual selection with v then w",
        r@[1].state.view() == spec_steps(spec_fresh(), typed("hello world"@)),
        r@[1].inputs@ == seq![plain_key(KeyCode::Esc)] + typed("0vw"@),
        r@[2].name == "pending-command" && r@[2].description == "Enter operator-pending delete-find sequence",
        r@[2].state.view() == spec_steps(spec_fresh(), typed("delete target"@)),
        r@[2].inputs@ == seq![plain_key(KeyCode::Esc)] + typed("0df"@),
        r@[3].name == "submit-behavior" && r@[3].description == "Submit text with Enter from insert mode",
        r@[3].state.view() == spec_fresh(),
        r@[3].inputs@ == typed("ok"@).push(plain_key(KeyCode::Enter)),
        r@[4].name == "exit-behavior" && r@[4].description == "Exit from normal mode with Esc",
        r@[4].state.view() == spec_steps(spec_fresh(), typed("bye"@)),
        r@[4].inputs@ == seq![plain_key(KeyCode::Esc), plain_key(KeyCode::Esc)],
{
    let mut r: Vec<VimScenario> = Vec::new();
    let mut inputs = keys_of("hello");
    inputs.push(key(KeyCode::Esc));
    r.push(
        VimScenario {
            name: "insert-to-normal",
            description: "Type text and leave insert mode",
            state: VimEditor::new(),
            inputs,
        },
    );
    let mut inputs = vec![key(KeyCode::Esc)];
    let mut rest = keys_of("0vw");
    inputs.append(&mut rest);
    r.push(
        VimScenario {
            name: "visual-motion",
            description: "Create a visual selection with v then w",
            state: typed_editor("hello world"),
            inputs,
        },
    );
    let mut inputs = vec![key(KeyCode::Esc)];
    let mut rest = keys_of("0df");
    inputs.append(&mut rest);
    r.push(
        VimScenario {
            name: "pending-command",
            description: "Enter operator-pending delete-find sequence",
            state: typed_editor("delete target"),
            inputs,
        },
    );
    let mut inputs = keys_of("ok");
    inputs.push(key(KeyCode::Enter));
    r.push(
        VimScenario {
            name: "submit-behavior",
            description: "Submit text with Enter from insert mode",
            state: VimEditor::new(),
            inputs,
        },
    );
    r.push(
        VimScenario {
            name: "exit-behavior",
            description: "Exit from normal mode with Esc",
            state: typed_editor("bye"),
            inputs: vec![key(KeyCode::Esc), key(KeyCode::Esc)],
        },
    );
    r
}

} // verus!
