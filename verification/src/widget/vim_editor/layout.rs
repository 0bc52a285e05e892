//! How much room the editor asks for: a framed editor with a status line,
//! or a one-line summary when width or height is short.

use vstd::prelude::*;

use crate::render::layout::{spec_constrain, Constraints, Size};
use crate::render::overflow::{chars_of, spec_summarize, summarize_text, OverflowBehavior};
use crate::render::text::{display_width, display_width_of, string_from_chars};
use crate::widget::vim_editor::editor::{
    byte_pos, decimal, push_decimal_usize, spec_pending_display, VimEditor,
};
use crate::widget::vim_editor::spec::{EdView, VimMode};

verus! {

/// Narrowest width of the framed editor.
pub const COMPACT_EDITOR_WIDTH: u16 = 10;
/// Height of the one-line summary.
pub const COMPACT_EDITOR_HEIGHT: u16 = 1;
/// Height of the framed editor: borders, status line, text line.
pub const FRAMED_EDITOR_HEIGHT: u16 = 4;

/// The frame's title.
pub fn framed_editor_title() -> (s: &'static str)
    ensures
        s@ == " Vim Editor "@,
{
    " Vim Editor "
}

/// The summary when the width is below the compact width or the height
/// below the framed height; otherwise the framed editor, ellipsized.
pub open spec fn spec_editor_overflow(width: u16, max_height: Option<u16>) -> OverflowBehavior {
    if width < COMPACT_EDITOR_WIDTH || (max_height matches Some(h) && h < FRAMED_EDITOR_HEIGHT) {
        OverflowBehavior::Summary
    } else {
        OverflowBehavior::Ellipsis
    }
}

/// Which presentation fits `width` and the height bound.
pub fn editor_overflow(width: u16, max_height: Option<u16>) -> (r: OverflowBehavior)
    ensures
        r == spec_editor_overflow(width, max_height),
{
    let short = match max_height {
        Some(h) => h < FRAMED_EDITOR_HEIGHT,
        None => false,
    };
    if width < COMPACT_EDITOR_WIDTH || short {
        OverflowBehavior::Summary
    } else {
        OverflowBehavior::Ellipsis
    }
}

/// A width capped at `u16::MAX`.
pub open spec fn spec_saturating_width(width: int) -> u16 {
    if width > u16::MAX { u16::MAX } else { width as u16 }
}

/// A width capped at `u16::MAX`.
pub fn saturating_width(width: usize) -> (r: u16)
    ensures
        r == spec_saturating_width(width as int),
{
    if width > 65535 {
        65535
    } else {
        width as u16
    }
}

/// The text with a bar at the cursor.
pub open spec fn spec_excerpt(e: EdView) -> Seq<char> {
    e.text.insert(e.cursor as int, '|')
}

/// The mode's name on the status line.
pub open spec fn mode_word(m: VimMode) -> Seq<char> {
    match m {
        VimMode::Insert => "INSERT"@,
        VimMode::Normal => "NORMAL"@,
        VimMode::Visual => "VISUAL"@,
    }
}

/// The mode's letter in the summary.
pub open spec fn mode_letter(m: VimMode) -> Seq<char> {
    match m {
        VimMode::Insert => "I"@,
        VimMode::Normal => "N"@,
        VimMode::Visual => "V"@,
    }
}

/// `mode:<MODE> pending:<keys or -> cursor:<byte offset>`.
pub open spec fn spec_status_line(e: EdView) -> Seq<char> {
    let pending = match spec_pending_display(e) {
        Some(p) => p,
        None => "-"@,
    };
    "mode:"@ + mode_word(e.mode) + " pending:"@ + pending + " cursor:"@ + decimal(
        byte_pos(e.text, e.cursor as int) as nat,
    )
}

/// The summary line: mode letter, pending keys if any, then the excerpt,
/// fitted into `width` columns.
pub open spec fn spec_compact_summary(e: EdView, width: usize) -> Seq<char> {
    let prefix = match spec_pending_display(e) {
        Some(p) => mode_letter(e.mode) + " "@ + p + " "@,
        None => mode_letter(e.mode) + " "@,
    };
    spec_summarize(prefix, spec_excerpt(e), Seq::empty(), width)
}

/// Width of the summary line, at least the compact width.
pub open spec fn spec_compact_width(e: EdView) -> u16 {
    let w = display_width_of(spec_compact_summary(e, usize::MAX));
    spec_saturating_width(if w >= COMPACT_EDITOR_WIDTH { w as int } else { COMPACT_EDITOR_WIDTH as int })
}

/// Width of the framed editor: its status and text lines (at least 1)
/// inside the borders, at least the title and the compact width.
pub open spec fn spec_framed_width(e: EdView) -> u16 {
    let s = display_width_of(spec_status_line(e));
    let x = display_width_of(spec_excerpt(e));
    let x1: usize = if x >= 1 { x } else { 1 };
    let inner: usize = if s >= x1 { s } else { x1 };
    let padded: usize = if inner + 2 <= usize::MAX { (inner + 2) as usize } else { usize::MAX };
    let t = display_width_of(" Vim Editor "@);
    let outer: usize = if t >= padded { t } else { padded };
    spec_saturating_width(if outer >= COMPACT_EDITOR_WIDTH { outer as int } else { COMPACT_EDITOR_WIDTH as int })
}

/// The size the editor takes for a preferred width: nothing when no height
/// or width is available; otherwise the preferred width by the summary or
/// framed height, within the constraints.
pub open spec fn spec_editor_size(c: Constraints, preferred: u16) -> Size {
    if c.max_height == Some(0u16) {
        Size { width: 0, height: 0 }
    } else {
        let width = spec_constrain(c, Size { width: preferred, height: 0 }).width;
        if width == 0 {
            Size { width: 0, height: 0 }
        } else {
            let height = match spec_editor_overflow(width, c.max_height) {
                OverflowBehavior::Summary => COMPACT_EDITOR_HEIGHT,
                _ => FRAMED_EDITOR_HEIGHT,
            };
            spec_constrain(c, Size { width: preferred, height })
        }
    }
}

/// Whether the height bound forces the summary.
pub open spec fn compact_due_to_height(c: Constraints) -> bool {
    c.max_height matches Some(h) && h < FRAMED_EDITOR_HEIGHT
}

/// The size the editor takes for a preferred width.
pub fn editor_size(constraints: Constraints, preferred: u16) -> (s: Size)
    ensures
        s == spec_editor_size(constraints, preferred),
{
    if constraints.max_height == Some(0) {
        return Size::zero();
    }
    let width = constraints.constrain(Size::new(preferred, 0)).width;
    if width == 0 {
        return Size::zero();
    }
    let height = match editor_overflow(width, constraints.max_height) {
        OverflowBehavior::Summary => COMPACT_EDITOR_HEIGHT,
        _ => FRAMED_EDITOR_HEIGHT,
    };
    constraints.constrain(Size::new(preferred, height))
}

/// The text with a bar at the cursor.
pub fn editor_excerpt(editor: &VimEditor) -> (s: String)
    requires
        editor.wf(),
    ensures
        s@ == spec_excerpt(editor.view()),
{
    let mut chars = editor.chars().clone();
    assert(chars@ =~= editor.view().text);
    chars.insert(editor.char_cursor(), '|');
    string_from_chars(chars.as_slice())
}

/// The status line of the framed editor.
pub fn status_line_text(editor: &VimEditor) -> (s: String)
    requires
        editor.wf(),
    ensures
        s@ == spec_status_line(editor.view()),
{
    let mut out = chars_of("mode:");
    let mut word = match editor.mode() {
        VimMode::Insert => chars_of("INSERT"),
        VimMode::Normal => chars_of("NORMAL"),
        VimMode::Visual => chars_of("VISUAL"),
    };
    out.append(&mut word);
    let mut label = chars_of(" pending:");
    out.append(&mut label);
    let mut pending = match editor.pending_display() {
        Some(p) => chars_of(p.as_str()),
        None => chars_of("-"),
    };
    out.append(&mut pending);
    let mut label2 = chars_of(" cursor:");
    out.append(&mut label2);
    push_decimal_usize(&mut out, editor.cursor());
    string_from_chars(out.as_slice())
}

/// The summary line fitted into `width` columns.
pub fn compact_editor_summary(editor: &VimEditor, width: usize) -> (s: String)
    requires
        editor.wf(),
    ensures
        s@ == spec_compact_summary(editor.view(), width),
{
    let mut prefix = match editor.mode() {
        VimMode::Insert => chars_of("I"),
        VimMode::Normal => chars_of("N"),
        VimMode::Visual => chars_of("V"),
    };
    let mut space = chars_of(" ");
    prefix.append(&mut space);
    if let Some(p) = editor.pending_display() {
        let mut keys = chars_of(p.as_str());
        prefix.append(&mut keys);
        let mut space2 = chars_of(" ");
        prefix.append(&mut space2);
    }
    let prefix_text = string_from_chars(prefix.as_slice());
    assert(prefix_text@ =~= (match spec_pending_display(editor.view()) {
        Some(p) => mode_letter(editor.view().mode) + " "@ + p + " "@,
        None => mode_letter(editor.view().mode) + " "@,
    }));
    let excerpt = editor_excerpt(editor);
    let empty = "";
    proof {
        reveal_strlit("");
        assert(empty@ =~= Seq::<char>::empty());
    }
    summarize_text(prefix_text.as_str(), excerpt.as_str(), empty, width)
}

/// Width of the summary line, at least the compact width.
pub fn compact_editor_width(editor: &VimEditor) -> (w: u16)
    requires
        editor.wf(),
    ensures
        w == spec_compact_width(editor.view()),
{
    let summary = compact_editor_summary(editor, usize::MAX);
    let w = display_width(summary.as_str());
    saturating_width(if w >= COMPACT_EDITOR_WIDTH as usize { w } else { COMPACT_EDITOR_WIDTH as usize })
}

/// Width of the framed editor.
pub fn framed_editor_width(editor: &VimEditor) -> (w: u16)
    requires
        editor.wf(),
    ensures
        w == spec_framed_width(editor.view()),
{
    let status = status_line_text(editor);
    let excerpt = editor_excerpt(editor);
    let s = display_width(status.as_str());
    let x = display_width(excerpt.as_str());
    let x1 = if x >= 1 { x } else { 1 };
    let inner = if s >= x1 { s } else { x1 };
    let padded = inner.saturating_add(2);
    let t = display_width(framed_editor_title());
    let outer = if t >= padded { t } else { padded };
    saturating_width(if outer >= COMPACT_EDITOR_WIDTH as usize { outer } else { COMPACT_EDITOR_WIDTH as usize })
}

impl VimEditor {
    /// The size the editor takes within `constraints`: the summary's width
    /// when the height is short, else the framed editor's width.
    pub fn measure(&self, constraints: Constraints) -> (s: Size)
        requires
            self.wf(),
        ensures
            s == spec_editor_size(
                constraints,
                if compact_due_to_height(constraints) {
                    spec_compact_width(self.view())
                } else {
                    spec_framed_width(self.view())
                },
            ),
    {
        if constraints.max_height == Some(0) {
            return Size::zero();
        }
        let compact = match constraints.max_height {
            Some(h) => h < FRAMED_EDITOR_HEIGHT,
            None => false,
        };
        let preferred = if compact { compact_editor_width(self) } else { framed_editor_width(self) };
        editor_size(constraints, preferred)
    }
}

} // verus!
