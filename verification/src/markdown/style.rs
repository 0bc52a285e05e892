//! Styles of rendered markdown text, as the renderer builds them: the
//! caller's base style or the terminal default, an optional theme color for
//! the foreground, and the modifiers that emphasis adds.

use vstd::prelude::*;

verus! {

/// Theme colors the renderer assigns to text.
#[derive(Clone, Copy, Debug, PartialEq, Eq, Structural)]
pub enum MdColor {
    /// Inline and block code.
    Focus,
    /// Blockquote markers.
    Success,
    /// Horizontal rules.
    Dim,
}

/// A style of rendered text.
///
/// `from_base` tells whether the style starts from the base style the caller
/// passed (normal text) or from the terminal default (markers, rules and code
/// blocks); `fg` overrides the foreground; the flags are modifiers added on
/// top.
#[derive(Clone, Copy, Debug, PartialEq, Eq, Structural)]
pub struct MdStyle {
    pub from_base: bool,
    pub fg: Option<MdColor>,
    pub bold: bool,
    pub italic: bool,
    pub crossed_out: bool,
}

/// Which modifier an emphasis tag adds.
#[derive(Clone, Copy, Debug, PartialEq, Eq, Structural)]
pub enum Emphasis {
    Bold,
    Italic,
    CrossedOut,
}

/// The caller's base style, unchanged.
pub open spec fn spec_base() -> MdStyle {
    MdStyle { from_base: true, fg: None, bold: false, italic: false, crossed_out: false }
}

/// The terminal default style with the given foreground.
pub open spec fn spec_plain(fg: Option<MdColor>) -> MdStyle {
    MdStyle { from_base: false, fg, bold: false, italic: false, crossed_out: false }
}

/// `s` with the modifier of `e` added.
pub open spec fn spec_add(s: MdStyle, e: Emphasis) -> MdStyle {
    match e {
        Emphasis::Bold => MdStyle { bold: true, ..s },
        Emphasis::Italic => MdStyle { italic: true, ..s },
        Emphasis::CrossedOut => MdStyle { crossed_out: true, ..s },
    }
}

impl MdStyle {
    /// The caller's base style, unchanged.
    pub fn base() -> (s: Self)
        ensures
            s == spec_base(),
    {
        MdStyle { from_base: true, fg: None, bold: false, italic: false, crossed_out: false }
    }

    /// The terminal default style with the given foreground.
    pub fn plain(fg: Option<MdColor>) -> (s: Self)
        ensures
            s == spec_plain(fg),
    {
        MdStyle { from_base: false, fg, bold: false, italic: false, crossed_out: false }
    }

    /// This style with the modifier of `e` added.
    pub fn with(self, e: Emphasis) -> (s: Self)
        ensures
            s == spec_add(self, e),
    {
        match e {
            Emphasis::Bold => MdStyle { bold: true, ..self },
            Emphasis::Italic => MdStyle { italic: true, ..self },
            Emphasis::CrossedOut => MdStyle { crossed_out: true, ..self },
        }
    }

    /// This style with its foreground set to `c`.
    pub fn with_fg(self, c: MdColor) -> (s: Self)
        ensures
            s == (MdStyle { fg: Some(c), ..self }),
    {
        MdStyle { fg: Some(c), ..self }
    }
}

} // verus!
