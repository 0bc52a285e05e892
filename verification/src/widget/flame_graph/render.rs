//! Label text and bar glyphs of flame-graph rows.

use vstd::prelude::*;

use crate::render::overflow::{chars_of, ellipsize_text, spec_ellipsize, OverflowBehavior};
use crate::render::text::{display_width, display_width_of, string_from_chars};
use crate::widget::flame_graph::layout::{spec_row_layout, RowLayout};

verus! {

/// Visual style for flame graph bar segments.
#[derive(Clone, Copy, Debug, PartialEq, Eq, Structural)]
pub enum BarStyle {
    /// Thin horizontal lines. Light, airy, clear row separation.
    ThinLine,
    /// Braille dot grid. Textured, semi-transparent feel.
    Dotted,
}

impl Default for BarStyle {
    fn default() -> (s: Self)
        ensures
            s == BarStyle::ThinLine,
    {
        BarStyle::ThinLine
    }
}


/// Detailed rows with bars when the width leaves room for them, else the
/// summary.
pub fn flame_graph_overflow(width: u16) -> (r: OverflowBehavior)
    ensures
        r == (if spec_row_layout(width).bar_zone >= crate::widget::flame_graph::layout::MIN_BAR_ZONE {
            OverflowBehavior::Ellipsis
        } else {
            OverflowBehavior::Summary
        }),
{
    if RowLayout::for_width(width).shows_bars() {
        OverflowBehavior::Ellipsis
    } else {
        OverflowBehavior::Summary
    }
}

/// The glyph of a thin bar at column `cx` of `[bar_x, bar_end)`: a plain
/// heavy line for a one-cell bar, caps at the ends, the line between.
pub fn thin_line_symbol(cx: u16, bar_x: u16, bar_end: u16) -> (s: &'static str)
    ensures
        (if bar_end <= bar_x + 1 {
            s@ == "\u{2501}"@
        } else if cx == bar_x {
            s@ == "\u{257A}"@
        } else if cx + 1 == bar_end {
            s@ == "\u{2578}"@
        } else {
            s@ == "\u{2501}"@
        }),
{
    let width = bar_end.saturating_sub(bar_x);
    if width <= 1 {
        "\u{2501}"
    } else if cx == bar_x {
        "\u{257A}"
    } else if cx as u32 + 1 == bar_end as u32 {
        "\u{2578}"
    } else {
        "\u{2501}"
    }
}

/// `n` spaces.
pub open spec fn spaces(n: nat) -> Seq<char> {
    Seq::new(n, |i: int| ' ')
}

/// A row label of exactly the zone's width where it fits: indent (at most
/// the zone), indicator, the label ellipsized into what is left, padded
/// with spaces; only spaces when nothing is left for the label.
pub open spec fn spec_format_label(label: Seq<char>, indent: usize, zone: usize, indicator: Seq<char>) -> Seq<char> {
    if zone == 0 {
        Seq::empty()
    } else {
        let ind = display_width_of(indicator);
        let indent2: usize = if indent <= zone { indent } else { zone };
        let after_indent = (zone - indent2) as usize;
        let available: usize = if after_indent >= ind { (after_indent - ind) as usize } else { 0 };
        if available == 0 {
            spaces(zone as nat)
        } else {
            let formatted = spaces(indent2 as nat) + indicator + spec_ellipsize(label, available);
            let used = display_width_of(formatted);
            if used < zone {
                formatted + spaces((zone - used) as nat)
            } else {
                formatted
            }
        }
    }
}

/// Append `n` spaces.
fn push_spaces(out: &mut Vec<char>, n: usize)
    ensures
        final(out)@ == old(out)@ + spaces(n as nat),
{
    let mut i: usize = 0;
    while i < n
        invariant
            i <= n,
            out@ == old(out)@ + spaces(i as nat),
        decreases n - i,
    {
        out.push(' ');
        i += 1;
        assert(out@ =~= old(out)@ + spaces(i as nat));
    }
}

/// Format a row label into `zone_width` columns.
pub fn format_label(label: &str, indent: usize, zone_width: usize, indicator: &str) -> (r: String)
    ensures
        r@ == spec_format_label(label@, indent, zone_width, indicator@),
{
    if zone_width == 0 {
        return String::new();
    }
    let ind_len = display_width(indicator);
    let indent = if indent <= zone_width { indent } else { zone_width };
    let after_indent = zone_width - indent;
    let available = if after_indent >= ind_len { after_indent - ind_len } else { 0 };
    if available == 0 {
        let mut blank: Vec<char> = Vec::new();
        push_spaces(&mut blank, zone_width);
        assert(blank@ =~= spaces(zone_width as nat));
        return string_from_chars(blank.as_slice());
    }
    let mut formatted: Vec<char> = Vec::new();
    push_spaces(&mut formatted, indent);
    let mut ind = chars_of(indicator);
    formatted.append(&mut ind);
    let shown = ellipsize_text(label, available);
    let mut shown_chars = chars_of(shown.as_str());
    formatted.append(&mut shown_chars);
    let text = string_from_chars(formatted.as_slice());
    assert(text@ =~= spaces(indent as nat) + indicator@ + spec_ellipsize(label@, available));
    let used = display_width(text.as_str());
    if used < zone_width {
        push_spaces(&mut formatted, zone_width - used);
        string_from_chars(formatted.as_slice())
    } else {
        text
    }
}

} // verus!
