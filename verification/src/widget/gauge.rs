//! Placement of a compact gauge: a `label: ` prefix, a track between two
//! caps with a needle, and optional end labels on the row below. Where the
//! needle sits along the track comes from the gauge's value, which the
//! caller scales; everything else is laid out here.

use vstd::prelude::*;

verus! {

/// Narrowest track drawn, caps included.
pub const MIN_TRACK_WIDTH: u16 = 5;

/// A text width in columns, capped at `u16::MAX`.
pub open spec fn cap16(w: usize) -> u16 {
    if w > u16::MAX { u16::MAX } else { w as u16 }
}

/// Columns of the `label: ` prefix for a label `w` columns wide, capped.
pub open spec fn label_columns(w: usize) -> u16 {
    if cap16(w) + 2 > u16::MAX { u16::MAX } else { (cap16(w) + 2) as u16 }
}

/// Where a gauge's parts go in an area of its size, counted from the
/// area's top-left corner.
#[derive(Clone, Copy, Debug, PartialEq, Eq)]
pub struct GaugeLayout {
    /// The columns of the `label: ` prefix at column 0 of row 0, when it
    /// leaves room for a track.
    pub label: Option<u16>,
    /// The first column of the track.
    pub track_x: u16,
    /// The columns of the track, caps included.
    pub track_width: u16,
    /// Whether the track is drawn: it needs `MIN_TRACK_WIDTH` columns.
    pub shows_track: bool,
    /// The columns the low end label takes at the track's start on row 1.
    pub low: Option<u16>,
    /// The first column and the columns of the high end label on row 1,
    /// right-aligned to the track's end.
    pub high: Option<(u16, u16)>,
}

/// The layout of a gauge `width` by `height` with a label and end labels
/// of the given widths: the label is drawn only when its prefix is narrower
/// than the area; the track takes the columns after it; the end labels are
/// drawn under a drawn track when there are two rows, the low one cut to
/// the track and the high one ending with the track but not starting
/// before it.
pub open spec fn spec_gauge_layout(
    width: u16,
    height: u16,
    label_w: Option<usize>,
    low_w: Option<usize>,
    high_w: Option<usize>,
) -> GaugeLayout {
    let label = match label_w {
        Some(w) => if label_columns(w) < width { Some(label_columns(w)) } else { None::<u16> },
        None => None::<u16>,
    };
    let track_x: u16 = match label {
        Some(l) => l,
        None => 0,
    };
    let track_width = (width - track_x) as u16;
    let shows_track = track_width >= MIN_TRACK_WIDTH;
    let below = shows_track && height >= 2;
    let track_end = (track_x + track_width) as u16;
    GaugeLayout {
        label,
        track_x,
        track_width,
        shows_track,
        low: match low_w {
            Some(w) => if below {
                Some(if track_width <= cap16(w) { track_width } else { cap16(w) })
            } else {
                None::<u16>
            },
            None => None::<u16>,
        },
        high: match high_w {
            Some(w) => if below {
                let start: u16 = if track_end < cap16(w) + track_x { track_x } else { (track_end - cap16(w)) as u16 };
                Some((start, (track_end - start) as u16))
            } else {
                None::<(u16, u16)>
            },
            None => None::<(u16, u16)>,
        },
    }
}

fn cap_width(w: usize) -> (r: u16)
    ensures
        r == cap16(w),
{
    if w > 65535 {
        65535
    } else {
        w as u16
    }
}

/// Lay out a gauge `width` by `height`, nothing when the area is empty.
pub fn gauge_layout(
    width: u16,
    height: u16,
    label_w: Option<usize>,
    low_w: Option<usize>,
    high_w: Option<usize>,
) -> (r: Option<GaugeLayout>)
    ensures
        r == (if width == 0 || height == 0 {
            None
        } else {
            Some(spec_gauge_layout(width, height, label_w, low_w, high_w))
        }),
{
    if width == 0 || height == 0 {
        return None;
    }
    let label = match label_w {
        Some(w) => {
            let l = cap_width(w).saturating_add(2);
            if l < width {
                Some(l)
            } else {
                None
            }
        },
        None => None,
    };
    let track_x: u16 = match label {
        Some(l) => l,
        None => 0,
    };
    let track_width = width - track_x;
    let shows_track = track_width >= MIN_TRACK_WIDTH;
    let below = shows_track && height >= 2;
    let track_end = track_x + track_width;
    let low = match low_w {
        Some(w) => if below {
            let tw = cap_width(w);
            Some(if track_width <= tw { track_width } else { tw })
        } else {
            None
        },
        None => None,
    };
    let high = match high_w {
        Some(w) => if below {
            let tw = cap_width(w);
            let start = if track_end - track_x < tw { track_x } else { track_end - tw };
            Some((start, track_end - start))
        } else {
            None
        },
        None => None,
    };
    Some(GaugeLayout { label, track_x, track_width, shows_track, low, high })
}

/// What a column of a gauge's track shows.
#[derive(Clone, Copy, Debug, PartialEq, Eq, Structural)]
pub enum GaugeCell {
    LeftCap,
    RightCap,
    Needle,
    Filled,
    Dash,
}

/// The cell at column `x` of a track starting at `track_x` and `track_width`
/// wide, with the needle at column `needle`: the caps at the two ends, the
/// needle, the filled track before it and dashes after it.
pub open spec fn spec_gauge_cell(x: u16, track_x: u16, track_width: u16, needle: u16) -> GaugeCell {
    if x == track_x {
        GaugeCell::LeftCap
    } else if x == track_x + track_width - 1 {
        GaugeCell::RightCap
    } else if x == needle {
        GaugeCell::Needle
    } else if x < needle {
        GaugeCell::Filled
    } else {
        GaugeCell::Dash
    }
}

/// Classify column `x` of the track.
pub fn gauge_cell(x: u16, track_x: u16, track_width: u16, needle: u16) -> (c: GaugeCell)
    requires
        track_width >= 1,
        track_x + track_width <= u16::MAX,
    ensures
        c == spec_gauge_cell(x, track_x, track_width, needle),
        (c == GaugeCell::LeftCap) <==> (x == track_x),
        (c == GaugeCell::RightCap) <==> (x != track_x && x + 1 == track_x + track_width),
{
    if x == track_x {
        GaugeCell::LeftCap
    } else if x == track_x + track_width - 1 {
        GaugeCell::RightCap
    } else if x == needle {
        GaugeCell::Needle
    } else if x < needle {
        GaugeCell::Filled
    } else {
        GaugeCell::Dash
    }
}

/// Law: on a track at least two columns wide, wherever it starts, the left
/// cap is its first column and the right cap its last; between them the
/// needle stands at its own column, the track is filled before it and
/// dashed after it. Moving the track and the needle together moves every
/// cell with them.
pub proof fn law_gauge_cells_follow_track(
    x: u16,
    track_x: u16,
    track_width: u16,
    needle: u16,
    shift: u16,
)
    requires
        track_width >= 2,
        track_x <= x < track_x + track_width,
    ensures
        (spec_gauge_cell(x, track_x, track_width, needle) == GaugeCell::LeftCap) <==> x == track_x,
        (spec_gauge_cell(x, track_x, track_width, needle) == GaugeCell::RightCap) <==> x + 1
            == track_x + track_width,
        track_x < x && x + 1 < track_x + track_width ==> {
            &&& (spec_gauge_cell(x, track_x, track_width, needle) == GaugeCell::Needle) <==> x
                == needle
            &&& (spec_gauge_cell(x, track_x, track_width, needle) == GaugeCell::Filled) <==> x
                < needle
            &&& (spec_gauge_cell(x, track_x, track_width, needle) == GaugeCell::Dash) <==> x
                > needle
        },
        x + shift <= u16::MAX && track_x + shift <= u16::MAX && needle + shift <= u16::MAX
            ==> spec_gauge_cell(
            (x + shift) as u16,
            (track_x + shift) as u16,
            track_width,
            (needle + shift) as u16,
        ) == spec_gauge_cell(x, track_x, track_width, needle),
{
}

} // verus!
