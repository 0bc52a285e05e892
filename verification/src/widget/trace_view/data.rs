//! Owned display facts for the trace view, independent of terminal types.

use vstd::prelude::*;

verus! {

/// Identity of one caller-defined visual category within a dataset.
#[derive(Clone, Copy, Debug, PartialEq, Eq, PartialOrd, Ord, Hash, Structural)]
pub struct CategoryId(pub u16);

/// Familiar semantic role resolved through the active terminal theme.
#[derive(Clone, Copy, Debug, PartialEq, Eq, Structural)]
pub enum TraceVisualRole {
    /// Ordinary activity without an outcome or urgency claim.
    Neutral,
    /// Work that is queued, scheduled, or currently in progress.
    Scheduled,
    /// A successful outcome.
    Success,
    /// A partial, cancelled, or otherwise cautionary outcome.
    Warning,
    /// A failed or invalid outcome.
    Failure,
}

impl Default for TraceVisualRole {
    /// Ordinary activity.
    fn default() -> (r: Self)
        ensures
            r == TraceVisualRole::Neutral,
    {
        TraceVisualRole::Neutral
    }
}

/// Caller-owned category label paired with a conventional visual role.
#[derive(Clone, Debug, PartialEq, Eq)]
pub struct TraceCategory {
    /// Dataset-wide stable category identity.
    pub id: CategoryId,
    /// Short legend label.
    pub label: String,
    /// Semantic palette role; labels and glyphs retain meaning without color.
    pub role: TraceVisualRole,
}

/// Identity of a flat display group within one dataset.
#[derive(Clone, Copy, Debug, PartialEq, Eq, PartialOrd, Ord, Hash, Structural)]
pub struct GroupId(pub u32);

/// Identity of a track within one dataset.
#[derive(Clone, Copy, Debug, PartialEq, Eq, PartialOrd, Ord, Hash, Structural)]
pub struct TrackId(pub u32);

/// Identity of an item, unique across all tracks in one dataset; ids break
/// equal-time ties.
#[derive(Clone, Copy, Debug, PartialEq, Eq, PartialOrd, Ord, Hash, Structural)]
pub struct ItemId(pub u64);

/// Unit shared by every time coordinate in a dataset.
#[derive(Clone, Copy, Debug, PartialEq, Eq, Structural)]
pub enum TraceTimeUnit {
    /// One billionth of a second.
    Nanoseconds,
    /// One millionth of a second.
    Microseconds,
    /// One thousandth of a second.
    Milliseconds,
    /// Whole seconds.
    Seconds,
}

impl TraceTimeUnit {
    /// The unit's abbreviation used by axis and detail labels.
    pub fn symbol(&self) -> (s: &'static str)
        ensures
            *self == TraceTimeUnit::Nanoseconds ==> s@ == "ns"@,
            *self == TraceTimeUnit::Microseconds ==> s@ == "us"@,
            *self == TraceTimeUnit::Milliseconds ==> s@ == "ms"@,
            *self == TraceTimeUnit::Seconds ==> s@ == "s"@,
    {
        match self {
            TraceTimeUnit::Nanoseconds => "ns",
            TraceTimeUnit::Microseconds => "us",
            TraceTimeUnit::Milliseconds => "ms",
            TraceTimeUnit::Seconds => "s",
        }
    }
}

/// Recorded time geometry; absence is distinct from a zero-length interval.
#[derive(Clone, Copy, Debug, PartialEq, Eq, Structural)]
pub enum TraceTiming {
    /// A single observation, with no implied duration.
    Instant(i64),
    /// An explicitly supplied pair.
    Interval { start: i64, end: i64 },
    /// Only the ending observation is known.
    MissingStart { end: i64 },
    /// Only the starting observation is known.
    MissingEnd { start: i64 },
    /// No time coordinate is known.
    Untimed,
}

/// Renderer-neutral structured content for an item's detail inspector.
#[derive(Debug)]
pub enum TraceDetailBlock {
    /// A compact labeled value.
    Attribute { name: String, value: String },
    /// A labeled prose value which should not be parsed as JSON.
    Text { name: String, value: String },
    /// A labeled structured payload.
    Json { name: String, value: String },
    /// A titled group of related blocks.
    Section { title: String, blocks: Vec<TraceDetailBlock> },
    /// A compact row/column representation for related facts.
    Table { title: Option<String>, columns: Vec<String>, rows: Vec<Vec<String>> },
}

/// One selectable display observation, with caller-formatted detail fields.
#[derive(Debug)]
pub struct TraceItem {
    /// Dataset-wide stable item identity.
    pub id: ItemId,
    /// Category used consistently by the time mark, legend, and details.
    pub category: CategoryId,
    /// Short row label.
    pub label: String,
    /// Explicit time observations without inferred endpoints.
    pub timing: TraceTiming,
    /// Ordered key/value pairs.
    pub details: Vec<(String, String)>,
    /// Structured sections, tables, and payloads for richer inspectors.
    pub detail_blocks: Vec<TraceDetailBlock>,
    /// Nested endpoint or lifecycle events owned by this item.
    pub children: Vec<TraceItem>,
}

/// A named concurrent track. Items need not arrive in time order.
#[derive(Debug)]
pub struct TraceTrack {
    /// Dataset-wide stable track identity.
    pub id: TrackId,
    /// Optional flat display group.
    pub group: Option<GroupId>,
    /// Short track label.
    pub label: String,
    /// Ordered track-level attributes.
    pub details: Vec<(String, String)>,
    /// Structured sections and tables for track-level inspectors.
    pub detail_blocks: Vec<TraceDetailBlock>,
    /// Selectable observations in deterministic source order.
    pub items: Vec<TraceItem>,
}

/// A flat presentation group, with no claim about execution hierarchy.
#[derive(Clone, Debug, PartialEq, Eq)]
pub struct TraceGroup {
    /// Dataset-wide stable group identity.
    pub id: GroupId,
    /// Short group label.
    pub label: String,
}

/// Complete owned input to a trace view.
///
/// Admission accepts at most 4096 groups, 256 categories, 4096 tracks,
/// 65536 items, 32 detail pairs or blocks per item/track, 4096 UTF-8 bytes
/// per field, 8 section nesting levels, and 8 MiB of total text. Oversized
/// input is rejected without partial display.
#[derive(Debug)]
pub struct TraceData {
    /// Unit shared by every item coordinate.
    pub time_unit: TraceTimeUnit,
    /// Visual vocabulary in legend order.
    pub categories: Vec<TraceCategory>,
    /// Flat display groups in caller-selected order.
    pub groups: Vec<TraceGroup>,
    /// Tracks in caller-selected order within each group.
    pub tracks: Vec<TraceTrack>,
}

/// Invalid display input or viewport; the supplied facts are never repaired.
#[derive(Clone, Debug, PartialEq, Eq)]
pub enum TraceError {
    /// A documented admission bound was exceeded.
    LimitExceeded(&'static str),
    /// Two groups have the same identity.
    DuplicateGroup(GroupId),
    /// Two tracks have the same identity.
    DuplicateTrack(TrackId),
    /// Two items have the same identity, even across tracks.
    DuplicateItem(ItemId),
    /// Two categories have the same identity.
    DuplicateCategory(CategoryId),
    /// An item references a category absent from the dataset.
    UnknownCategory(CategoryId),
    /// A track references a group absent from the dataset.
    UnknownGroup(GroupId),
    /// A viewport must have a strictly increasing pair of coordinates.
    InvalidTimeWindow,
}

/// The recorded coordinates of a timing, in order, without inventing any.
pub open spec fn timing_coords(t: TraceTiming) -> Seq<i64> {
    match t {
        TraceTiming::Instant(at) => seq![at],
        TraceTiming::Interval { start, end } => seq![start, end],
        TraceTiming::MissingStart { end } => seq![end],
        TraceTiming::MissingEnd { start } => seq![start],
        TraceTiming::Untimed => Seq::empty(),
    }
}

impl TraceTiming {
    /// Recorded coordinates without creating absent endpoints.
    pub fn coordinates(self) -> (c: [Option<i64>; 2])
        ensures
            c@ == (match self {
                TraceTiming::Instant(at) => seq![Some(at), None],
                TraceTiming::Interval { start, end } => seq![Some(start), Some(end)],
                TraceTiming::MissingStart { end } => seq![Some(end), None],
                TraceTiming::MissingEnd { start } => seq![Some(start), None],
                TraceTiming::Untimed => seq![None, None],
            }),
    {
        let c = match self {
            TraceTiming::Instant(at) => [Some(at), None],
            TraceTiming::Interval { start, end } => [Some(start), Some(end)],
            TraceTiming::MissingStart { end } => [Some(end), None],
            TraceTiming::MissingEnd { start } => [Some(start), None],
            TraceTiming::Untimed => [None, None],
        };
        assert(c@ =~= (match self {
            TraceTiming::Instant(at) => seq![Some(at), None],
            TraceTiming::Interval { start, end } => seq![Some(start), Some(end)],
            TraceTiming::MissingStart { end } => seq![Some(end), None],
            TraceTiming::MissingEnd { start } => seq![Some(start), None],
            TraceTiming::Untimed => seq![None, None],
        }));
        c
    }
}

} // verus!
