//! Column layout of a flame-graph row (a label zone, a gap and a bar zone),
//! and the flattening of the span tree into the rows that are visible.

use vstd::prelude::*;

use crate::widget::flame_graph::data::{
    find_node, find_span, find_span_forest, forest_span_height, span_height, SpanId, SpanTree,
};

verus! {

/// Widest label zone.
pub const MAX_LABEL_ZONE: u16 = 18;
/// Narrowest label zone shown next to bars.
pub const MIN_LABEL_ZONE: u16 = 6;
/// Narrowest bar zone worth drawing.
pub const MIN_BAR_ZONE: u16 = 4;
/// Narrowest width that shows both labels and bars.
pub const MIN_DETAILED_WIDTH: u16 = 11;

/// How a row's width is split between labels and bars.
#[derive(Clone, Copy, Debug, PartialEq, Eq, Structural)]
pub struct RowLayout {
    pub label_zone: u16,
    pub gap: u16,
    pub bar_zone: u16,
}

/// The layout for a row `total` columns wide: a third of the width (clamped
/// to `[MIN_LABEL_ZONE, MAX_LABEL_ZONE]`) for labels, one column of gap, and
/// the rest for bars; when the bars would get fewer than `MIN_BAR_ZONE`
/// columns beside a minimal label zone, the whole width goes to labels.
pub open spec fn spec_row_layout(total: u16) -> RowLayout {
    if total == 0 {
        RowLayout { label_zone: 0, gap: 0, bar_zone: 0 }
    } else {
        let third = total / 3;
        let desired = if third < MIN_LABEL_ZONE {
            MIN_LABEL_ZONE
        } else if third > MAX_LABEL_ZONE {
            MAX_LABEL_ZONE
        } else {
            third
        };
        let max_label = total - 1 - MIN_BAR_ZONE;
        if max_label < MIN_LABEL_ZONE {
            RowLayout { label_zone: total, gap: 0, bar_zone: 0 }
        } else {
            let label = if desired <= max_label { desired } else { max_label as u16 };
            RowLayout { label_zone: label, gap: 1, bar_zone: (total - 1 - label) as u16 }
        }
    }
}

impl RowLayout {
    /// The layout for a row `total_width` columns wide.
    pub fn for_width(total_width: u16) -> (l: Self)
        ensures
            l == spec_row_layout(total_width),
            l.label_zone + l.gap + l.bar_zone == total_width,
    {
        if total_width == 0 {
            return RowLayout { label_zone: 0, gap: 0, bar_zone: 0 };
        }
        let third = total_width / 3;
        let desired = if third < MIN_LABEL_ZONE {
            MIN_LABEL_ZONE
        } else if third > MAX_LABEL_ZONE {
            MAX_LABEL_ZONE
        } else {
            third
        };
        let max_label_zone = total_width.saturating_sub(1).saturating_sub(MIN_BAR_ZONE);
        if max_label_zone < MIN_LABEL_ZONE {
            return RowLayout { label_zone: total_width, gap: 0, bar_zone: 0 };
        }
        let label_zone = if desired <= max_label_zone { desired } else { max_label_zone };
        let bar_zone = total_width.saturating_sub(1).saturating_sub(label_zone);
        RowLayout { label_zone, gap: 1, bar_zone }
    }

    /// Column where the bars begin.
    pub fn bar_start(self) -> (c: u16)
        requires
            self.label_zone + self.gap <= u16::MAX,
        ensures
            c == self.label_zone + self.gap,
    {
        self.label_zone + self.gap
    }

    /// Whether the bar zone is wide enough to draw.
    pub fn shows_bars(self) -> (b: bool)
        ensures
            b == (self.bar_zone >= MIN_BAR_ZONE),
    {
        self.bar_zone >= MIN_BAR_ZONE
    }
}

/// Width of the bar zone of a row `total_width` columns wide.
pub fn bar_zone_width(total_width: u16) -> (w: u16)
    ensures
        w == spec_row_layout(total_width).bar_zone,
{
    RowLayout::for_width(total_width).bar_zone
}


/// What kind of row this is in the flattened layout.
#[derive(Clone, Copy, Debug, PartialEq, Eq, Structural)]
pub enum RowKind {
    /// A span bar, at its nesting depth below the visual root.
    Span { span_id: SpanId, depth: u16 },
    /// A cost-type legend line for a span.
    Legend { span_id: SpanId },
}

/// One row in the flattened, visible flame graph layout.
#[derive(Clone, Copy, Debug, PartialEq, Eq, Structural)]
pub struct FlameRow {
    pub kind: RowKind,
}

/// What decides which rows are visible: the path from the root to the
/// cursor, the spans whose disclosure is animating, the span whose legend
/// is open, and the focused span.
pub struct RowContext {
    pub path: Seq<SpanId>,
    pub animating: Seq<SpanId>,
    pub legend_for: Option<SpanId>,
    pub focus: Option<SpanId>,
}

/// Whether `id` is on the path and is not its last element: an expanded
/// ancestor of the cursor.
pub open spec fn expanded_on_path(path: Seq<SpanId>, id: SpanId) -> bool {
    path.contains(id) && path.last() != id
}

/// Whether a span's children are shown: it is expanded on the path, it is
/// the focused span, or its disclosure is animating.
pub open spec fn shows_children(ctx: RowContext, id: SpanId) -> bool {
    expanded_on_path(ctx.path, id) || ctx.focus == Some(id) || ctx.animating.contains(id)
}

/// Index of the first child, from `from` on, that is expanded on the path.
pub open spec fn first_path_child(cs: Seq<SpanTree>, path: Seq<SpanId>, from: int) -> Option<int>
    decreases cs.len() - from,
{
    if from < 0 || from >= cs.len() {
        None
    } else if expanded_on_path(path, cs[from].id) {
        Some(from)
    } else {
        first_path_child(cs, path, from + 1)
    }
}

/// The rows of span `n` at `depth` and of its visible descendants: the span,
/// its legend when open, then its children when shown, the child expanded on
/// the path first and the others in order.
pub open spec fn flat_span(n: SpanTree, ctx: RowContext, depth: nat) -> Seq<FlameRow>
    decreases n,
{
    let head = seq![FlameRow { kind: RowKind::Span { span_id: n.id, depth: depth as u16 } }];
    let legend = if ctx.legend_for == Some(n.id) {
        seq![FlameRow { kind: RowKind::Legend { span_id: n.id } }]
    } else {
        Seq::empty()
    };
    let cs = n.children@;
    let below = if !shows_children(ctx, n.id) {
        Seq::empty()
    } else {
        match first_path_child(cs, ctx.path, 0) {
            Some(i) => if 0 <= i < cs.len() {
                flat_span(cs[i], ctx, depth + 1) + flat_spans(cs.subrange(0, i), ctx, depth + 1)
                    + flat_spans(cs.subrange(i + 1, cs.len() as int), ctx, depth + 1)
            } else {
                flat_spans(cs, ctx, depth + 1)
            },
            None => flat_spans(cs, ctx, depth + 1),
        }
    };
    head + legend + below
}

/// The rows of a list of sibling spans, in order.
pub open spec fn flat_spans(ns: Seq<SpanTree>, ctx: RowContext, depth: nat) -> Seq<FlameRow>
    decreases ns,
{
    if ns.len() == 0 {
        Seq::empty()
    } else {
        flat_span(ns[0], ctx, depth) + flat_spans(ns.drop_first(), ctx, depth)
    }
}

/// The visible rows: those of the focused span as the visual root when it
/// is set and found, otherwise those of the root.
pub open spec fn spec_visible_rows(root: SpanTree, ctx: RowContext) -> Seq<FlameRow> {
    match ctx.focus {
        Some(f) => match find_span(root, f) {
            Some(n) => flat_span(n, ctx, 0),
            None => flat_span(root, ctx, 0),
        },
        None => flat_span(root, ctx, 0),
    }
}

proof fn lemma_member_height(ns: Seq<SpanTree>, i: int)
    requires
        0 <= i < ns.len(),
    ensures
        span_height(ns[i]) <= forest_span_height(ns),
    decreases ns.len(),
{
    if i > 0 {
        lemma_member_height(ns.drop_first(), i - 1);
        assert(ns.drop_first()[i - 1] == ns[i]);
    }
}

proof fn lemma_subrange_height(ns: Seq<SpanTree>, lo: int, hi: int)
    requires
        0 <= lo <= hi <= ns.len(),
    ensures
        forest_span_height(ns.subrange(lo, hi)) <= forest_span_height(ns),
    decreases hi - lo,
{
    let sub = ns.subrange(lo, hi);
    if lo < hi {
        lemma_member_height(ns, lo);
        lemma_subrange_height(ns, lo + 1, hi);
        assert(sub.drop_first() =~= ns.subrange(lo + 1, hi));
        assert(sub[0] == ns[lo]);
    }
}

pub(crate) proof fn lemma_find_height(n: SpanTree, t: SpanId)
    ensures
        match find_span(n, t) {
            Some(m) => span_height(m) <= span_height(n),
            None => true,
        },
    decreases n, 0nat,
{
    if n.id != t {
        lemma_find_forest_height(n.children@, t);
    }
}

proof fn lemma_find_forest_height(ns: Seq<SpanTree>, t: SpanId)
    ensures
        match find_span_forest(ns, t) {
            Some(m) => span_height(m) <= forest_span_height(ns),
            None => true,
        },
    decreases ns, 1nat,
{
    if ns.len() > 0 {
        lemma_find_height(ns[0], t);
        lemma_find_forest_height(ns.drop_first(), t);
    }
}

pub(crate) proof fn lemma_first_path_child(cs: Seq<SpanTree>, path: Seq<SpanId>, from: int)
    requires
        0 <= from,
    ensures
        match first_path_child(cs, path, from) {
            Some(i) => from <= i < cs.len() && expanded_on_path(path, cs[i].id) && forall|j: int|
                from <= j < i ==> !expanded_on_path(path, #[trigger] cs[j].id),
            None => forall|j: int| from <= j < cs.len() ==> !expanded_on_path(path, #[trigger] cs[j].id),
        },
    decreases cs.len() - from,
{
    if 0 <= from < cs.len() && !expanded_on_path(path, cs[from].id) {
        lemma_first_path_child(cs, path, from + 1);
    }
}

/// Whether `id` occurs in the list.
pub fn contains_span(ids: &Vec<SpanId>, id: SpanId) -> (b: bool)
    ensures
        b == ids@.contains(id),
{
    let mut i: usize = 0;
    while i < ids.len()
        invariant
            i <= ids@.len(),
            forall|j: int| 0 <= j < i ==> ids@[j] != id,
        decreases ids@.len() - i,
    {
        if ids[i] == id {
            assert(ids@[i as int] == id);
            return true;
        }
        i += 1;
    }
    false
}

/// Whether `id` is on the path and is not its last element.
pub fn is_expanded_on_path(path: &Vec<SpanId>, id: SpanId) -> (b: bool)
    ensures
        b == expanded_on_path(path@, id),
{
    contains_span(path, id) && path[path.len() - 1] != id
}

/// The executable form of a row context.
pub struct RowInputs<'a> {
    pub path: &'a Vec<SpanId>,
    pub animating: &'a Vec<SpanId>,
    pub legend_for: Option<SpanId>,
    pub focus: Option<SpanId>,
}

/// The row context an executable one stands for.
pub open spec fn ctx_of(inputs: RowInputs) -> RowContext {
    RowContext {
        path: inputs.path@,
        animating: inputs.animating@,
        legend_for: inputs.legend_for,
        focus: inputs.focus,
    }
}

fn flatten_node(node: &SpanTree, depth: u16, inputs: &RowInputs, out: &mut Vec<FlameRow>)
    requires
        depth + span_height(*node) <= 65536,
    ensures
        final(out)@ == old(out)@ + flat_span(*node, ctx_of(*inputs), depth as nat),
    decreases *node, 0nat,
{
    let ghost ctx = ctx_of(*inputs);
    let ghost start = out@;
    out.push(FlameRow { kind: RowKind::Span { span_id: node.id, depth } });
    if inputs.legend_for == Some(node.id) {
        out.push(FlameRow { kind: RowKind::Legend { span_id: node.id } });
    }
    let ghost after_head = out@;
    let show = is_expanded_on_path(inputs.path, node.id) || inputs.focus == Some(node.id) || contains_span(
        inputs.animating,
        node.id,
    );
    let cs = &node.children;
    if show && cs.len() > 0 {
        proof {
            lemma_first_path_child(cs@, ctx.path, 0);
        }
        let mut idx: usize = 0;
        while idx < cs.len() && !is_expanded_on_path(inputs.path, cs[idx].id)
            invariant
                idx <= cs@.len(),
                first_path_child(cs@, ctx.path, 0) == first_path_child(cs@, ctx.path, idx as int),
                ctx == ctx_of(*inputs),
            decreases cs@.len() - idx,
        {
            idx += 1;
        }
        proof {
            lemma_member_height(cs@, 0);
        }
        let next: u16 = depth + 1;
        if idx < cs.len() {
            proof {
                lemma_member_height(cs@, idx as int);
                lemma_subrange_height(cs@, 0, idx as int);
                lemma_subrange_height(cs@, idx + 1, cs@.len() as int);
            }
            let ghost b0 = out@;
            flatten_node(&cs[idx], next, inputs, out);
            let ghost b1 = out@;
            flatten_range(cs, 0, idx, next, inputs, out);
            let ghost b2 = out@;
            flatten_range(cs, idx + 1, cs.len(), next, inputs, out);
            assert(out@ =~= after_head + (flat_span(cs@[idx as int], ctx, next as nat) + flat_spans(
                cs@.subrange(0, idx as int),
                ctx,
                next as nat,
            ) + flat_spans(cs@.subrange(idx + 1, cs@.len() as int), ctx, next as nat)));
        } else {
            assert(first_path_child(cs@, ctx.path, idx as int) is None);
            assert(cs@.subrange(0, cs@.len() as int) =~= cs@);
            flatten_range(cs, 0, cs.len(), next, inputs, out);
        }
    } else if cs.len() == 0 {
        assert(flat_spans(cs@, ctx, (depth + 1) as nat) =~= Seq::<FlameRow>::empty());
    }
    proof {
        assert(ctx.legend_for == inputs.legend_for);
    }
    assert(out@ =~= start + flat_span(*node, ctx, depth as nat)) by {
        if ctx.legend_for == Some(node.id) {
        }
    }
}

fn flatten_range(
    nodes: &Vec<SpanTree>,
    lo: usize,
    hi: usize,
    depth: u16,
    inputs: &RowInputs,
    out: &mut Vec<FlameRow>,
)
    requires
        lo <= hi <= nodes@.len(),
        depth + forest_span_height(nodes@.subrange(lo as int, hi as int)) <= 65536,
    ensures
        final(out)@ == old(out)@ + flat_spans(nodes@.subrange(lo as int, hi as int), ctx_of(*inputs), depth as nat),
    decreases nodes@.subrange(lo as int, hi as int), 1nat,
{
    let ghost ctx = ctx_of(*inputs);
    let ghost all = nodes@.subrange(lo as int, hi as int);
    let ghost start = out@;
    let mut i: usize = lo;
    while i < hi
        invariant
            lo <= i <= hi <= nodes@.len(),
            all == nodes@.subrange(lo as int, hi as int),
            ctx == ctx_of(*inputs),
            depth + forest_span_height(all) <= 65536,
            out@ + flat_spans(nodes@.subrange(i as int, hi as int), ctx, depth as nat) == start + flat_spans(
                all,
                ctx,
                depth as nat,
            ),
        decreases hi - i,
    {
        let ghost rest = nodes@.subrange(i as int, hi as int);
        proof {
            assert(rest[0] == nodes@[i as int]);
            assert(rest.drop_first() =~= nodes@.subrange(i + 1, hi as int));
            assert(all[i - lo] == nodes@[i as int]);
            lemma_member_height(all, i - lo);
        }
        let ghost before = out@;
        flatten_node(&nodes[i], depth, inputs, out);
        proof {
            assert(before + flat_spans(rest, ctx, depth as nat) =~= out@ + flat_spans(rest.drop_first(), ctx, depth as nat));
        }
        i += 1;
    }
    assert(nodes@.subrange(i as int, hi as int) =~= Seq::<SpanTree>::empty());
    assert(out@ + Seq::<FlameRow>::empty() =~= out@);
}

/// Flatten the span tree into its visible rows: the focused span as visual
/// root when it is set and found, otherwise the root; a span's children
/// follow it when shown, the child expanded on the path first.
pub fn flatten_visible_rows(
    root: &SpanTree,
    path: &Vec<SpanId>,
    animating: &Vec<SpanId>,
    legend_for: Option<SpanId>,
    focus: Option<SpanId>,
) -> (rows: Vec<FlameRow>)
    requires
        span_height(*root) <= 65536,
    ensures
        rows@ == spec_visible_rows(
            *root,
            RowContext { path: path@, animating: animating@, legend_for, focus },
        ),
{
    let inputs = RowInputs { path, animating, legend_for, focus };
    let mut rows: Vec<FlameRow> = Vec::new();
    let mut start: &SpanTree = root;
    if let Some(f) = focus {
        proof {
            lemma_find_height(*root, f);
        }
        if let Some(n) = find_node(root, f) {
            start = n;
        }
    }
    flatten_node(start, 0, &inputs, &mut rows);
    assert(rows@ =~= Seq::<FlameRow>::empty() + flat_span(*start, ctx_of(inputs), 0));
    rows
}

/// The span of the row at `index`, for span and legend rows alike.
pub fn span_id_at(rows: &Vec<FlameRow>, index: usize) -> (r: Option<SpanId>)
    ensures
        r == spec_span_id_at(rows@, index as int),
{
    if index < rows.len() {
        match rows[index].kind {
            RowKind::Span { span_id, .. } => Some(span_id),
            RowKind::Legend { span_id } => Some(span_id),
        }
    } else {
        None
    }
}

/// The span of the row at `index`, if there is such a row.
pub open spec fn spec_span_id_at(rows: Seq<FlameRow>, index: int) -> Option<SpanId> {
    if 0 <= index < rows.len() {
        match rows[index].kind {
            RowKind::Span { span_id, .. } => Some(span_id),
            RowKind::Legend { span_id } => Some(span_id),
        }
    } else {
        None
    }
}

/// Whether the row at `index` is a legend row.
pub open spec fn spec_is_legend_row(rows: Seq<FlameRow>, index: int) -> bool {
    0 <= index < rows.len() && rows[index].kind is Legend
}

/// Whether the row at `index` is a legend row.
pub fn is_legend_row(rows: &Vec<FlameRow>, index: usize) -> (b: bool)
    ensures
        b == spec_is_legend_row(rows@, index as int),
{
    index < rows.len() && match rows[index].kind {
        RowKind::Legend { .. } => true,
        RowKind::Span { .. } => false,
    }
}

/// Whether the row is the span row of `id`.
pub open spec fn is_span_row(r: FlameRow, id: SpanId) -> bool {
    r.kind matches RowKind::Span { span_id, .. } && span_id == id
}

/// Index of the first span row of `id`.
pub open spec fn span_row_index(rows: Seq<FlameRow>, id: SpanId) -> Option<int> {
    if exists|i: int| 0 <= i < rows.len() && is_span_row(#[trigger] rows[i], id) {
        Some(
            choose|i: int|
                0 <= i < rows.len() && is_span_row(rows[i], id) && forall|j: int|
                    0 <= j < i ==> !is_span_row(#[trigger] rows[j], id),
        )
    } else {
        None
    }
}

/// Index of the first span row of `id`.
pub fn find_span_row(rows: &Vec<FlameRow>, id: SpanId) -> (r: Option<usize>)
    ensures
        match r {
            Some(i) => span_row_index(rows@, id) == Some(i as int),
            None => span_row_index(rows@, id) is None,
        },
{
    let mut i: usize = 0;
    while i < rows.len()
        invariant
            i <= rows@.len(),
            forall|j: int| 0 <= j < i ==> !is_span_row(#[trigger] rows@[j], id),
        decreases rows@.len() - i,
    {
        let hit = match rows[i].kind {
            RowKind::Span { span_id, .. } => span_id == id,
            RowKind::Legend { .. } => false,
        };
        if hit {
            proof {
                assert(is_span_row(rows@[i as int], id));
                let w = choose|k: int|
                    0 <= k < rows@.len() && is_span_row(rows@[k], id) && forall|j: int|
                        0 <= j < k ==> !is_span_row(#[trigger] rows@[j], id);
                assert(0 <= i < rows@.len() && is_span_row(rows@[i as int], id) && forall|j: int|
                    0 <= j < i ==> !is_span_row(#[trigger] rows@[j], id));
                if w < i {
                    assert(!is_span_row(rows@[w], id));
                } else if w > i {
                    assert(!is_span_row(rows@[i as int], id));
                }
            }
            return Some(i);
        }
        i += 1;
    }
    None
}

} // verus!
