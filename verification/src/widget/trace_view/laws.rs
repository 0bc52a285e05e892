//! Properties of trace view selection that hold in every sound state.

use vstd::prelude::*;

use crate::widget::flame_graph::data::{span_path, spec_ancestor_path, SpanId, SpanTree};
use crate::widget::flame_graph::laws::{lemma_path_shape, lemma_select_path, law_select_span_selects_it};
use crate::widget::flame_graph::state::nav_rows;
use crate::widget::trace_view::coverage::{
    has_entry, lemma_admitted_groups_known, lemma_project_records, lemma_project_within, lemma_shape_id_found,
    shape_ids,
};
use crate::widget::flame_graph::state::{first_index, lemma_first_index};
use crate::widget::trace_view::data::{GroupId, ItemId, TraceData};
use crate::widget::trace_view::identity::{admits, category_ids, first_repeat, group_ids};
use crate::widget::trace_view::projection::{
    empty_projection, in_group, proj_groups, proj_tracks, project, shape_of, shapes_of, span_kind, TraceSpan,
};
use crate::widget::trace_view::records::{
    grouped_record, group_records, has_track_record, lemma_filter_distinct, lemma_first_repeat_distinct,
    lemma_groups_records, lemma_tracks_distinct, lemma_tracks_records, record_at, track_records,
};
use crate::widget::trace_view::structure::{
    lemma_forest_ids_member, lemma_numbered_forest_range, lemma_numbered_member, lemma_path_through,
    lemma_project_numbered,
};
use crate::widget::trace_view::coverage::{forest_ids, lemma_shapes_index};
use crate::widget::trace_view::validate::size_ok;
use crate::widget::trace_view::state::{
    find_item, group_target, lookup, select_in, spec_group_collapsed, spec_selected, spec_selected_item,
    view_ok, TraceViewState,
};

verus! {

proof fn lemma_lookup_entry<K>(s: Seq<(K, SpanId)>, key: K)
    ensures
        lookup(s, key) matches Some(v) ==> exists|i: int| 0 <= i < s.len() && #[trigger] s[i] == (key, v),
    decreases s.len(),
{
    if s.len() > 0 {
        if s.last().0 == key {
            assert(s[s.len() - 1] == (key, s.last().1));
        } else {
            lemma_lookup_entry(s.drop_last(), key);
            if let Some(v) = lookup(s.drop_last(), key) {
                let i = choose|i: int| 0 <= i < s.drop_last().len() && #[trigger] s.drop_last()[i] == (key, v);
                assert(s[i] == s.drop_last()[i]);
            }
        }
    }
}

proof fn lemma_lookup_some<K>(s: Seq<(K, SpanId)>, key: K, i: int)
    requires
        0 <= i < s.len(),
        s[i].0 == key,
    ensures
        lookup(s, key) is Some,
    decreases s.len(),
{
    if s.last().0 != key {
        assert(s.drop_last()[i] == s[i]);
        lemma_lookup_some(s.drop_last(), key, i);
    }
}

/// Every top-level item of an admitted dataset can be selected by its
/// identity: its id has a recorded span, and that span is in the projected
/// tree.
pub proof fn law_every_item_is_selectable(d: TraceData, root: SpanTree, m: int, j: int)
    requires
        admits(d, Ok(())),
        shape_of(root) == project(d).0,
        0 <= m < d.tracks@.len(),
        0 <= j < d.tracks@[m].items@.len(),
    ensures
        lookup(project(d).1.items, d.tracks@[m].items@[j].id.0) matches Some(s) && spec_ancestor_path(root, s).len()
            > 0,
{
    if d.tracks@[m].group is Some {
        lemma_admitted_groups_known(d, m);
    }
    lemma_project_records(d, m, j);
    let q = project(d).1;
    let key = d.tracks@[m].items@[j].id.0;
    assert(has_entry(q, key));
    let k = choose|k: int| 0 <= k < q.items.len() && (#[trigger] q.items[k]).0 == key;
    lemma_lookup_some(q.items, key, k);
    let s = lookup(q.items, key)->0;
    lemma_lookup_entry(q.items, key);
    let i = choose|i: int| 0 <= i < q.items.len() && #[trigger] q.items[i] == (key, s);
    lemma_project_within(d);
    assert(shape_ids(project(d).0).contains(q.items[i].1));
    lemma_shape_id_found(root, s);
    lemma_path_shape(root, s);
}

/// With nothing focused, selecting an item whose span is in the tree
/// selects a row that stands for that item, and so the item itself (for any
/// state whose rows a `usize` can count).
pub proof fn law_select_item_selects_it(st: TraceViewState, id: ItemId)
    requires
        view_ok(st),
        st.nav.focus is None,
        lookup(st.index.items, id.0) matches Some(s) && spec_ancestor_path(st.nav.root, s).len() > 0,
        nav_rows(select_in(st, lookup(st.index.items, id.0)->0).nav).len() <= usize::MAX,
    ensures
        spec_selected(select_in(st, lookup(st.index.items, id.0)->0)) == Some(TraceSpan::Item(id)),
        spec_selected_item(select_in(st, lookup(st.index.items, id.0)->0)) == find_item(st.data.tracks@, id),
{
    let s = lookup(st.index.items, id.0)->0;
    law_select_span_selects_it(st.nav, s);
    lemma_lookup_entry(st.index.items, id.0);
    let i = choose|i: int| 0 <= i < st.index.items.len() && #[trigger] st.index.items[i] == (id.0, s);
    assert(span_kind(st.index.spans, st.index.items[i].1) == Some(TraceSpan::Item(ItemId(st.index.items[i].0))));
}

/// Collapsing a known group whose span is in the tree leaves the group
/// reported collapsed.
pub proof fn law_collapsed_group_is_collapsed(st: TraceViewState, g: GroupId)
    requires
        view_ok(st),
        group_target(st, g, true) matches Some(s) && spec_ancestor_path(st.nav.root, s).len() > 0,
    ensures
        spec_group_collapsed(select_in(st, group_target(st, g, true)->0), g),
{
    let s = group_target(st, g, true)->0;
    lemma_select_path(st.nav, s);
}

proof fn lemma_lookup_all<K>(s: Seq<(K, SpanId)>, key: K, v: SpanId)
    requires
        exists|i: int| 0 <= i < s.len() && #[trigger] s[i] == (key, v),
        forall|i: int| 0 <= i < s.len() && (#[trigger] s[i]).0 == key ==> s[i].1 == v,
    ensures
        lookup(s, key) == Some(v),
    decreases s.len(),
{
    let i = choose|i: int| 0 <= i < s.len() && #[trigger] s[i] == (key, v);
    if s.last().0 == key {
        assert(s[s.len() - 1] == s.last());
    } else {
        assert(i < s.len() - 1);
        assert(s.drop_last()[i] == s[i]);
        assert forall|k: int| 0 <= k < s.drop_last().len() && (#[trigger] s.drop_last()[k]).0 == key implies s.drop_last()[k].1
            == v by {
            assert(s.drop_last()[k] == s[k]);
        }
        lemma_lookup_all(s.drop_last(), key, v);
    }
}

/// Expanding a group that a track of an admitted dataset names selects the
/// span of the first such track, found in the tree, and leaves the group
/// reported expanded (in any state over that dataset's projection).
#[verifier::spinoff_prover]
#[verifier::rlimit(60)]
pub proof fn law_expanded_group_is_expanded(st: TraceViewState, g: GroupId)
    requires
        admits(st.data, Ok(())),
        st.index == project(st.data).1,
        shape_of(st.nav.root) == project(st.data).0,
        first_index(st.data.tracks@, in_group(Some(g)), 0) is Some,
    ensures
        group_target(st, g, false) matches Some(t) && spec_ancestor_path(st.nav.root, t).len() > 0,
        !spec_group_collapsed(select_in(st, group_target(st, g, false)->0), g),
{
    let d = st.data;
    let ts = d.tracks@;
    let gs = d.groups@;
    let root = st.nav.root;
    let k = first_index(ts, in_group(Some(g)), 0)->0;
    lemma_first_index(ts, in_group(Some(g)), 0);
    let tr = ts[k];
    assert(in_group(Some(g))(tr));
    lemma_admitted_groups_known(d, k);
    let gi = choose|gi: int| 0 <= gi < gs.len() && (#[trigger] gs[gi]).id == ts[k].group->0;
    assert(gs[gi].id == g);
    // Admission keeps group and track ids distinct.
    assert(size_ok(d));
    let cs = first_repeat(category_ids(d.categories@), Set::<u16>::empty())->Ok_0;
    let gset = first_repeat(group_ids(gs), Set::<u32>::empty())->Ok_0;
    lemma_first_repeat_distinct(group_ids(gs), Set::<u32>::empty());
    lemma_tracks_distinct(ts, cs, gset, Set::empty(), Set::empty());
    // The records of the projection.
    let e = empty_projection();
    let r = proj_groups(e, gs, ts);
    let fu = ts.filter(in_group(None));
    let s = proj_tracks(r.1, fu);
    lemma_groups_records(e, gs, ts);
    lemma_tracks_records(r.1, fu);
    assert(st.index.groups == group_records(gs, r.0)) by {
        assert(e.groups + group_records(gs, r.0) =~= group_records(gs, r.0));
    }
    assert(st.index.tracks == r.1.tracks + track_records(fu, s.0));
    // The group's record.
    let node = r.0[gi];
    assert forall|i: int| 0 <= i < group_records(gs, r.0).len() && (#[trigger] group_records(gs, r.0)[i]).0 == g.0
        implies group_records(gs, r.0)[i].1 == node.id by {
        if i != gi {
            assert(group_ids(gs)[i] == gs[i].id.0);
            assert(group_ids(gs)[gi] == gs[gi].id.0);
            if i < gi {
                assert(group_ids(gs)[i] != group_ids(gs)[gi]);
            } else {
                assert(group_ids(gs)[gi] != group_ids(gs)[i]);
            }
        }
    }
    assert(group_records(gs, r.0)[gi] == (g.0, node.id));
    lemma_lookup_all(st.index.groups, g.0, node.id);
    // The track's position under its group, and its record.
    let fg = ts.filter(in_group(Some(gs[gi].id)));
    lemma_filter_distinct(ts, in_group(Some(gs[gi].id)));
    lemma_filter_distinct(ts, in_group(None));
    ts.lemma_filter_contains(in_group(Some(gs[gi].id)), k);
    let j0 = choose|j0: int| 0 <= j0 < fg.len() && fg[j0] == tr;
    let v = node.children[j0].id;
    assert(has_track_record(r.1, fg[j0].id.0, r.0[gi].children[j0].id));
    let x0 = choose|x0: int| 0 <= x0 < r.1.tracks.len() && #[trigger] r.1.tracks[x0] == (tr.id.0, v);
    let all = st.index.tracks;
    assert(all[x0] == (tr.id.0, v));
    assert forall|x: int| 0 <= x < all.len() && (#[trigger] all[x]).0 == tr.id.0 implies all[x].1 == v by {
        if x < r.1.tracks.len() {
            assert(all[x] == r.1.tracks[x]);
            assert(grouped_record(gs, ts, r.0, r.1.tracks[x]));
            let (i, j) = choose|i: int, j: int| record_at(gs, ts, r.0, r.1.tracks[x], i, j);
            let fi = ts.filter(in_group(Some(gs[i].id)));
            lemma_filter_distinct(ts, in_group(Some(gs[i].id)));
            let m = choose|m: int| 0 <= m < ts.len() && ts[m] == fi[j];
            if m != k {
                if m < k {
                    assert(ts[m].id != ts[k].id);
                } else {
                    assert(ts[k].id != ts[m].id);
                }
            }
            assert(fi[j] == tr);
            assert(in_group(Some(gs[i].id))(fi[j]));
            assert(gs[i].id == g);
            if i != gi {
                assert(group_ids(gs)[i] == gs[i].id.0);
                assert(group_ids(gs)[gi] == gs[gi].id.0);
                if i < gi {
                    assert(group_ids(gs)[i] != group_ids(gs)[gi]);
                } else {
                    assert(group_ids(gs)[gi] != group_ids(gs)[i]);
                }
            }
            if j != j0 {
                if j < j0 {
                    assert(fg[j].id != fg[j0].id);
                } else {
                    assert(fg[j0].id != fg[j].id);
                }
            }
        } else {
            let j = x - r.1.tracks.len();
            assert(all[x] == track_records(fu, s.0)[j]);
            let m = choose|m: int| 0 <= m < ts.len() && ts[m] == fu[j];
            if m != k {
                if m < k {
                    assert(ts[m].id != ts[k].id);
                } else {
                    assert(ts[k].id != ts[m].id);
                }
            }
            assert(in_group(None)(fu[j]));
        }
    }
    lemma_lookup_all(all, tr.id.0, v);
    assert(group_target(st, g, false) == Some(v));
    // The path to the track's span runs through the group's span.
    lemma_project_numbered(d);
    let kids = root.children@;
    lemma_shapes_index(kids);
    assert(shapes_of(kids) == r.0 + s.0);
    assert((r.0 + s.0)[gi] == r.0[gi]);
    let c = kids[gi];
    assert(shape_of(c) == node);
    let gk = c.children@;
    lemma_shapes_index(gk);
    assert(shapes_of(gk) == node.children);
    assert(shape_of(gk[j0]).id == v);
    assert(gk[j0].id == v);
    lemma_numbered_member(shapes_of(kids), 0, gi);
    let lo: int = crate::widget::trace_view::structure::forest_count(shapes_of(kids).take(gi)) as int;
    assert(crate::widget::trace_view::structure::numbered(shape_of(c), lo));
    assert(shape_ids(shape_of(gk[j0])).contains(v));
    lemma_forest_ids_member(shapes_of(gk), j0, v);
    assert(shape_ids(shape_of(c)) == set![c.id].union(forest_ids(shapes_of(gk))));
    assert(shape_ids(shape_of(c)).contains(v));
    lemma_path_through(root, 0, gi, v);
    lemma_path_through(c, lo, j0, v);
    assert(span_path(gk[j0], v) == Some(seq![v]));
    lemma_numbered_forest_range(shapes_of(gk), lo);
    assert(v != c.id);
    let path = spec_ancestor_path(root, v);
    assert(path == seq![root.id] + (seq![c.id] + seq![v]));
    assert(path.len() > 0);
    lemma_select_path(st.nav, v);
    assert(path[1] == c.id);
    assert(path.contains(c.id));
}

} // verus!
