//! Properties of the markdown renderer that hold for every input.

use vstd::prelude::*;

use crate::markdown::render::{
    closes_quote, law_quote_depth_per_event, opens_quote, spec_render, spec_run, MdEvent, MdTag,
};
use crate::markdown::text::{begins_with_dash, spec_truncate};
use crate::markdown::wrap::{
    spec_truncate_frags, spec_wrap, wrap_fold, wrap_step, span_chunks, Frag, WrapState,
};

verus! {

/// Rendering never yields an empty list of lines.
pub proof fn law_render_has_a_line(events: Seq<MdEvent>, max_width: usize)
    ensures
        spec_render(events, max_width).len() >= 1,
{
}

/// Whether every line after the first starts with a fragment, and that
/// fragment does not begin with a dash.
pub open spec fn continuations_dash_free(lines: Seq<Seq<Frag>>) -> bool {
    forall|k: int|
        1 <= k < lines.len() ==> (#[trigger] lines[k]).len() > 0 && !begins_with_dash(lines[k][0].0)
}

/// The state invariant behind the dash law: finished continuation lines
/// and the open line, when it is a continuation line, start with a
/// fragment that does not begin with a dash; there is a finished line
/// whenever the open line is a continuation line.
spec fn wrap_inv(st: WrapState) -> bool {
    &&& continuations_dash_free(st.lines)
    &&& !st.first ==> st.lines.len() >= 1 && st.line.len() > 0 && !begins_with_dash(st.line[0].0)
    &&& st.first ==> st.lines.len() == 0
}

proof fn lemma_wrap_inv(chunks: Seq<Frag>, first_width: usize, cont_width: usize)
    ensures
        wrap_inv(wrap_fold(chunks, first_width, cont_width)),
    decreases chunks.len(),
{
    if chunks.len() > 0 {
        lemma_wrap_inv(chunks.drop_last(), first_width, cont_width);
        let st = wrap_fold(chunks.drop_last(), first_width, cont_width);
        let next = wrap_step(st, chunks.last(), first_width, cont_width);
        assert(wrap_inv(next)) by {
            if next.lines.len() > st.lines.len() {
                assert forall|k: int| 1 <= k < next.lines.len() implies (#[trigger] next.lines[k]).len() > 0
                    && !begins_with_dash(next.lines[k][0].0) by {
                    if k < st.lines.len() {
                        assert(next.lines[k] == st.lines[k]);
                    }
                }
            }
        }
    }
}

/// A paragraph never continues on a line whose first fragment begins with
/// a dash: a dash-initial chunk stays on the line before, even past the
/// width.
pub proof fn law_continuation_lines_do_not_start_with_dash(
    spans: Seq<Frag>,
    first_width: usize,
    cont_width: usize,
)
    ensures
        continuations_dash_free(spec_wrap(spans, first_width, cont_width)),
{
    if spans.len() > 0 {
        let st = wrap_fold(span_chunks(spans), first_width, cont_width);
        lemma_wrap_inv(span_chunks(spans), first_width, cont_width);
        let out = spec_wrap(spans, first_width, cont_width);
        assert forall|k: int| 1 <= k < out.len() implies (#[trigger] out[k]).len() > 0 && !begins_with_dash(
            out[k][0].0,
        ) by {
            if k < st.lines.len() {
                assert(out[k] == st.lines[k]);
            } else {
                assert(out[k] == st.line);
            }
        }
    }
}

/// Truncated text has at most `max_chars` characters, when that is at
/// least one.
pub proof fn law_truncate_fits(s: Seq<char>, max_chars: usize)
    requires
        max_chars >= 1,
    ensures
        spec_truncate(s, max_chars).len() <= max_chars,
{
}

/// The number of characters of a line of fragments.
pub open spec fn frag_chars(fs: Seq<Frag>) -> nat
    decreases fs.len(),
{
    if fs.len() == 0 {
        0
    } else {
        frag_chars(fs.drop_last()) + fs.last().0.len()
    }
}

/// Truncated fragments, ellipsis included, have at most `max_chars`
/// characters, when that is at least one.
pub proof fn law_truncated_fragments_fit(fs: Seq<Frag>, max_chars: usize)
    requires
        max_chars >= 1,
    ensures
        frag_chars(spec_truncate_frags(fs, max_chars)) <= max_chars,
{
    lemma_take_frags_chars(fs, (max_chars - 1) as nat);
    let t = crate::markdown::wrap::take_frags(fs, (max_chars - 1) as nat);
    let r = spec_truncate_frags(fs, max_chars);
    assert(r.drop_last() =~= t);
}

proof fn lemma_frag_chars_prepend(f: Frag, fs: Seq<Frag>)
    ensures
        frag_chars(seq![f] + fs) == f.0.len() + frag_chars(fs),
    decreases fs.len(),
{
    if fs.len() == 0 {
        assert(seq![f] + fs =~= seq![f]);
        assert(seq![f].drop_last() =~= Seq::<Frag>::empty());
        reveal_with_fuel(frag_chars, 2);
    } else {
        lemma_frag_chars_prepend(f, fs.drop_last());
        assert((seq![f] + fs).drop_last() =~= seq![f] + fs.drop_last());
        assert((seq![f] + fs).last() == fs.last());
    }
}

proof fn lemma_take_frags_chars(fs: Seq<Frag>, remaining: nat)
    ensures
        frag_chars(crate::markdown::wrap::take_frags(fs, remaining)) <= remaining,
    decreases fs.len(),
{
    let t = crate::markdown::wrap::take_frags(fs, remaining);
    if fs.len() == 0 || remaining == 0 {
    } else if fs[0].0.len() <= remaining {
        let rest = (remaining - fs[0].0.len()) as nat;
        lemma_take_frags_chars(fs.drop_first(), rest);
        lemma_frag_chars_prepend(fs[0], crate::markdown::wrap::take_frags(fs.drop_first(), rest));
    } else {
        let f = (fs[0].0.take(remaining as int), fs[0].1);
        assert(seq![f].drop_last() =~= Seq::<Frag>::empty());
        reveal_with_fuel(frag_chars, 2);
        assert(t == seq![f]);
    }
}

/// The number of blockquotes that `evs` opens.
pub open spec fn quote_opens(evs: Seq<MdEvent>) -> nat
    decreases evs.len(),
{
    if evs.len() == 0 {
        0
    } else {
        quote_opens(evs.drop_last()) + if opens_quote(evs.last()) {
            1nat
        } else {
            0nat
        }
    }
}

/// The number of blockquotes that `evs` closes.
pub open spec fn quote_closes(evs: Seq<MdEvent>) -> nat
    decreases evs.len(),
{
    if evs.len() == 0 {
        0
    } else {
        quote_closes(evs.drop_last()) + if closes_quote(evs.last()) {
            1nat
        } else {
            0nat
        }
    }
}

/// Whether no prefix of `evs` closes more blockquotes than it has opened.
pub open spec fn quotes_nest(evs: Seq<MdEvent>) -> bool {
    forall|k: int|
        0 <= k <= evs.len() ==> quote_closes(#[trigger] evs.take(k)) <= quote_opens(evs.take(k))
}

/// Law: after any events `before`, a run of events `more` in which no prefix
/// closes more blockquotes than it opened changes the quote depth by the
/// number of blockquotes it opens minus the number it closes.
pub proof fn law_quote_depth_follows_nesting(before: Seq<MdEvent>, more: Seq<MdEvent>, max_width: usize)
    requires
        quotes_nest(more),
    ensures
        spec_run(before + more, max_width).depth == spec_run(before, max_width).depth + quote_opens(
            more,
        ) - quote_closes(more),
    decreases more.len(),
{
    if more.len() == 0 {
        assert(before + more =~= before);
    } else {
        let init = more.drop_last();
        assert forall|k: int| 0 <= k <= init.len() implies quote_closes(#[trigger] init.take(k))
            <= quote_opens(init.take(k)) by {
            assert(init.take(k) =~= more.take(k));
        }
        law_quote_depth_follows_nesting(before, init, max_width);
        assert((before + more).drop_last() =~= before + init);
        assert((before + more).last() == more.last());
        assert(more.take(more.len() as int) =~= more);
        law_quote_depth_per_event(spec_run(before + init, max_width), more.last(), max_width);
    }
}

/// Law: the quote depth after a run of events in which no prefix closes more
/// blockquotes than it opened is the number of blockquotes opened minus the
/// number closed; so text after the last of them is closed has no `> `.
pub proof fn law_quote_depth_counts_open_quotes(evs: Seq<MdEvent>, max_width: usize)
    requires
        quotes_nest(evs),
    ensures
        spec_run(evs, max_width).depth == quote_opens(evs) - quote_closes(evs),
{
    law_quote_depth_follows_nesting(seq![], evs, max_width);
    assert(seq![] + evs =~= evs);
}

/// Law: closing a blockquote restores the quote depth it had at its start:
/// after any events `before`, the start of a blockquote, events `inner` (which closes
/// every blockquote it opens and never more), and the blockquote's end
/// leave the depth that `before` left.
pub proof fn law_closed_quote_restores_depth(before: Seq<MdEvent>, inner: Seq<MdEvent>, max_width: usize)
    requires
        quotes_nest(inner),
        quote_opens(inner) == quote_closes(inner),
    ensures
        spec_run(
            before + seq![MdEvent::Start(MdTag::BlockQuote)] + inner + seq![MdEvent::End(MdTag::BlockQuote)],
            max_width,
        ).depth == spec_run(before, max_width).depth,
{
    let opened = before + seq![MdEvent::Start(MdTag::BlockQuote)];
    let body = opened + inner;
    let all = body + seq![MdEvent::End(MdTag::BlockQuote)];
    assert(opened.drop_last() =~= before);
    law_quote_depth_per_event(spec_run(before, max_width), MdEvent::Start(MdTag::BlockQuote), max_width);
    law_quote_depth_follows_nesting(opened, inner, max_width);
    assert(all.drop_last() =~= body);
    law_quote_depth_per_event(spec_run(body, max_width), MdEvent::End(MdTag::BlockQuote), max_width);
}

} // verus!
