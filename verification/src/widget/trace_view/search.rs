//! Searchable text of detail blocks, and the palette slot of a role.

use vstd::prelude::*;

use crate::widget::trace_view::data::{TraceDetailBlock, TraceVisualRole};

verus! {

/// `s` followed by a space.
pub open spec fn spaced(s: Seq<char>) -> Seq<char> {
    s.push(' ')
}

/// Each text followed by a space, in order.
pub open spec fn spaced_all(ss: Seq<String>) -> Seq<char>
    decreases ss.len(),
{
    if ss.len() == 0 { Seq::empty() } else { spaced_all(ss.drop_last()) + spaced(ss.last()@) }
}

/// The cells of each row, each followed by a space, row by row.
pub open spec fn spaced_rows(rows: Seq<Vec<String>>) -> Seq<char>
    decreases rows.len(),
{
    if rows.len() == 0 { Seq::empty() } else { spaced_rows(rows.drop_last()) + spaced_all(rows.last()@) }
}

/// The searchable text of a block: every text it holds, each followed by a
/// space, in reading order.
pub open spec fn spec_search_text(b: TraceDetailBlock) -> Seq<char>
    decreases b, 1nat,
{
    match b {
        TraceDetailBlock::Attribute { name, value } => spaced(name@) + spaced(value@),
        TraceDetailBlock::Text { name, value } => spaced(name@) + spaced(value@),
        TraceDetailBlock::Json { name, value } => spaced(name@) + spaced(value@),
        TraceDetailBlock::Section { title, blocks } => spaced(title@) + spec_search_blocks(blocks@),
        TraceDetailBlock::Table { title, columns, rows } => (match title {
            Some(t) => spaced(t@),
            None => Seq::empty(),
        }) + spaced_all(columns@) + spaced_rows(rows@),
    }
}

/// The searchable text of a list of blocks, in order.
pub open spec fn spec_search_blocks(bs: Seq<TraceDetailBlock>) -> Seq<char>
    decreases bs, 0nat,
{
    if bs.len() == 0 { Seq::empty() } else { spec_search_blocks(bs.drop_last()) + spec_search_text(bs.last()) }
}

/// Append each character, then a space.
fn push_spaced(output: &mut Vec<char>, s: &String)
    ensures
        final(output)@ == old(output)@ + spaced(s@),
{
    for c in it: s.as_str().chars()
        invariant
            output@ == old(output)@ + it.seq().take(it.index() as int),
    {
        output.push(c);
        assert(output@ =~= old(output)@ + it.seq().take(it.index() + 1));
    }
    assert(output@ =~= old(output)@ + s@);
    output.push(' ');
    assert(output@ =~= old(output)@ + spaced(s@));
}

fn push_spaced_all(output: &mut Vec<char>, ss: &Vec<String>)
    ensures
        final(output)@ == old(output)@ + spaced_all(ss@),
{
    let mut i: usize = 0;
    while i < ss.len()
        invariant
            i <= ss@.len(),
            output@ == old(output)@ + spaced_all(ss@.take(i as int)),
        decreases ss@.len() - i,
    {
        assert(ss@.take(i + 1).drop_last() =~= ss@.take(i as int));
        push_spaced(output, &ss[i]);
        assert(output@ =~= old(output)@ + spaced_all(ss@.take(i + 1)));
        i += 1;
    }
    assert(ss@.take(ss@.len() as int) =~= ss@);
}

/// Append the searchable text of each block, in order.
fn search_blocks(blocks: &Vec<TraceDetailBlock>, output: &mut Vec<char>)
    ensures
        final(output)@ == old(output)@ + spec_search_blocks(blocks@),
    decreases blocks@, 1nat,
{
    let mut i: usize = 0;
    while i < blocks.len()
        invariant
            i <= blocks@.len(),
            output@ == old(output)@ + spec_search_blocks(blocks@.take(i as int)),
        decreases blocks@.len() - i,
    {
        assert(blocks@.take(i + 1).drop_last() =~= blocks@.take(i as int));
        blocks[i].search_text(output);
        assert(output@ =~= old(output)@ + spec_search_blocks(blocks@.take(i + 1)));
        i += 1;
    }
    assert(blocks@.take(blocks@.len() as int) =~= blocks@);
}

impl TraceDetailBlock {
    /// Append the block's searchable text: every text it holds, each
    /// followed by a space, in reading order.
    pub fn search_text(&self, output: &mut Vec<char>)
        ensures
            final(output)@ == old(output)@ + spec_search_text(*self),
        decreases *self, 0nat,
    {
        match self {
            TraceDetailBlock::Attribute { name, value }
            | TraceDetailBlock::Text { name, value }
            | TraceDetailBlock::Json { name, value } => {
                push_spaced(output, name);
                push_spaced(output, value);
                assert(output@ =~= old(output)@ + spec_search_text(*self));
            },
            TraceDetailBlock::Section { title, blocks } => {
                push_spaced(output, title);
                search_blocks(blocks, output);
                assert(output@ =~= old(output)@ + spec_search_text(*self));
            },
            TraceDetailBlock::Table { title, columns, rows } => {
                if let Some(t) = title {
                    push_spaced(output, t);
                }
                let ghost mid = output@;
                push_spaced_all(output, columns);
                let ghost mid2 = output@;
                let mut i: usize = 0;
                while i < rows.len()
                    invariant
                        i <= rows@.len(),
                        output@ == mid2 + spaced_rows(rows@.take(i as int)),
                    decreases rows@.len() - i,
                {
                    assert(rows@.take(i + 1).drop_last() =~= rows@.take(i as int));
                    push_spaced_all(output, &rows[i]);
                    assert(output@ =~= mid2 + spaced_rows(rows@.take(i + 1)));
                    i += 1;
                }
                assert(rows@.take(rows@.len() as int) =~= rows@);
                assert(output@ =~= old(output)@ + spec_search_text(*self));
            },
        }
    }
}

/// The palette slot of a role: neutral, scheduled, success, warning,
/// failure in that order.
pub fn role_index(role: TraceVisualRole) -> (i: usize)
    ensures
        i == (match role {
            TraceVisualRole::Neutral => 0usize,
            TraceVisualRole::Scheduled => 1,
            TraceVisualRole::Success => 2,
            TraceVisualRole::Warning => 3,
            TraceVisualRole::Failure => 4,
        }),
{
    match role {
        TraceVisualRole::Neutral => 0,
        TraceVisualRole::Scheduled => 1,
        TraceVisualRole::Success => 2,
        TraceVisualRole::Warning => 3,
        TraceVisualRole::Failure => 4,
    }
}

} // verus!
