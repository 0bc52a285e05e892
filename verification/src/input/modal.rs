//! Display metadata of modal key bindings, and the rules that pick hints and
//! intents from bindings whose guards and resolvers have been evaluated.

use vstd::prelude::*;

verus! {

/// Display metadata of a key binding.
#[derive(Clone, Copy, Debug, PartialEq, Eq)]
pub struct HotkeyHint {
    pub key: &'static str,
    pub action: &'static str,
    pub description: &'static str,
}

/// A labeled modal context that appears in grouped help output.
#[derive(Clone, Debug, PartialEq, Eq)]
pub struct HelpContext<C> {
    pub title: &'static str,
    pub context: C,
}

/// One grouped section of help content.
#[derive(Clone, Debug, PartialEq, Eq)]
pub struct HotkeySection {
    pub title: &'static str,
    pub hints: Vec<HotkeyHint>,
}

/// A binding as the hint rules read it: its display metadata, and whether
/// its guard admits it (true when it has no guard or no state is consulted).
#[derive(Clone, Copy, Debug, PartialEq, Eq)]
pub struct BindingHint {
    pub hint: HotkeyHint,
    pub admitted: bool,
}

/// Whether a binding is shown: it has a key label and is admitted.
pub open spec fn shown(b: BindingHint) -> bool {
    b.hint.key@.len() > 0 && b.admitted
}

/// The hints of the shown bindings, in order.
pub open spec fn spec_hints(bs: Seq<BindingHint>) -> Seq<HotkeyHint>
    decreases bs.len(),
{
    if bs.len() == 0 {
        Seq::empty()
    } else if shown(bs.last()) {
        spec_hints(bs.drop_last()).push(bs.last().hint)
    } else {
        spec_hints(bs.drop_last())
    }
}

/// Hints for bindings with a key label whose guards admit them, in binding
/// order; bindings with an empty label are hidden.
pub fn collect_hints(bindings: &Vec<BindingHint>) -> (r: Vec<HotkeyHint>)
    ensures
        r@ == spec_hints(bindings@),
{
    let mut out: Vec<HotkeyHint> = Vec::new();
    let mut i: usize = 0;
    while i < bindings.len()
        invariant
            i <= bindings@.len(),
            out@ == spec_hints(bindings@.take(i as int)),
        decreases bindings@.len() - i,
    {
        let b = bindings[i];
        assert(bindings@.take(i + 1).drop_last() =~= bindings@.take(i as int));
        assert(bindings@.take(i + 1).last() == b);
        if !b.hint.key.is_empty() && b.admitted {
            out.push(b.hint);
        }
        i += 1;
    }
    assert(bindings@.take(bindings@.len() as int) =~= bindings@);
    out
}

/// Grouped help: for each context, its title with the hints of its bindings
/// that have a key label, guards not evaluated (each binding admitted).
pub fn all_hints(contexts: &Vec<(&'static str, Vec<HotkeyHint>)>) -> (r: Vec<HotkeySection>)
    ensures
        r@.len() == contexts@.len(),
        forall|i: int|
            0 <= i < contexts@.len() ==> (#[trigger] r@[i]).title == contexts@[i].0 && r@[i].hints@ == spec_hints(
                contexts@[i].1@.map_values(|h: HotkeyHint| BindingHint { hint: h, admitted: true }),
            ),
{
    let mut out: Vec<HotkeySection> = Vec::new();
    let mut i: usize = 0;
    while i < contexts.len()
        invariant
            i <= contexts@.len(),
            out@.len() == i,
            forall|k: int|
                0 <= k < i ==> (#[trigger] out@[k]).title == contexts@[k].0 && out@[k].hints@ == spec_hints(
                    contexts@[k].1@.map_values(|h: HotkeyHint| BindingHint { hint: h, admitted: true }),
                ),
        decreases contexts@.len() - i,
    {
        let hints = &contexts[i].1;
        let mut bindings: Vec<BindingHint> = Vec::new();
        let mut j: usize = 0;
        while j < hints.len()
            invariant
                j <= hints@.len(),
                bindings@ == hints@.take(j as int).map_values(|h: HotkeyHint| BindingHint { hint: h, admitted: true }),
            decreases hints@.len() - j,
        {
            bindings.push(BindingHint { hint: hints[j], admitted: true });
            j += 1;
            assert(bindings@ =~= hints@.take(j as int).map_values(
                |h: HotkeyHint| BindingHint { hint: h, admitted: true },
            ));
        }
        assert(hints@.take(hints@.len() as int) =~= hints@);
        out.push(HotkeySection { title: contexts[i].0, hints: collect_hints(&bindings) });
        i += 1;
    }
    out
}

/// A binding as intent resolution reads it: whether its guard admits it,
/// and whether its resolver turned the key into an intent.
#[derive(Clone, Copy, Debug, PartialEq, Eq)]
pub struct Candidate {
    pub admitted: bool,
    pub resolves: bool,
}

/// Whether a candidate yields the intent.
pub open spec fn wins(c: Candidate) -> bool {
    c.admitted && c.resolves
}

/// Position of the first admitted binding that resolves the key, if any.
pub fn first_match(candidates: &Vec<Candidate>) -> (r: Option<usize>)
    ensures
        match r {
            Some(i) => i < candidates@.len() && wins(candidates@[i as int]) && forall|j: int|
                0 <= j < i ==> !wins(#[trigger] candidates@[j]),
            None => forall|j: int| 0 <= j < candidates@.len() ==> !wins(#[trigger] candidates@[j]),
        },
{
    let mut i: usize = 0;
    while i < candidates.len()
        invariant
            i <= candidates@.len(),
            forall|j: int| 0 <= j < i ==> !wins(#[trigger] candidates@[j]),
        decreases candidates@.len() - i,
    {
        let c = candidates[i];
        if c.admitted && c.resolves {
            return Some(i);
        }
        i += 1;
    }
    None
}

} // verus!
