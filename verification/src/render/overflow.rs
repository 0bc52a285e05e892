//! Fitting text into a number of terminal columns.

use vstd::prelude::*;

use crate::render::text::{display_width, display_width_of, string_from_chars};

verus! {

/// How a widget fits content wider than its area.
#[derive(Clone, Copy, Debug, PartialEq, Eq, Structural)]
pub enum OverflowBehavior {
    /// Cut at the edge.
    Clip,
    /// Cut, marking the cut with an ellipsis.
    Ellipsis,
    /// Switch to a compact summary.
    Summary,
}

/// The ellipsis that marks cut text.
pub open spec fn ellipsis() -> char {
    '\u{2026}'
}

/// Length of the greedy prefix of `s` from `j` on: characters are taken
/// while the prefix that includes the next one still fits in `budget`
/// columns.
pub open spec fn greedy_len(s: Seq<char>, budget: usize, j: int) -> int
    decreases s.len() - j,
{
    if j >= s.len() || j < 0 {
        s.len() as int
    } else if display_width_of(s.take(j + 1)) > budget {
        j
    } else {
        greedy_len(s, budget, j + 1)
    }
}

/// `s` itself when it fits in `max` columns; otherwise, with room for the
/// ellipsis, the greedy prefix that fits in one column less followed by the
/// ellipsis; with no room, nothing.
pub open spec fn spec_ellipsize(s: Seq<char>, max: usize) -> Seq<char> {
    if display_width_of(s) <= max {
        s
    } else if max == 0 {
        Seq::empty()
    } else {
        s.take(greedy_len(s, (max - 1) as usize, 0)).push(ellipsis())
    }
}

/// `prefix + body + suffix` when it fits in `width` columns; otherwise the
/// body is ellipsized into the columns the prefix and suffix leave, or,
/// when they leave none, the whole is ellipsized.
pub open spec fn spec_summarize(
    prefix: Seq<char>,
    body: Seq<char>,
    suffix: Seq<char>,
    width: usize,
) -> Seq<char> {
    let full = prefix + body + suffix;
    let pw = display_width_of(prefix);
    let sw = display_width_of(suffix);
    if display_width_of(full) <= width {
        full
    } else if pw + sw < width {
        prefix + spec_ellipsize(body, (width - pw - sw) as usize) + suffix
    } else {
        spec_ellipsize(full, width)
    }
}

proof fn lemma_greedy_bounds(s: Seq<char>, budget: usize, j: int)
    requires
        0 <= j <= s.len(),
    ensures
        j <= greedy_len(s, budget, j) <= s.len(),
    decreases s.len() - j,
{
    if j < s.len() && display_width_of(s.take(j + 1)) <= budget {
        lemma_greedy_bounds(s, budget, j + 1);
    }
}

/// The characters of `s`.
pub(crate) fn chars_of(s: &str) -> (r: Vec<char>)
    ensures
        r@ == s@,
{
    let mut out: Vec<char> = Vec::new();
    for c in it: s.chars()
        invariant
            out@ == it.seq().take(it.index() as int),
    {
        out.push(c);
    }
    proof {
        assert(out@ =~= s@);
    }
    out
}

/// Fit `text` into `max_width` columns, marking a cut with an ellipsis.
pub fn ellipsize_text(text: &str, max_width: usize) -> (r: String)
    ensures
        r@ == spec_ellipsize(text@, max_width),
{
    if display_width(text) <= max_width {
        return string_from_chars(chars_of(text).as_slice());
    }
    if max_width == 0 {
        return String::new();
    }
    let chars = chars_of(text);
    let budget = max_width - 1;
    let mut kept: Vec<char> = Vec::new();
    let mut j: usize = 0;
    let mut stop = false;
    proof {
        lemma_greedy_bounds(chars@, budget, 0);
    }
    while j < chars.len() && !stop
        invariant
            j <= chars@.len(),
            kept@ == chars@.take(j as int),
            !stop ==> greedy_len(chars@, budget, 0) == greedy_len(chars@, budget, j as int),
            stop ==> greedy_len(chars@, budget, 0) == j,
        decreases chars@.len() - j + (if stop { 0int } else { 1int }),
    {
        let mut next = kept.clone();
        assert(next@ =~= kept@);
        next.push(chars[j]);
        assert(next@ =~= chars@.take(j + 1));
        let candidate = string_from_chars(next.as_slice());
        if display_width(candidate.as_str()) > budget {
            stop = true;
        } else {
            kept = next;
            j += 1;
        }
    }
    kept.push('\u{2026}');
    string_from_chars(kept.as_slice())
}

/// The three texts, one after another.
fn concat3(a: &str, b: &str, c: &str) -> (r: String)
    ensures
        r@ == a@ + b@ + c@,
{
    let mut all = chars_of(a);
    let mut middle = chars_of(b);
    let mut last = chars_of(c);
    all.append(&mut middle);
    all.append(&mut last);
    string_from_chars(all.as_slice())
}

/// Fit `prefix + body + suffix` into `width` columns, cutting the body
/// first (see `spec_summarize`).
pub fn summarize_text(prefix: &str, body: &str, suffix: &str, width: usize) -> (r: String)
    ensures
        r@ == spec_summarize(prefix@, body@, suffix@, width),
{
    let full = concat3(prefix, body, suffix);
    if display_width(full.as_str()) <= width {
        return full;
    }
    let pw = display_width(prefix);
    let sw = display_width(suffix);
    if pw < width && sw < width - pw {
        let middle = ellipsize_text(body, width - pw - sw);
        concat3(prefix, middle.as_str(), suffix)
    } else {
        ellipsize_text(full.as_str(), width)
    }
}

} // verus!
