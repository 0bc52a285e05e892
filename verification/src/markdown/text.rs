//! Text helpers of the markdown renderer: leading-whitespace trimming, dash
//! detection and truncation by characters.

use vstd::prelude::*;

use crate::render::overflow::chars_of;
use crate::render::text::{is_whitespace, string_from_chars};
use crate::widget::vim_editor::buffer::{skip_fwd, ws};

verus! {

/// `s` without its leading whitespace.
pub open spec fn trimmed_start(s: Seq<char>) -> Seq<char> {
    s.skip(skip_fwd(s, 0, ws()))
}

/// Whether `w` begins with an em dash, an en dash, or `--`.
pub open spec fn begins_with_dash(w: Seq<char>) -> bool {
    ||| w.len() >= 1 && (w[0] == '\u{2014}' || w[0] == '\u{2013}')
    ||| w.len() >= 2 && w[0] == '-' && w[1] == '-'
}

/// Whether the word, past leading whitespace, begins with an em dash, an en
/// dash, or `--`.
pub fn starts_with_dash(word: &str) -> (b: bool)
    ensures
        b == begins_with_dash(trimmed_start(word@)),
{
    let chars = chars_of(word);
    let i = leading_whitespace(&chars);
    let rest = chars.len() - i;
    (rest >= 1 && (chars[i] == '\u{2014}' || chars[i] == '\u{2013}')) || (rest >= 2 && chars[i] == '-' && chars[i
        + 1] == '-')
}

/// Number of whitespace characters at the start of `chars`.
pub fn leading_whitespace(chars: &Vec<char>) -> (i: usize)
    ensures
        i == skip_fwd(chars@, 0, ws()),
        i <= chars@.len(),
{
    let mut i: usize = 0;
    while i < chars.len() && is_whitespace(chars[i])
        invariant
            i <= chars@.len(),
            skip_fwd(chars@, 0, ws()) == skip_fwd(chars@, i as int, ws()),
        decreases chars@.len() - i,
    {
        i += 1;
    }
    proof {
        lemma_skip_fwd_stop(chars@, i as int);
    }
    i
}

/// `s` without its leading whitespace, as `str::trim_start` gives it.
pub fn trim_start(s: &str) -> (r: String)
    ensures
        r@ == trimmed_start(s@),
{
    let chars = chars_of(s);
    let i = leading_whitespace(&chars);
    string_from_chars(vstd::slice::slice_subrange(chars.as_slice(), i, chars.len()))
}

proof fn lemma_skip_fwd_stop(s: Seq<char>, i: int)
    requires
        0 <= i <= s.len(),
        i < s.len() ==> !ws()(s[i]),
    ensures
        skip_fwd(s, i, ws()) == i,
{
}

/// `s` when it has at most `max_chars` characters; otherwise its first
/// `max_chars - 1` characters and an ellipsis, or the ellipsis alone when
/// `max_chars` is at most 1.
pub open spec fn spec_truncate(s: Seq<char>, max_chars: usize) -> Seq<char> {
    if s.len() <= max_chars {
        s
    } else if max_chars > 1 {
        s.take(max_chars - 1).push('\u{2026}')
    } else {
        seq!['\u{2026}']
    }
}

/// Truncate a string to at most `max_chars` characters, marking a cut with
/// an ellipsis.
pub fn truncate_str(s: &str, max_chars: usize) -> (r: String)
    ensures
        r@ == spec_truncate(s@, max_chars),
{
    let chars = chars_of(s);
    if chars.len() <= max_chars {
        string_from_chars(chars.as_slice())
    } else if max_chars > 1 {
        let mut kept = chars;
        kept.truncate(max_chars - 1);
        kept.push('\u{2026}');
        string_from_chars(kept.as_slice())
    } else {
        let one = vec!['\u{2026}'];
        string_from_chars(one.as_slice())
    }
}

} // verus!
