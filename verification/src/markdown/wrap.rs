//! Word-wrapping styled text fragments into lines, with a hang indent for
//! continuation lines, and truncating a line of fragments with an ellipsis.

use vstd::prelude::*;
use vstd::utf8::encode_utf8;

use crate::markdown::style::{spec_plain, MdStyle};
use crate::markdown::text::{begins_with_dash, starts_with_dash, trim_start, trimmed_start};
use crate::render::overflow::chars_of;
use crate::render::text::string_from_chars;

verus! {

/// A styled fragment, by its characters.
pub type Frag = (Seq<char>, MdStyle);

/// A fragment by its characters.
pub open spec fn frag_view(f: (String, MdStyle)) -> Frag {
    (f.0@, f.1)
}

/// Fragments by their characters.
pub open spec fn frags_view(v: Seq<(String, MdStyle)>) -> Seq<Frag> {
    v.map_values(|f: (String, MdStyle)| frag_view(f))
}

/// Lines of fragments by their characters.
pub open spec fn lines_view(v: Seq<Vec<(String, MdStyle)>>) -> Seq<Seq<Frag>> {
    v.map_values(|l: Vec<(String, MdStyle)>| frags_view(l@))
}

/// Character vectors by their contents.
pub open spec fn seqs_view(v: Seq<Vec<char>>) -> Seq<Seq<char>> {
    v.map_values(|x: Vec<char>| x@)
}

/// The length in bytes that `str::len` reports for a string holding `s`.
pub open spec fn byte_len(s: Seq<char>) -> usize {
    encode_utf8(s).len() as usize
}

/// The pieces of `s` between occurrences of `sep`, as `str::split(sep)`
/// yields them: one more piece than there are separators, empty pieces
/// included.
pub open spec fn split_on(s: Seq<char>, sep: char) -> Seq<Seq<char>>
    decreases s.len(),
{
    if s.len() == 0 {
        seq![Seq::empty()]
    } else {
        let prev = split_on(s.drop_last(), sep);
        if s.last() == sep {
            prev.push(Seq::empty())
        } else {
            prev.update(prev.len() - 1, prev.last().push(s.last()))
        }
    }
}

/// Word chunks of the pieces of a text: the first piece as it is; each
/// later piece with a leading space, except that an empty piece (from a run
/// of spaces) adds its space to the chunk before it.
pub open spec fn chunk_pieces(p: Seq<Seq<char>>) -> Seq<Seq<char>>
    decreases p.len(),
{
    if p.len() <= 1 {
        p
    } else {
        let prev = chunk_pieces(p.drop_last());
        if p.last().len() == 0 {
            prev.update(prev.len() - 1, prev.last().push(' '))
        } else {
            prev.push(seq![' '] + p.last())
        }
    }
}

/// The word chunks of one text.
pub open spec fn text_chunks(s: Seq<char>) -> Seq<Seq<char>> {
    chunk_pieces(split_on(s, ' '))
}

/// The word chunks of all spans, each with its span's style.
pub open spec fn span_chunks(spans: Seq<Frag>) -> Seq<Frag>
    decreases spans.len(),
{
    if spans.len() == 0 {
        Seq::empty()
    } else {
        let style = spans.last().1;
        span_chunks(spans.drop_last()) + text_chunks(spans.last().0).map_values(
            |w: Seq<char>| (w, style),
        )
    }
}

/// State of line breaking: the finished lines, the line being filled, its
/// length in bytes, and whether it is the first line.
pub struct WrapState {
    pub lines: Seq<Seq<Frag>>,
    pub line: Seq<Frag>,
    pub len: nat,
    pub first: bool,
}

/// Line breaking over one chunk. Empty chunks are skipped. A chunk that
/// starts a line loses its leading whitespace; a chunk that fits in the
/// line's width, or that begins with a dash, joins the line; any other
/// chunk ends the line and starts the next one.
pub open spec fn wrap_step(st: WrapState, chunk: Frag, first_width: usize, cont_width: usize) -> WrapState {
    let word = chunk.0;
    let wl = byte_len(word);
    let max_w = if st.first { first_width } else { cont_width };
    let t = trimmed_start(word);
    if wl == 0 {
        st
    } else if st.len == 0 {
        WrapState { line: st.line.push((t, chunk.1)), len: byte_len(t) as nat, ..st }
    } else if st.len + wl <= max_w || begins_with_dash(t) {
        WrapState { line: st.line.push(chunk), len: (st.len + wl) as nat, ..st }
    } else {
        WrapState {
            lines: st.lines.push(st.line),
            line: seq![(t, chunk.1)],
            len: byte_len(t) as nat,
            first: false,
        }
    }
}

/// Line breaking over a sequence of chunks.
pub open spec fn wrap_fold(chunks: Seq<Frag>, first_width: usize, cont_width: usize) -> WrapState
    decreases chunks.len(),
{
    if chunks.len() == 0 {
        WrapState { lines: Seq::empty(), line: Seq::empty(), len: 0, first: true }
    } else {
        wrap_step(wrap_fold(chunks.drop_last(), first_width, cont_width), chunks.last(), first_width, cont_width)
    }
}

/// The wrapped lines of `spans`: one empty line for no spans; otherwise the
/// lines of line breaking, with the last line kept when it is not empty or
/// is the only one.
pub open spec fn spec_wrap(spans: Seq<Frag>, first_width: usize, cont_width: usize) -> Seq<Seq<Frag>> {
    if spans.len() == 0 {
        seq![Seq::empty()]
    } else {
        let st = wrap_fold(span_chunks(spans), first_width, cont_width);
        if st.line.len() > 0 || st.lines.len() == 0 {
            st.lines.push(st.line)
        } else {
            st.lines
        }
    }
}

pub(crate) proof fn lemma_split_nonempty(s: Seq<char>, sep: char)
    ensures
        split_on(s, sep).len() >= 1,
    decreases s.len(),
{
    if s.len() > 0 {
        lemma_split_nonempty(s.drop_last(), sep);
    }
}

/// The pieces of `chars` between occurrences of `sep`.
pub(crate) fn split_at(chars: &Vec<char>, sep: char) -> (r: Vec<Vec<char>>)
    ensures
        seqs_view(r@) == split_on(chars@, sep),
{
    let mut done: Vec<Vec<char>> = Vec::new();
    let mut cur: Vec<char> = Vec::new();
    let mut i: usize = 0;
    while i < chars.len()
        invariant
            i <= chars@.len(),
            seqs_view(done@).push(cur@) == split_on(chars@.take(i as int), sep),
        decreases chars@.len() - i,
    {
        let c = chars[i];
        proof {
            assert(chars@.take(i + 1).drop_last() =~= chars@.take(i as int));
            assert(chars@.take(i + 1).last() == c);
        }
        if c == sep {
            let ghost old_done = done@;
            done.push(cur);
            cur = Vec::new();
            proof {
                assert(seqs_view(done@) =~= seqs_view(old_done).push(seqs_view(done@).last()));
                assert(seqs_view(done@).push(cur@) =~= split_on(chars@.take(i + 1), sep));
            }
        } else {
            let ghost old_cur = cur@;
            cur.push(c);
            proof {
                let prev = split_on(chars@.take(i as int), sep);
                assert(seqs_view(done@).push(cur@) =~= prev.update(prev.len() - 1, old_cur.push(c)));
            }
        }
        i += 1;
    }
    let ghost before = done@;
    done.push(cur);
    proof {
        assert(chars@.take(chars@.len() as int) =~= chars@);
        assert(seqs_view(done@) =~= seqs_view(before).push(seqs_view(done@).last()));
    }
    done
}

/// A copy of `p`.
pub(crate) fn copied(p: &Vec<char>) -> (w: Vec<char>)
    ensures
        w@ == p@,
{
    let mut w: Vec<char> = Vec::new();
    let mut k: usize = 0;
    while k < p.len()
        invariant
            k <= p@.len(),
            w@ == p@.take(k as int),
        decreases p@.len() - k,
    {
        w.push(p[k]);
        k += 1;
        assert(w@ =~= p@.take(k as int));
    }
    assert(p@.take(p@.len() as int) =~= p@);
    w
}

/// `p` with a space before it.
fn spaced(p: &Vec<char>) -> (w: Vec<char>)
    ensures
        w@ == seq![' '] + p@,
{
    let mut w: Vec<char> = vec![' '];
    let mut rest = copied(p);
    w.append(&mut rest);
    w
}

/// The word chunks of a text.
fn chunks_of_text(text: &str) -> (r: Vec<Vec<char>>)
    ensures
        seqs_view(r@) == text_chunks(text@),
{
    let pieces = split_at(&chars_of(text), ' ');
    let ghost ps = seqs_view(pieces@);
    proof {
        lemma_split_nonempty(text@, ' ');
        assert(ps.take(1) =~= seq![ps[0]]);
    }
    let mut out: Vec<Vec<char>> = Vec::new();
    let mut last = copied(&pieces[0]);
    let mut j: usize = 1;
    while j < pieces.len()
        invariant
            1 <= j <= pieces@.len(),
            ps == seqs_view(pieces@),
            seqs_view(out@).push(last@) == chunk_pieces(ps.take(j as int)),
        decreases pieces@.len() - j,
    {
        proof {
            assert(ps.take(j + 1).drop_last() =~= ps.take(j as int));
            assert(ps.take(j + 1).last() == pieces@[j as int]@);
        }
        if pieces[j].len() == 0 {
            let ghost old_last = last@;
            last.push(' ');
            proof {
                let prev = chunk_pieces(ps.take(j as int));
                assert(seqs_view(out@).push(last@) =~= prev.update(prev.len() - 1, old_last.push(' ')));
            }
        } else {
            let ghost old_out = out@;
            out.push(last);
            last = spaced(&pieces[j]);
            proof {
                assert(seqs_view(out@) =~= seqs_view(old_out).push(seqs_view(out@).last()));
                assert(seqs_view(out@).push(last@) =~= chunk_pieces(ps.take(j + 1)));
            }
        }
        j += 1;
    }
    let ghost before = out@;
    out.push(last);
    proof {
        assert(ps.take(ps.len() as int) =~= ps);
        assert(seqs_view(out@) =~= seqs_view(before).push(seqs_view(out@).last()));
    }
    out
}

/// The word chunks of all spans, each with its span's style.
fn chunks_of_spans(spans: &Vec<(String, MdStyle)>) -> (r: Vec<(String, MdStyle)>)
    ensures
        frags_view(r@) == span_chunks(frags_view(spans@)),
{
    let ghost sv = frags_view(spans@);
    let mut out: Vec<(String, MdStyle)> = Vec::new();
    let mut k: usize = 0;
    while k < spans.len()
        invariant
            k <= spans@.len(),
            sv == frags_view(spans@),
            frags_view(out@) == span_chunks(sv.take(k as int)),
        decreases spans@.len() - k,
    {
        let style = spans[k].1;
        let words = chunks_of_text(spans[k].0.as_str());
        let ghost base = frags_view(out@);
        let ghost tc = text_chunks(sv[k as int].0);
        let mut m: usize = 0;
        while m < words.len()
            invariant
                m <= words@.len(),
                seqs_view(words@) == tc,
                frags_view(out@) == base + tc.take(m as int).map_values(|w: Seq<char>| (w, style)),
            decreases words@.len() - m,
        {
            let s = string_from_chars(words[m].as_slice());
            let ghost old_out = out@;
            proof {
                assert(s@ == tc[m as int]);
                assert(tc.take(m + 1).map_values(|w: Seq<char>| (w, style)) =~= tc.take(m as int).map_values(
                    |w: Seq<char>| (w, style),
                ).push((tc[m as int], style)));
            }
            out.push((s, style));
            m += 1;
            proof {
                assert(frags_view(out@) =~= frags_view(old_out).push((s@, style)));
            }
        }
        proof {
            assert(tc.take(tc.len() as int) =~= tc);
            assert(sv.take(k + 1).drop_last() =~= sv.take(k as int));
            assert(sv.take(k + 1).last() == sv[k as int]);
        }
        k += 1;
    }
    proof {
        assert(sv.take(sv.len() as int) =~= sv);
    }
    out
}

/// The byte length of a string.
pub(crate) fn length_of(s: &String) -> (n: usize)
    ensures
        n == byte_len(s@),
{
    s.as_str().len()
}

/// Word-wrap styled fragments into lines. The first line may be
/// `first_width` bytes long, the others `cont_width` (for a hang indent).
/// Text is cut into chunks at spaces; a chunk that begins with a dash stays
/// on the line before rather than starting one, and a single chunk longer
/// than the width is not broken.
pub fn wrap_spans_with_hang(spans: Vec<(String, MdStyle)>, first_width: usize, cont_width: usize) -> (r: Vec<
    Vec<(String, MdStyle)>,
>)
    ensures
        lines_view(r@) == spec_wrap(frags_view(spans@), first_width, cont_width),
{
    if spans.len() == 0 {
        let empty: Vec<(String, MdStyle)> = Vec::new();
        assert(frags_view(empty@) =~= Seq::<Frag>::empty());
        let r = vec![empty];
        assert(lines_view(r@) =~= seq![Seq::<Frag>::empty()]);
        return r;
    }
    let chunks = chunks_of_spans(&spans);
    let ghost cv = frags_view(chunks@);
    let mut lines: Vec<Vec<(String, MdStyle)>> = Vec::new();
    let mut line: Vec<(String, MdStyle)> = Vec::new();
    let mut current_len: usize = 0;
    let mut is_first_line = true;
    let mut i: usize = 0;
    while i < chunks.len()
        invariant
            i <= chunks@.len(),
            cv == frags_view(chunks@),
            ({
                let st = wrap_fold(cv.take(i as int), first_width, cont_width);
                &&& lines_view(lines@) == st.lines
                &&& frags_view(line@) == st.line
                &&& current_len == (if st.len > usize::MAX { usize::MAX as nat } else { st.len })
                &&& is_first_line == st.first
            }),
        decreases chunks@.len() - i,
    {
        let ghost st = wrap_fold(cv.take(i as int), first_width, cont_width);
        proof {
            assert(cv.take(i + 1).drop_last() =~= cv.take(i as int));
            assert(cv.take(i + 1).last() == cv[i as int]);
        }
        let word = &chunks[i].0;
        let style = chunks[i].1;
        let word_len = length_of(word);
        let max_w = if is_first_line { first_width } else { cont_width };
        if word_len == 0 {
        } else if current_len == 0 {
            let trimmed = trim_start(word.as_str());
            current_len = length_of(&trimmed);
            let ghost old_line = line@;
            line.push((trimmed, style));
            assert(frags_view(line@) =~= frags_view(old_line).push((trimmed@, style)));
        } else if (word_len <= max_w && current_len <= max_w - word_len) || starts_with_dash(word.as_str()) {
            current_len = current_len.saturating_add(word_len);
            let ghost old_line = line@;
            let w = copy_string(word);
            line.push((w, style));
            assert(frags_view(line@) =~= frags_view(old_line).push(cv[i as int]));
        } else {
            let ghost old_lines = lines@;
            lines.push(line);
            line = Vec::new();
            is_first_line = false;
            let trimmed = trim_start(word.as_str());
            current_len = length_of(&trimmed);
            line.push((trimmed, style));
            assert(lines_view(lines@) =~= lines_view(old_lines).push(st.line));
            assert(frags_view(line@) =~= seq![(trimmed@, style)]);
        }
        i += 1;
    }
    proof {
        assert(cv.take(cv.len() as int) =~= cv);
    }
    if line.len() > 0 || lines.len() == 0 {
        let ghost old_lines = lines@;
        lines.push(line);
        assert(lines_view(lines@) =~= lines_view(old_lines).push(lines_view(lines@).last()));
    }
    lines
}

/// The first `remaining` characters of the fragments, whole fragments while
/// they fit and a cut fragment where they stop fitting.
pub open spec fn take_frags(fs: Seq<Frag>, remaining: nat) -> Seq<Frag>
    decreases fs.len(),
{
    if fs.len() == 0 || remaining == 0 {
        Seq::empty()
    } else if fs[0].0.len() <= remaining {
        seq![fs[0]] + take_frags(fs.drop_first(), (remaining - fs[0].0.len()) as nat)
    } else {
        seq![(fs[0].0.take(remaining as int), fs[0].1)]
    }
}

/// The fragments cut to `max_chars - 1` characters, followed by an ellipsis
/// in the default style.
pub open spec fn spec_truncate_frags(fs: Seq<Frag>, max_chars: usize) -> Seq<Frag> {
    take_frags(fs, if max_chars > 0 { (max_chars - 1) as nat } else { 0 }).push(
        (seq!['\u{2026}'], spec_plain(None)),
    )
}

/// Truncate styled fragments to fit within `max_chars` characters: one
/// character is kept for the ellipsis that always ends the result.
pub fn truncate_styled_spans(fragments: Vec<(String, MdStyle)>, max_chars: usize) -> (r: Vec<(String, MdStyle)>)
    ensures
        frags_view(r@) == spec_truncate_frags(frags_view(fragments@), max_chars),
{
    let ghost fs = frags_view(fragments@);
    let ghost r0: nat = if max_chars > 0 { (max_chars - 1) as nat } else { 0 };
    let mut remaining = max_chars.saturating_sub(1);
    let mut out: Vec<(String, MdStyle)> = Vec::new();
    let mut i: usize = 0;
    proof {
        assert(fs.skip(0) =~= fs);
        assert(frags_view(out@) =~= Seq::<Frag>::empty());
        assert(Seq::<Frag>::empty() + take_frags(fs, r0) =~= take_frags(fs, r0));
    }
    while i < fragments.len() && remaining > 0
        invariant
            i <= fragments@.len(),
            fs == frags_view(fragments@),
            take_frags(fs, r0) == frags_view(out@) + take_frags(fs.skip(i as int), remaining as nat),
        decreases fragments@.len() - i,
    {
        proof {
            assert(fs.skip(i as int)[0] == fs[i as int]);
            assert(fs.skip(i as int).drop_first() =~= fs.skip(i + 1));
        }
        let chars = chars_of(fragments[i].0.as_str());
        let style = fragments[i].1;
        let ghost old_out = out@;
        let ghost rem0 = remaining;
        if chars.len() <= remaining {
            remaining = remaining - chars.len();
            let s = copy_string(&fragments[i].0);
            out.push((s, style));
            assert(frags_view(out@) =~= frags_view(old_out) + seq![fs[i as int]]);
        } else {
            let part = string_from_chars(vstd::slice::slice_subrange(chars.as_slice(), 0, remaining));
            out.push((part, style));
            remaining = 0;
            assert(frags_view(out@) =~= frags_view(old_out) + take_frags(fs.skip(i as int), rem0 as nat));
        }
        i += 1;
    }
    let ghost before = out@;
    let e = vec!['\u{2026}'];
    assert(e@ =~= seq!['\u{2026}']);
    let ell = string_from_chars(e.as_slice());
    out.push((ell, MdStyle::plain(None)));
    proof {
        assert(take_frags(fs.skip(i as int), remaining as nat) =~= Seq::<Frag>::empty());
        assert(frags_view(out@) =~= frags_view(before).push((seq!['\u{2026}'], spec_plain(None))));
    }
    out
}

/// A copy of a string.
pub(crate) fn copy_string(s: &String) -> (r: String)
    ensures
        r@ == s@,
{
    string_from_chars(chars_of(s.as_str()).as_slice())
}

} // verus!
