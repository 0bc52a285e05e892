//! The markdown renderer: a state machine over the events of a markdown
//! parse that collects styled inline text, wraps paragraphs with list
//! markers and hang indents, prefixes blockquote lines, and emits code
//! blocks line by line, truncated rather than wrapped.

use vstd::prelude::*;

use crate::markdown::style::{spec_add, spec_base, spec_plain, Emphasis, MdColor, MdStyle};
use crate::markdown::text::{spec_truncate, truncate_str};
use crate::markdown::wrap::{
    byte_len, copied, copy_string, frags_view, length_of, lemma_split_nonempty, lines_view,
    seqs_view, spec_wrap, split_at, split_on, wrap_spans_with_hang, Frag,
};
use crate::render::text::string_from_chars;
use crate::widget::vim_editor::editor::{decimal, push_decimal_u64};

verus! {

/// An element that can contain other elements, as the renderer reads it.
#[derive(Clone, Copy, Debug, PartialEq, Eq, Structural)]
pub enum MdTag {
    Paragraph,
    Heading,
    BlockQuote,
    CodeBlock,
    /// A list; for an ordered list, the number of its first item.
    List(Option<u64>),
    Item,
    Emphasis,
    Strong,
    Strikethrough,
    /// Any element the renderer does not style.
    Other,
}

/// One event of a markdown parse, as the renderer reads it.
#[derive(Clone, Debug)]
pub enum MdEvent {
    Start(MdTag),
    End(MdTag),
    Text(String),
    Code(String),
    SoftBreak,
    HardBreak,
    Rule,
    /// Any event the renderer ignores.
    Other,
}

/// The renderer's state: finished lines, the inline fragments of the
/// current paragraph, the style stack, the code block being collected, the
/// open lists (with the next number of an ordered one), the blockquote
/// depth, and the marker waiting for the next paragraph of a list item.
pub struct MdState {
    pub lines: Seq<Seq<Frag>>,
    pub spans: Seq<Frag>,
    pub styles: Seq<MdStyle>,
    pub in_code: bool,
    pub code: Seq<char>,
    pub lists: Seq<Option<u64>>,
    pub depth: nat,
    pub marker: Option<Seq<char>>,
}

/// The state before the first event.
pub open spec fn initial_state() -> MdState {
    MdState {
        lines: Seq::empty(),
        spans: Seq::empty(),
        styles: seq![spec_base()],
        in_code: false,
        code: Seq::empty(),
        lists: Seq::empty(),
        depth: 0,
        marker: None,
    }
}

/// The style on top of the stack.
pub open spec fn spec_current_style(st: MdState) -> MdStyle {
    if st.styles.len() > 0 {
        st.styles.last()
    } else {
        spec_base()
    }
}

/// The width left for text once each blockquote level took two columns.
pub open spec fn spec_content_width(max_width: usize, depth: nat) -> usize {
    if depth * 2 >= max_width {
        0
    } else {
        (max_width - depth * 2) as usize
    }
}

/// The `> ` markers of `depth` blockquote levels.
pub open spec fn quote_prefix(depth: nat) -> Seq<Frag> {
    Seq::new(depth, |i: int| (seq!['>', ' '], spec_plain(Some(MdColor::Success))))
}

/// `n` spaces.
pub open spec fn spaces(n: nat) -> Seq<char> {
    Seq::new(n, |i: int| ' ')
}

/// The state with one more line: the blockquote markers, then `frags`.
pub open spec fn spec_emit(st: MdState, frags: Seq<Frag>) -> MdState {
    MdState { lines: st.lines.push(quote_prefix(st.depth) + frags), ..st }
}

/// The state with the given lines emitted in order.
pub open spec fn emit_all(st: MdState, ls: Seq<Seq<Frag>>) -> MdState
    decreases ls.len(),
{
    if ls.len() == 0 {
        st
    } else {
        spec_emit(emit_all(st, ls.drop_last()), ls.last())
    }
}

/// Line `i` of a wrapped list-item paragraph: the marker before the first
/// line, as many spaces as the marker has bytes before the others.
pub open spec fn marked(line: Seq<Frag>, i: int, marker: Option<Seq<char>>) -> Seq<Frag> {
    match marker {
        Some(m) => if byte_len(m) > 0 {
            if i == 0 {
                seq![(m, spec_base())] + line
            } else {
                seq![(spaces(byte_len(m) as nat), spec_base())] + line
            }
        } else {
            line
        },
        None => line,
    }
}

/// The current paragraph wrapped and emitted: the first line is as wide as
/// the content, continuation lines leave room for the marker's hang indent.
pub open spec fn spec_flush(st: MdState, max_width: usize) -> MdState {
    if st.spans.len() == 0 {
        st
    } else {
        let mw: usize = match st.marker {
            Some(m) => byte_len(m),
            None => 0,
        };
        let avail = spec_content_width(max_width, st.depth);
        let cont: usize = if avail >= mw { (avail - mw) as usize } else { 0 };
        let wrapped = spec_wrap(st.spans, avail, cont);
        emit_all(
            MdState { spans: Seq::empty(), marker: None, ..st },
            wrapped.map(|i: int, l: Seq<Frag>| marked(l, i, st.marker)),
        )
    }
}

/// `p` without a final carriage return.
pub open spec fn strip_cr(p: Seq<char>) -> Seq<char> {
    if p.len() > 0 && p.last() == '\r' {
        p.drop_last()
    } else {
        p
    }
}

/// The lines of `s` as `str::lines` yields them: split at `\n`, a `\r`
/// before a `\n` dropped, and no line after a final `\n`.
pub open spec fn spec_lines(s: Seq<char>) -> Seq<Seq<char>> {
    let p = split_on(s, '\n');
    let ended = p.drop_last().map_values(|l: Seq<char>| strip_cr(l));
    if p.last().len() > 0 {
        ended.push(p.last())
    } else {
        ended
    }
}

/// A line of code, truncated to `avail` characters and styled as code.
pub open spec fn code_line(l: Seq<char>, avail: usize) -> Seq<Frag> {
    seq![(spec_truncate(l, avail), spec_plain(Some(MdColor::Focus)))]
}

/// The state at the end of a code block: each line of the collected code,
/// truncated to the content width and styled as code, then a blank line.
pub open spec fn spec_end_code(st: MdState, max_width: usize) -> MdState {
    let avail = spec_content_width(max_width, st.depth);
    let cleared = MdState { in_code: false, code: Seq::empty(), ..st };
    spec_emit(
        emit_all(cleared, spec_lines(st.code).map_values(|l: Seq<char>| code_line(l, avail))),
        Seq::empty(),
    )
}

/// The number after `n`, wrapping at `u64::MAX`.
pub open spec fn next_number(n: u64) -> u64 {
    if n == u64::MAX {
        0
    } else {
        (n + 1) as u64
    }
}

/// The marker of the next item of the innermost list.
pub open spec fn item_marker(lists: Seq<Option<u64>>) -> Seq<char> {
    if lists.len() > 0 && lists.last() is Some {
        decimal(lists.last()->0 as nat) + seq!['.', ' ']
    } else {
        seq!['-', ' ']
    }
}

/// The open lists once the innermost one has numbered an item.
pub open spec fn bump(lists: Seq<Option<u64>>) -> Seq<Option<u64>> {
    if lists.len() > 0 && lists.last() is Some {
        lists.update(lists.len() - 1, Some(next_number(lists.last()->0)))
    } else {
        lists
    }
}

/// The state with the style on top of the stack removed, unless it is the
/// only one.
pub open spec fn spec_pop(st: MdState) -> MdState {
    if st.styles.len() > 1 {
        MdState { styles: st.styles.drop_last(), ..st }
    } else {
        st
    }
}

/// The state with the current style plus the modifier of `e` pushed.
pub open spec fn spec_push(st: MdState, e: Emphasis) -> MdState {
    MdState { styles: st.styles.push(spec_add(spec_current_style(st), e)), ..st }
}

/// The state after the start of an element.
pub open spec fn spec_start(st: MdState, tag: MdTag) -> MdState {
    match tag {
        MdTag::Heading | MdTag::Strong => spec_push(st, Emphasis::Bold),
        MdTag::Emphasis => spec_push(st, Emphasis::Italic),
        MdTag::Strikethrough => spec_push(st, Emphasis::CrossedOut),
        MdTag::BlockQuote => MdState { depth: st.depth + 1, ..st },
        MdTag::CodeBlock => MdState { in_code: true, code: Seq::empty(), ..st },
        MdTag::List(start) => MdState { lists: st.lists.push(start), ..st },
        MdTag::Item => MdState { marker: Some(item_marker(st.lists)), lists: bump(st.lists), ..st },
        _ => st,
    }
}

/// The state after the end of an element.
pub open spec fn spec_end(st: MdState, tag: MdTag, max_width: usize) -> MdState {
    match tag {
        MdTag::Paragraph => spec_emit(spec_flush(st, max_width), Seq::empty()),
        MdTag::Heading => spec_pop(spec_emit(spec_flush(st, max_width), Seq::empty())),
        MdTag::BlockQuote => MdState { depth: if st.depth > 0 { (st.depth - 1) as nat } else { 0 }, ..st },
        MdTag::CodeBlock => spec_end_code(st, max_width),
        MdTag::List(_) => if st.lists.len() > 0 {
            MdState { lists: st.lists.drop_last(), ..st }
        } else {
            st
        },
        MdTag::Item => MdState { marker: None, ..spec_flush(st, max_width) },
        MdTag::Emphasis | MdTag::Strong | MdTag::Strikethrough => spec_pop(st),
        MdTag::Other => st,
    }
}

/// A horizontal rule: at most 40 box-drawing dashes, within the content
/// width.
pub open spec fn rule_line(st: MdState, max_width: usize) -> Seq<Frag> {
    let avail = spec_content_width(max_width, st.depth);
    let n: nat = if avail < 40 { avail as nat } else { 40 };
    seq![(Seq::new(n, |i: int| '\u{2500}'), spec_plain(Some(MdColor::Dim)))]
}

/// The state after one event.
pub open spec fn spec_event(st: MdState, ev: MdEvent, max_width: usize) -> MdState {
    match ev {
        MdEvent::Start(tag) => spec_start(st, tag),
        MdEvent::End(tag) => spec_end(st, tag, max_width),
        MdEvent::Text(t) => if st.in_code {
            MdState { code: st.code + t@, ..st }
        } else {
            MdState { spans: st.spans.push((t@, spec_current_style(st))), ..st }
        },
        MdEvent::Code(t) => MdState {
            spans: st.spans.push((t@, MdStyle { fg: Some(MdColor::Focus), ..spec_current_style(st) })),
            ..st
        },
        MdEvent::SoftBreak => if st.in_code {
            MdState { code: st.code.push('\n'), ..st }
        } else {
            MdState { spans: st.spans.push((seq![' '], spec_current_style(st))), ..st }
        },
        MdEvent::HardBreak => if st.in_code {
            MdState { code: st.code.push('\n'), ..st }
        } else {
            spec_flush(st, max_width)
        },
        MdEvent::Rule => spec_emit(st, rule_line(st, max_width)),
        MdEvent::Other => st,
    }
}

/// The state after a sequence of events.
pub open spec fn spec_run(events: Seq<MdEvent>, max_width: usize) -> MdState
    decreases events.len(),
{
    if events.len() == 0 {
        initial_state()
    } else {
        spec_event(spec_run(events.drop_last(), max_width), events.last(), max_width)
    }
}

/// Whether every fragment of a line is empty.
pub open spec fn blank(line: Seq<Frag>) -> bool {
    forall|k: int| 0 <= k < line.len() ==> (#[trigger] line[k]).0.len() == 0
}

/// The rendered lines of a sequence of events at the given width: a single
/// empty line at width 0; otherwise the lines of all events and of the
/// paragraph still open at the end, at least one line, with one trailing
/// blank line dropped when there are several.
pub open spec fn spec_render(events: Seq<MdEvent>, max_width: usize) -> Seq<Seq<Frag>> {
    if max_width == 0 {
        seq![Seq::empty()]
    } else {
        let ls0 = spec_flush(spec_run(events, max_width), max_width).lines;
        let ls1 = if ls0.len() == 0 {
            seq![Seq::<Frag>::empty()]
        } else {
            ls0
        };
        if ls1.len() > 1 && blank(ls1.last()) {
            ls1.drop_last()
        } else {
            ls1
        }
    }
}

proof fn lemma_emit_all_depth(st: MdState, ls: Seq<Seq<Frag>>)
    ensures
        emit_all(st, ls).depth == st.depth,
        emit_all(st, ls).lines.len() == st.lines.len() + ls.len(),
    decreases ls.len(),
{
    if ls.len() > 0 {
        lemma_emit_all_depth(st, ls.drop_last());
    }
}

proof fn lemma_event_depth(st: MdState, ev: MdEvent, max_width: usize)
    ensures
        spec_event(st, ev, max_width).depth <= st.depth + 1,
{
    let e = spec_event(st, ev, max_width);
    lemma_emit_all_depth(MdState { spans: Seq::empty(), marker: None, ..st }, seq![]);
    if st.spans.len() > 0 {
        let mw: usize = match st.marker {
            Some(m) => byte_len(m),
            None => 0,
        };
        let avail = spec_content_width(max_width, st.depth);
        let cont: usize = if avail >= mw { (avail - mw) as usize } else { 0 };
        let wrapped = spec_wrap(st.spans, avail, cont);
        lemma_emit_all_depth(
            MdState { spans: Seq::empty(), marker: None, ..st },
            wrapped.map(|i: int, l: Seq<Frag>| marked(l, i, st.marker)),
        );
    }
    let avail = spec_content_width(max_width, st.depth);
    lemma_emit_all_depth(
        MdState { in_code: false, code: Seq::empty(), ..st },
        spec_lines(st.code).map_values(|l: Seq<char>| code_line(l, avail)),
    );
}

/// Whether an event opens a blockquote.
pub open spec fn opens_quote(ev: MdEvent) -> bool {
    ev matches MdEvent::Start(MdTag::BlockQuote)
}

/// Whether an event closes a blockquote.
pub open spec fn closes_quote(ev: MdEvent) -> bool {
    ev matches MdEvent::End(MdTag::BlockQuote)
}

/// Law: the start of a blockquote deepens the quote by one level, its end
/// makes it one level shallower (never below zero), and every other event
/// leaves the depth as it was.
pub proof fn law_quote_depth_per_event(st: MdState, ev: MdEvent, max_width: usize)
    ensures
        opens_quote(ev) ==> spec_event(st, ev, max_width).depth == st.depth + 1,
        closes_quote(ev) && st.depth > 0 ==> spec_event(st, ev, max_width).depth == st.depth - 1,
        closes_quote(ev) && st.depth == 0 ==> spec_event(st, ev, max_width).depth == 0,
        !opens_quote(ev) && !closes_quote(ev) ==> spec_event(st, ev, max_width).depth == st.depth,
{
    lemma_emit_all_depth(MdState { spans: Seq::empty(), marker: None, ..st }, seq![]);
    if st.spans.len() > 0 {
        let mw: usize = match st.marker {
            Some(m) => byte_len(m),
            None => 0,
        };
        let avail = spec_content_width(max_width, st.depth);
        let cont: usize = if avail >= mw { (avail - mw) as usize } else { 0 };
        let wrapped = spec_wrap(st.spans, avail, cont);
        lemma_emit_all_depth(
            MdState { spans: Seq::empty(), marker: None, ..st },
            wrapped.map(|i: int, l: Seq<Frag>| marked(l, i, st.marker)),
        );
    }
    let avail = spec_content_width(max_width, st.depth);
    lemma_emit_all_depth(
        MdState { in_code: false, code: Seq::empty(), ..st },
        spec_lines(st.code).map_values(|l: Seq<char>| code_line(l, avail)),
    );
}

/// Law: a line emitted outside any blockquote carries no `> ` marker; each
/// level of quote depth adds exactly one marker in front of the line.
pub proof fn law_emitted_line_has_one_marker_per_level(st: MdState, frags: Seq<Frag>)
    ensures
        spec_emit(st, frags).lines.last().len() == st.depth + frags.len(),
        st.depth == 0 ==> spec_emit(st, frags).lines.last() == frags,
        forall|k: int|
            0 <= k < st.depth ==> (#[trigger] spec_emit(st, frags).lines.last()[k]).0 == seq![
                '>',
                ' ',
            ],
{
    assert(st.depth == 0 ==> quote_prefix(st.depth) + frags =~= frags);
}

/// The renderer's state in executable form.
struct MdRenderer {
    max_width: usize,
    lines: Vec<Vec<(String, MdStyle)>>,
    spans: Vec<(String, MdStyle)>,
    style_stack: Vec<MdStyle>,
    in_code_block: bool,
    code_buf: Vec<char>,
    list_stack: Vec<Option<u64>>,
    blockquote_depth: usize,
    pending_item_marker: Option<String>,
}

impl MdRenderer {
    spec fn state(&self) -> MdState {
        MdState {
            lines: lines_view(self.lines@),
            spans: frags_view(self.spans@),
            styles: self.style_stack@,
            in_code: self.in_code_block,
            code: self.code_buf@,
            lists: self.list_stack@,
            depth: self.blockquote_depth as nat,
            marker: match self.pending_item_marker {
                Some(m) => Some(m@),
                None => None,
            },
        }
    }

    fn new(max_width: usize) -> (r: Self)
        ensures
            r.state() == initial_state(),
            r.max_width == max_width,
    {
        let r = MdRenderer {
            max_width,
            lines: Vec::new(),
            spans: Vec::new(),
            style_stack: vec![MdStyle::base()],
            in_code_block: false,
            code_buf: Vec::new(),
            list_stack: Vec::new(),
            blockquote_depth: 0,
            pending_item_marker: None,
        };
        assert(r.state().lines =~= Seq::<Seq<Frag>>::empty());
        assert(r.state().spans =~= Seq::<Frag>::empty());
        assert(r.state().styles =~= seq![spec_base()]);
        r
    }

    /// The style on top of the stack.
    fn current_style(&self) -> (s: MdStyle)
        ensures
            s == spec_current_style(self.state()),
    {
        if self.style_stack.len() > 0 {
            self.style_stack[self.style_stack.len() - 1]
        } else {
            MdStyle::base()
        }
    }

    /// Push the current style plus a modifier.
    fn push_modifier(&mut self, e: Emphasis)
        ensures
            final(self).state() == spec_push(old(self).state(), e),
            final(self).max_width == old(self).max_width,
    {
        let top = self.current_style().with(e);
        self.style_stack.push(top);
    }

    /// Pop the top style, unless it is the only one.
    fn pop_style(&mut self)
        ensures
            final(self).state() == spec_pop(old(self).state()),
            final(self).max_width == old(self).max_width,
    {
        if self.style_stack.len() > 1 {
            self.style_stack.pop();
        }
    }

    /// Available width after accounting for blockquote prefixes.
    fn content_width(&self) -> (w: usize)
        ensures
            w == spec_content_width(self.max_width, self.state().depth),
    {
        let quote_width = if self.blockquote_depth > usize::MAX / 2 {
            usize::MAX
        } else {
            self.blockquote_depth * 2
        };
        self.max_width.saturating_sub(quote_width)
    }

    /// Emit one line of fragments, after the blockquote markers.
    fn emit_line(&mut self, fragments: Vec<(String, MdStyle)>)
        ensures
            final(self).state() == spec_emit(old(self).state(), frags_view(fragments@)),
            final(self).max_width == old(self).max_width,
    {
        let mut out: Vec<(String, MdStyle)> = Vec::new();
        let marker_style = MdStyle::plain(Some(MdColor::Success));
        let mut k: usize = 0;
        assert(frags_view(out@) =~= quote_prefix(0));
        while k < self.blockquote_depth
            invariant
                k <= self.blockquote_depth,
                marker_style == spec_plain(Some(MdColor::Success)),
                frags_view(out@) == quote_prefix(k as nat),
            decreases self.blockquote_depth - k,
        {
            let m = vec!['>', ' '];
            assert(m@ =~= seq!['>', ' ']);
            let s = string_from_chars(m.as_slice());
            let ghost before = out@;
            out.push((s, marker_style));
            k += 1;
            assert(frags_view(out@) =~= quote_prefix(k as nat)) by {
                assert(frags_view(out@) =~= frags_view(before).push((s@, marker_style)));
            }
        }
        let ghost prefix = out@;
        let mut frags = fragments;
        out.append(&mut frags);
        assert(frags_view(out@) =~= frags_view(prefix) + frags_view(fragments@));
        let ghost old_lines = self.lines@;
        self.lines.push(out);
        assert(lines_view(self.lines@) =~= lines_view(old_lines).push(frags_view(out@)));
    }

    /// Emit an empty line (with blockquote markers if applicable).
    fn emit_blank(&mut self)
        ensures
            final(self).state() == spec_emit(old(self).state(), Seq::empty()),
            final(self).max_width == old(self).max_width,
    {
        let empty: Vec<(String, MdStyle)> = Vec::new();
        assert(frags_view(empty@) =~= Seq::<Frag>::empty());
        self.emit_line(empty);
    }

    /// Flush the current paragraph as wrapped lines, with the pending list
    /// marker on the first line and a hang indent on the others.
    fn flush_paragraph(&mut self)
        ensures
            final(self).state() == spec_flush(old(self).state(), old(self).max_width),
            final(self).max_width == old(self).max_width,
    {
        if self.spans.len() == 0 {
            return;
        }
        let ghost st = self.state();
        let mut spans: Vec<(String, MdStyle)> = Vec::new();
        std::mem::swap(&mut spans, &mut self.spans);
        assert(frags_view(spans@) == st.spans);
        let marker = self.pending_item_marker.take();
        let marker_width = match &marker {
            Some(m) => length_of(m),
            None => 0,
        };
        let avail = self.content_width();
        let cont = avail.saturating_sub(marker_width);
        let wrapped = wrap_spans_with_hang(spans, avail, cont);
        let ghost ws = lines_view(wrapped@);
        let ghost marked_lines = ws.map(|i: int, l: Seq<Frag>| marked(l, i, st.marker));
        let ghost cleared = MdState { spans: Seq::empty(), marker: None, ..st };
        assert(self.state() == cleared) by {
            assert(self.state().spans =~= Seq::<Frag>::empty());
        }
        let mut i: usize = 0;
        while i < wrapped.len()
            invariant
                i <= wrapped@.len(),
                ws == lines_view(wrapped@),
                marked_lines == ws.map(|i: int, l: Seq<Frag>| marked(l, i, st.marker)),
                self.state() == emit_all(cleared, marked_lines.take(i as int)),
                self.max_width == old(self).max_width,
                ws == spec_wrap(st.spans, avail, cont),
                avail == spec_content_width(old(self).max_width, st.depth),
                cont == (if avail >= marker_width { (avail - marker_width) as usize } else { 0usize }),
                marker_width == (match st.marker {
                    Some(m) => byte_len(m),
                    None => 0usize,
                }),
                match marker {
                    Some(m) => st.marker == Some(m@),
                    None => st.marker is None,
                },
            decreases wrapped@.len() - i,
        {
            let mut line: Vec<(String, MdStyle)> = Vec::new();
            if marker_width > 0 {
                if i == 0 {
                    match &marker {
                        Some(m) => {
                            line.push((copy_string(m), MdStyle::base()));
                        },
                        None => {},
                    }
                } else {
                    line.push((space_string(marker_width), MdStyle::base()));
                }
            }
            let ghost head = line@;
            let mut rest = copy_frags(&wrapped[i]);
            line.append(&mut rest);
            proof {
                assert(frags_view(line@) =~= frags_view(head) + ws[i as int]);
                assert(frags_view(line@) == marked(ws[i as int], i as int, st.marker)) by {
                    match st.marker {
                        Some(m) => {
                            if byte_len(m) > 0 {
                                if i == 0 {
                                    assert(frags_view(head) =~= seq![(m, spec_base())]);
                                } else {
                                    assert(frags_view(head) =~= seq![(spaces(byte_len(m) as nat), spec_base())]);
                                }
                            } else {
                                assert(frags_view(head) =~= Seq::<Frag>::empty());
                            }
                        },
                        None => {
                            assert(frags_view(head) =~= Seq::<Frag>::empty());
                        },
                    }
                }
                assert(marked_lines.take(i + 1).drop_last() =~= marked_lines.take(i as int));
            }
            self.emit_line(line);
            i += 1;
        }
        proof {
            assert(marked_lines.take(marked_lines.len() as int) =~= marked_lines);
        }
    }

    /// End a code block: emit each collected line, truncated to the content
    /// width, then a blank line.
    fn end_code_block(&mut self)
        ensures
            final(self).state() == spec_end_code(old(self).state(), old(self).max_width),
            final(self).max_width == old(self).max_width,
    {
        let ghost st = self.state();
        self.in_code_block = false;
        let mut buf: Vec<char> = Vec::new();
        std::mem::swap(&mut buf, &mut self.code_buf);
        let avail = self.content_width();
        let code_style = MdStyle::plain(Some(MdColor::Focus));
        let ghost cleared = MdState { in_code: false, code: Seq::empty(), ..st };
        assert(self.state() == cleared) by {
            assert(self.state().code =~= Seq::<char>::empty());
        }
        let code_lines = lines_of(&buf);
        let ghost ls = seqs_view(code_lines@).map_values(|l: Seq<char>| code_line(l, avail));
        let mut i: usize = 0;
        while i < code_lines.len()
            invariant
                i <= code_lines@.len(),
                ls == seqs_view(code_lines@).map_values(|l: Seq<char>| code_line(l, avail)),
                avail == spec_content_width(old(self).max_width, st.depth),
                code_style == spec_plain(Some(MdColor::Focus)),
                self.state() == emit_all(cleared, ls.take(i as int)),
                self.max_width == old(self).max_width,
            decreases code_lines@.len() - i,
        {
            let text = string_from_chars(code_lines[i].as_slice());
            let truncated = truncate_str(text.as_str(), avail);
            let line = vec![(truncated, code_style)];
            proof {
                assert(frags_view(line@) =~= ls[i as int]);
                assert(ls.take(i + 1).drop_last() =~= ls.take(i as int));
            }
            self.emit_line(line);
            i += 1;
        }
        proof {
            assert(ls.take(ls.len() as int) =~= ls);
            assert(buf@ == st.code);
        }
        self.emit_blank();
    }

    /// Handle the start of an element.
    fn start_tag(&mut self, tag: MdTag)
        requires
            old(self).blockquote_depth < usize::MAX,
        ensures
            final(self).state() == spec_start(old(self).state(), tag),
            final(self).max_width == old(self).max_width,
    {
        match tag {
            MdTag::Heading | MdTag::Strong => self.push_modifier(Emphasis::Bold),
            MdTag::Emphasis => self.push_modifier(Emphasis::Italic),
            MdTag::Strikethrough => self.push_modifier(Emphasis::CrossedOut),
            MdTag::BlockQuote => {
                self.blockquote_depth = self.blockquote_depth + 1;
            },
            MdTag::CodeBlock => {
                self.in_code_block = true;
                self.code_buf = Vec::new();
                assert(self.state().code =~= Seq::<char>::empty());
            },
            MdTag::List(start) => {
                self.list_stack.push(start);
            },
            MdTag::Item => {
                let n = self.list_stack.len();
                let mut marker: Vec<char> = Vec::new();
                if n > 0 && self.list_stack[n - 1].is_some() {
                    let k = self.list_stack[n - 1].unwrap();
                    push_decimal_u64(&mut marker, k);
                    marker.push('.');
                    marker.push(' ');
                    let next = if k == u64::MAX { 0 } else { k + 1 };
                    self.list_stack.set(n - 1, Some(next));
                } else {
                    marker.push('-');
                    marker.push(' ');
                }
                assert(marker@ =~= item_marker(old(self).list_stack@));
                assert(self.list_stack@ =~= bump(old(self).list_stack@));
                self.pending_item_marker = Some(string_from_chars(marker.as_slice()));
            },
            _ => {},
        }
    }

    /// Handle the end of an element.
    fn end_tag(&mut self, tag: MdTag)
        ensures
            final(self).state() == spec_end(old(self).state(), tag, old(self).max_width),
            final(self).max_width == old(self).max_width,
    {
        match tag {
            MdTag::Paragraph => {
                self.flush_paragraph();
                self.emit_blank();
            },
            MdTag::Heading => {
                self.flush_paragraph();
                self.emit_blank();
                self.pop_style();
            },
            MdTag::BlockQuote => {
                self.blockquote_depth = self.blockquote_depth.saturating_sub(1);
            },
            MdTag::CodeBlock => self.end_code_block(),
            MdTag::List(_) => {
                if self.list_stack.len() > 0 {
                    self.list_stack.pop();
                }
            },
            MdTag::Item => {
                self.flush_paragraph();
                self.pending_item_marker = None;
            },
            MdTag::Emphasis | MdTag::Strong | MdTag::Strikethrough => self.pop_style(),
            MdTag::Other => {},
        }
    }

    /// Handle one event.
    fn event(&mut self, ev: &MdEvent)
        requires
            old(self).blockquote_depth < usize::MAX,
        ensures
            final(self).state() == spec_event(old(self).state(), *ev, old(self).max_width),
            final(self).max_width == old(self).max_width,
    {
        match ev {
            MdEvent::Start(tag) => self.start_tag(*tag),
            MdEvent::End(tag) => self.end_tag(*tag),
            MdEvent::Text(t) => {
                if self.in_code_block {
                    let mut cs = crate::render::overflow::chars_of(t.as_str());
                    self.code_buf.append(&mut cs);
                } else {
                    let style = self.current_style();
                    let ghost before = self.spans@;
                    self.spans.push((copy_string(t), style));
                    assert(frags_view(self.spans@) =~= frags_view(before).push((t@, style)));
                }
            },
            MdEvent::Code(t) => {
                let style = self.current_style().with_fg(MdColor::Focus);
                let ghost before = self.spans@;
                self.spans.push((copy_string(t), style));
                assert(frags_view(self.spans@) =~= frags_view(before).push((t@, style)));
            },
            MdEvent::SoftBreak => {
                if self.in_code_block {
                    self.code_buf.push('\n');
                } else {
                    let style = self.current_style();
                    let sp = vec![' '];
                    assert(sp@ =~= seq![' ']);
                    let ghost before = self.spans@;
                    self.spans.push((string_from_chars(sp.as_slice()), style));
                    assert(frags_view(self.spans@) =~= frags_view(before).push((seq![' '], style)));
                }
            },
            MdEvent::HardBreak => {
                if self.in_code_block {
                    self.code_buf.push('\n');
                } else {
                    self.flush_paragraph();
                }
            },
            MdEvent::Rule => {
                let avail = self.content_width();
                let n = if avail < 40 { avail } else { 40 };
                let mut dashes: Vec<char> = Vec::new();
                let mut k: usize = 0;
                while k < n
                    invariant
                        k <= n,
                        dashes@ == Seq::new(k as nat, |i: int| '\u{2500}'),
                    decreases n - k,
                {
                    dashes.push('\u{2500}');
                    k += 1;
                    assert(dashes@ =~= Seq::new(k as nat, |i: int| '\u{2500}'));
                }
                let line = vec![(string_from_chars(dashes.as_slice()), MdStyle::plain(Some(MdColor::Dim)))];
                assert(frags_view(line@) =~= rule_line(self.state(), self.max_width));
                self.emit_line(line);
            },
            MdEvent::Other => {},
        }
    }
}

/// `n` spaces.
fn space_string(n: usize) -> (s: String)
    ensures
        s@ == spaces(n as nat),
{
    let mut cs: Vec<char> = Vec::new();
    let mut k: usize = 0;
    while k < n
        invariant
            k <= n,
            cs@ == spaces(k as nat),
        decreases n - k,
    {
        cs.push(' ');
        k += 1;
        assert(cs@ =~= spaces(k as nat));
    }
    string_from_chars(cs.as_slice())
}

/// A copy of a line of fragments.
fn copy_frags(v: &Vec<(String, MdStyle)>) -> (r: Vec<(String, MdStyle)>)
    ensures
        frags_view(r@) == frags_view(v@),
{
    let mut out: Vec<(String, MdStyle)> = Vec::new();
    let mut k: usize = 0;
    while k < v.len()
        invariant
            k <= v@.len(),
            frags_view(out@) == frags_view(v@).take(k as int),
        decreases v@.len() - k,
    {
        let ghost before = out@;
        out.push((copy_string(&v[k].0), v[k].1));
        k += 1;
        assert(frags_view(out@) =~= frags_view(v@).take(k as int)) by {
            assert(frags_view(out@) =~= frags_view(before).push(frags_view(v@)[k - 1]));
        }
    }
    assert(frags_view(v@).take(v@.len() as int) =~= frags_view(v@));
    out
}

/// The lines of `s`, as `str::lines` yields them.
fn lines_of(s: &Vec<char>) -> (r: Vec<Vec<char>>)
    ensures
        seqs_view(r@) == spec_lines(s@),
{
    let pieces = split_at(s, '\n');
    let ghost p = seqs_view(pieces@);
    proof {
        lemma_split_nonempty(s@, '\n');
    }
    let last = pieces.len() - 1;
    let mut out: Vec<Vec<char>> = Vec::new();
    let mut k: usize = 0;
    while k < last
        invariant
            k <= last,
            last == pieces@.len() - 1,
            p == seqs_view(pieces@),
            seqs_view(out@) == p.drop_last().map_values(|l: Seq<char>| strip_cr(l)).take(k as int),
        decreases last - k,
    {
        let mut line = copied(&pieces[k]);
        let n = line.len();
        if n > 0 && line[n - 1] == '\r' {
            line.pop();
        }
        let ghost before = out@;
        proof {
            assert(line@ == strip_cr(p[k as int])) by {
                if n > 0 && p[k as int].last() == '\r' {
                    assert(line@ =~= p[k as int].drop_last());
                }
            }
        }
        out.push(line);
        k += 1;
        assert(seqs_view(out@) =~= p.drop_last().map_values(|l: Seq<char>| strip_cr(l)).take(k as int)) by {
            assert(seqs_view(out@) =~= seqs_view(before).push(strip_cr(p[k - 1])));
        }
    }
    proof {
        let ended = p.drop_last().map_values(|l: Seq<char>| strip_cr(l));
        assert(ended.take(k as int) =~= ended);
    }
    if pieces[last].len() > 0 {
        let ghost before = out@;
        out.push(copied(&pieces[last]));
        assert(seqs_view(out@) =~= seqs_view(before).push(p.last()));
    }
    out
}

/// Render a sequence of markdown events into styled, word-wrapped lines of
/// fragments, as `spec_render` states: words are wrapped at `max_width`
/// columns, a word wider than that is not broken, and code block lines are
/// truncated.
pub fn render_events(events: &Vec<MdEvent>, max_width: usize) -> (r: Vec<Vec<(String, MdStyle)>>)
    ensures
        lines_view(r@) == spec_render(events@, max_width),
{
    if max_width == 0 {
        let empty: Vec<(String, MdStyle)> = Vec::new();
        assert(frags_view(empty@) =~= Seq::<Frag>::empty());
        let r = vec![empty];
        assert(lines_view(r@) =~= seq![Seq::<Frag>::empty()]);
        return r;
    }
    let mut renderer = MdRenderer::new(max_width);
    let mut i: usize = 0;
    while i < events.len()
        invariant
            i <= events@.len(),
            renderer.max_width == max_width,
            renderer.state() == spec_run(events@.take(i as int), max_width),
            renderer.blockquote_depth <= i,
        decreases events@.len() - i,
    {
        proof {
            assert(events@.take(i + 1).drop_last() =~= events@.take(i as int));
            lemma_event_depth(renderer.state(), events@[i as int], max_width);
        }
        renderer.event(&events[i]);
        i += 1;
    }
    proof {
        assert(events@.take(events@.len() as int) =~= events@);
    }
    renderer.flush_paragraph();
    let mut lines = renderer.lines;
    if lines.len() == 0 {
        let empty: Vec<(String, MdStyle)> = Vec::new();
        assert(frags_view(empty@) =~= Seq::<Frag>::empty());
        lines.push(empty);
        assert(lines_view(lines@) =~= seq![Seq::<Frag>::empty()]);
    }
    let n = lines.len();
    if n > 1 && all_empty(&lines[n - 1]) {
        let ghost before = lines@;
        lines.pop();
        assert(lines_view(lines@) =~= lines_view(before).drop_last());
    }
    lines
}

/// Whether every fragment of a line is empty.
fn all_empty(line: &Vec<(String, MdStyle)>) -> (b: bool)
    ensures
        b == blank(frags_view(line@)),
{
    let mut k: usize = 0;
    while k < line.len()
        invariant
            k <= line@.len(),
            forall|j: int| 0 <= j < k ==> (#[trigger] frags_view(line@)[j]).0.len() == 0,
        decreases line@.len() - k,
    {
        if !line[k].0.as_str().is_empty() {
            assert(frags_view(line@)[k as int].0.len() != 0);
            return false;
        }
        k += 1;
    }
    true
}

} // verus!
