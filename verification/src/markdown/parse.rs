//! Markdown parsing through `pulldown-cmark`: its events are read into the
//! renderer's own event type, and rendered.

use pulldown_cmark::{Event, Options, Parser, Tag, TagEnd};
use vstd::prelude::*;

use crate::markdown::render::{render_events, spec_render, MdEvent, MdTag};
use crate::markdown::style::MdStyle;
use crate::markdown::wrap::{frags_view, lines_view, Frag};

verus! {

/// `pulldown_cmark::Event`, carried through unread by verified code.
#[verifier::external_type_specification]
#[verifier::external_body]
pub struct ExEvent<'a>(Event<'a>);

/// The events `pulldown_cmark::Parser::new_ext` yields for a text with
/// strikethrough enabled, in order, each read into the renderer's terms as
/// `event_view` reads it. The parser is a function of the text and the
/// options alone, and the reading is one arm per variant.
pub uninterp spec fn markdown_events_of(text: Seq<char>) -> Seq<MdEvent>;

/// Parse `text` with `pulldown_cmark::Parser::new_ext` (strikethrough
/// enabled) and read every event it yields into the renderer's terms, in
/// order.
#[verifier::external_body]
fn parse_events(text: &str) -> (r: Vec<MdEvent>)
    ensures
        r@ == markdown_events_of(text@),
{
    Parser::new_ext(text, Options::ENABLE_STRIKETHROUGH).map(|event| event_view(&event)).collect()
}

/// A pulldown-cmark event in the renderer's terms: the start or end of an
/// element with its tag read by `start_tag` or `end_tag`, text and inline
/// code with their text, breaks and rules as they are, and every other
/// event as `MdEvent::Other`.
#[verifier::external_body]
fn event_view<'a>(event: &Event<'a>) -> MdEvent {
    match event {
        Event::Start(_) => MdEvent::Start(start_tag(event)),
        Event::End(_) => MdEvent::End(end_tag(event)),
        Event::Text(t) => MdEvent::Text(t.to_string()),
        Event::Code(t) => MdEvent::Code(t.to_string()),
        Event::SoftBreak => MdEvent::SoftBreak,
        Event::HardBreak => MdEvent::HardBreak,
        Event::Rule => MdEvent::Rule,
        _ => MdEvent::Other,
    }
}

/// The tag of a pulldown-cmark start event in the renderer's terms; tags the
/// renderer does not style, and events that are no start, are
/// `MdTag::Other`.
#[verifier::external_body]
fn start_tag<'a>(event: &Event<'a>) -> MdTag {
    match event {
        Event::Start(Tag::Paragraph) => MdTag::Paragraph,
        Event::Start(Tag::Heading { .. }) => MdTag::Heading,
        Event::Start(Tag::BlockQuote(_)) => MdTag::BlockQuote,
        Event::Start(Tag::CodeBlock(_)) => MdTag::CodeBlock,
        Event::Start(Tag::List(start)) => MdTag::List(*start),
        Event::Start(Tag::Item) => MdTag::Item,
        Event::Start(Tag::Emphasis) => MdTag::Emphasis,
        Event::Start(Tag::Strong) => MdTag::Strong,
        Event::Start(Tag::Strikethrough) => MdTag::Strikethrough,
        _ => MdTag::Other,
    }
}

/// The tag of a pulldown-cmark end event in the renderer's terms (a list's
/// end carries no number); tags the renderer does not style, and events that
/// are no end, are `MdTag::Other`.
#[verifier::external_body]
fn end_tag<'a>(event: &Event<'a>) -> MdTag {
    match event {
        Event::End(TagEnd::Paragraph) => MdTag::Paragraph,
        Event::End(TagEnd::Heading(_)) => MdTag::Heading,
        Event::End(TagEnd::BlockQuote) => MdTag::BlockQuote,
        Event::End(TagEnd::CodeBlock) => MdTag::CodeBlock,
        Event::End(TagEnd::List(_)) => MdTag::List(None),
        Event::End(TagEnd::Item) => MdTag::Item,
        Event::End(TagEnd::Emphasis) => MdTag::Emphasis,
        Event::End(TagEnd::Strong) => MdTag::Strong,
        Event::End(TagEnd::Strikethrough) => MdTag::Strikethrough,
        _ => MdTag::Other,
    }
}

/// Parse `text` as markdown and render it as styled lines word-wrapped at
/// `max_width` columns: the rendering (`render_events`) of the events the
/// parse yields. At width 0 the result is one empty line, and the text is
/// not parsed.
pub fn render_markdown(text: &str, max_width: usize) -> (r: Vec<Vec<(String, MdStyle)>>)
    ensures
        max_width == 0 ==> lines_view(r@) == seq![Seq::<Frag>::empty()],
        max_width > 0 ==> lines_view(r@) == spec_render(markdown_events_of(text@), max_width),
{
    if max_width == 0 {
        let empty: Vec<(String, MdStyle)> = Vec::new();
        assert(frags_view(empty@) =~= Seq::<Frag>::empty());
        let r = vec![empty];
        assert(lines_view(r@) =~= seq![Seq::<Frag>::empty()]);
        return r;
    }
    let events = parse_events(text);
    let r = render_events(&events, max_width);
    assert(lines_view(r@) == spec_render(events@, max_width));
    r
}

} // verus!
