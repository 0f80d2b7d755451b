//! The structural event stream that drives the tree builder.
//!
//! The Markdown parser is an outside collaborator: it turns the input
//! text into an ordered, finite sequence of structural events — starts
//! and ends of constructs, plain text, inline code, footnote references,
//! raw HTML fragments and line breaks. The builder consumes these plain
//! values; everything the parser reports is captured here as an
//! `MdEvent`.

use vstd::prelude::*;

use pulldown_cmark::Event;
use pulldown_cmark::Options;
use pulldown_cmark::Parser;
use pulldown_cmark::Tag;

verus! {

/// A structural construct that a start/end event pair delimits. A
/// construct outside the enumerated set is reported as `Other`.
#[derive(Debug, PartialEq)]
pub enum Construct {
    Heading(u32),
    Paragraph,
    Emphasis,
    Strong,
    /// A link with its destination URL.
    Link(String),
    OrderedList,
    UnorderedList,
    Item,
    Table,
    TableHead,
    TableRow,
    TableCell,
    Strikethrough,
    /// A footnote definition with its label.
    FootnoteDefinition(String),
    Other,
}

/// The spec-level mirror of `Construct`.
pub enum SpecConstruct {
    Heading(u32),
    Paragraph,
    Emphasis,
    Strong,
    Link(Seq<char>),
    OrderedList,
    UnorderedList,
    Item,
    Table,
    TableHead,
    TableRow,
    TableCell,
    Strikethrough,
    FootnoteDefinition(Seq<char>),
    Other,
}

impl View for Construct {
    type V = SpecConstruct;

    open spec fn view(&self) -> SpecConstruct {
        match self {
            Construct::Heading(l) => SpecConstruct::Heading(*l),
            Construct::Paragraph => SpecConstruct::Paragraph,
            Construct::Emphasis => SpecConstruct::Emphasis,
            Construct::Strong => SpecConstruct::Strong,
            Construct::Link(href) => SpecConstruct::Link(href@),
            Construct::OrderedList => SpecConstruct::OrderedList,
            Construct::UnorderedList => SpecConstruct::UnorderedList,
            Construct::Item => SpecConstruct::Item,
            Construct::Table => SpecConstruct::Table,
            Construct::TableHead => SpecConstruct::TableHead,
            Construct::TableRow => SpecConstruct::TableRow,
            Construct::TableCell => SpecConstruct::TableCell,
            Construct::Strikethrough => SpecConstruct::Strikethrough,
            Construct::FootnoteDefinition(l) => SpecConstruct::FootnoteDefinition(l@),
            Construct::Other => SpecConstruct::Other,
        }
    }
}

/// One event of the stream.
#[derive(Debug, PartialEq)]
pub enum MdEvent {
    /// Start of a structural construct.
    Start(Construct),
    /// End of the innermost open construct; it carries no payload.
    End,
    /// Plain text.
    Text(String),
    /// An inline code span: a complete unit, never pushed open.
    Code(String),
    /// A footnote reference with its label: a complete unit.
    FootnoteRef(String),
    /// One raw HTML-like fragment, delivered unparsed.
    Html(String),
    /// A soft or hard line break.
    LineBreak,
    /// Any event kind outside the enumerated set; it produces nothing.
    Other,
}

/// The spec-level mirror of `MdEvent`.
pub enum SpecEvent {
    Start(SpecConstruct),
    End,
    Text(Seq<char>),
    Code(Seq<char>),
    FootnoteRef(Seq<char>),
    Html(Seq<char>),
    LineBreak,
    Other,
}

impl View for MdEvent {
    type V = SpecEvent;

    open spec fn view(&self) -> SpecEvent {
        match self {
            MdEvent::Start(c) => SpecEvent::Start(c@),
            MdEvent::End => SpecEvent::End,
            MdEvent::Text(s) => SpecEvent::Text(s@),
            MdEvent::Code(s) => SpecEvent::Code(s@),
            MdEvent::FootnoteRef(l) => SpecEvent::FootnoteRef(l@),
            MdEvent::Html(h) => SpecEvent::Html(h@),
            MdEvent::LineBreak => SpecEvent::LineBreak,
            MdEvent::Other => SpecEvent::Other,
        }
    }
}

/// The view of an event sequence, event by event.
pub open spec fn events_view(es: Seq<MdEvent>) -> Seq<SpecEvent> {
    es.map_values(|e: MdEvent| e@)
}

/// The event stream that the Markdown parser produces for the given
/// input text, with tables, strikethrough, task lists, footnotes and
/// smart punctuation enabled. The stream is a function of the text
/// alone; nothing more is assumed of it.
pub uninterp spec fn md_event_stream(s: Seq<char>) -> Seq<SpecEvent>;

#[verifier::external_type_specification]
#[verifier::external_body]
pub struct ExEvent<'a>(Event<'a>);

#[verifier::external_type_specification]
#[verifier::external_body]
pub struct ExTag<'a>(Tag<'a>);

/// Relies on `pulldown_cmark::Tag`: each parser construct tag maps
/// one-for-one onto a `Construct`; tags outside the enumerated set
/// become `Other`.
#[verifier::external_body]
fn tag_construct(t: Tag<'_>) -> Construct {
    match t {
        Tag::Heading { level, .. } => Construct::Heading(level as u32),
        Tag::Link { dest_url, .. } => Construct::Link(dest_url.to_string()),
        Tag::FootnoteDefinition(l) => Construct::FootnoteDefinition(l.to_string()),
        Tag::List(Some(_)) => Construct::OrderedList, Tag::List(None) => Construct::UnorderedList,
        Tag::Paragraph => Construct::Paragraph, Tag::Emphasis => Construct::Emphasis,
        Tag::Strong => Construct::Strong, Tag::Item => Construct::Item,
        Tag::Table(_) => Construct::Table, Tag::TableHead => Construct::TableHead,
        Tag::TableRow => Construct::TableRow, Tag::TableCell => Construct::TableCell,
        Tag::Strikethrough => Construct::Strikethrough, _ => Construct::Other,
    }
}

/// Relies on `pulldown_cmark::Event`: each parser event maps one-for-one
/// onto an `MdEvent`; events outside the enumerated set become `Other`.
#[verifier::external_body]
fn event_md(ev: Event<'_>) -> MdEvent {
    match ev {
        Event::Start(t) => MdEvent::Start(tag_construct(t)),
        Event::End(_) => MdEvent::End,
        Event::Text(s) => MdEvent::Text(s.to_string()),
        Event::Code(s) => MdEvent::Code(s.to_string()),
        Event::FootnoteReference(s) => MdEvent::FootnoteRef(s.to_string()),
        Event::Html(s) | Event::InlineHtml(s) => MdEvent::Html(s.to_string()),
        Event::SoftBreak | Event::HardBreak => MdEvent::LineBreak,
        _ => MdEvent::Other,
    }
}

/// Relies on `pulldown_cmark::Parser::new_ext`: parsing is deterministic,
/// so the event stream is a function of the input text alone.
#[verifier::external_body]
pub(crate) fn markdown_events(markdown: &str) -> (r: Vec<MdEvent>)
    ensures
        events_view(r@) == md_event_stream(markdown@),
{
    let opts = Options::ENABLE_TABLES | Options::ENABLE_STRIKETHROUGH | Options::ENABLE_TASKLISTS
        | Options::ENABLE_FOOTNOTES | Options::ENABLE_SMART_PUNCTUATION;
    Parser::new_ext(markdown, opts).map(event_md).collect()
}

} // verus!
