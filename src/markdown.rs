//! Markdown as a flat stream of block and inline events.
//!
//! The parsing itself is pulldown-cmark's; this module turns each of its events
//! into a plain [`MdEvent`] that the converters consume.
use vstd::prelude::*;

use pulldown_cmark::{CowStr, Event, HeadingLevel, Options, Parser, Tag, TagEnd};

verus! {

#[verifier::external_type_specification]
#[verifier::external_body]
pub struct ExTag<'a>(Tag<'a>);

#[verifier::external_type_specification]
#[verifier::external_body]
pub struct ExCowStr<'a>(CowStr<'a>);

#[verifier::external_type_specification]
#[verifier::external_body]
pub struct ExBlockQuoteKind(pulldown_cmark::BlockQuoteKind);

#[verifier::external_type_specification]
#[verifier::external_body]
pub struct ExMetadataBlockKind(pulldown_cmark::MetadataBlockKind);

#[verifier::external_type_specification]
pub struct ExHeadingLevel(HeadingLevel);

#[verifier::external_type_specification]
pub struct ExTagEnd(TagEnd);

#[verifier::external_type_specification]
pub struct ExEvent<'a>(Event<'a>);

/// Relies on `pulldown_cmark::Tag::to_end`: the closing tag that matches an opening one.
pub assume_specification<'a>[ Tag::<'a>::to_end ](t: &Tag<'a>) -> TagEnd;

/// Relies on `pulldown_cmark::CowStr::into_string`: the text as an owned string.
pub assume_specification<'a>[ CowStr::<'a>::into_string ](s: CowStr<'a>) -> String;

/// Parser option: GFM pipe tables.
pub const OPT_TABLES: u32 = 2;

/// Parser option: `~~strikethrough~~`.
pub const OPT_STRIKETHROUGH: u32 = 8;

/// The block and inline containers that the converters tell apart.
#[derive(Clone, Copy, Debug, PartialEq, Eq, Structural)]
pub enum MdTag {
    Paragraph,
    /// A heading of level 1 to 6.
    Heading(u8),
    Table,
    TableHead,
    TableRow,
    TableCell,
    Emphasis,
    Strong,
    Other,
}

/// One event of a parsed Markdown document.
#[derive(Debug)]
pub enum MdEvent {
    Start(MdTag),
    End(MdTag),
    Text(String),
    /// A soft or hard line break.
    Break,
    Other,
}

/// The mathematical value of an [`MdEvent`].
pub enum EventView {
    Start(MdTag),
    End(MdTag),
    Text(Seq<char>),
    Break,
    Other,
}

impl View for MdEvent {
    type V = EventView;

    open spec fn view(&self) -> EventView {
        match self {
            MdEvent::Start(t) => EventView::Start(*t),
            MdEvent::End(t) => EventView::End(*t),
            MdEvent::Text(s) => EventView::Text(s@),
            MdEvent::Break => EventView::Break,
            MdEvent::Other => EventView::Other,
        }
    }
}

pub open spec fn event_views(v: Seq<MdEvent>) -> Seq<EventView> {
    v.map_values(|e: MdEvent| e@)
}

/// The events that pulldown-cmark yields for a document under the given option bits.
pub uninterp spec fn markdown_events(md: Seq<char>, options: u32) -> Seq<EventView>;

/// The heading level that a pulldown-cmark level stands for.
pub open spec fn level_number(l: HeadingLevel) -> u8 {
    match l {
        HeadingLevel::H1 => 1,
        HeadingLevel::H2 => 2,
        HeadingLevel::H3 => 3,
        HeadingLevel::H4 => 4,
        HeadingLevel::H5 => 5,
        HeadingLevel::H6 => 6,
    }
}

/// The container that a pulldown-cmark closing tag stands for.
pub open spec fn tag_of(t: TagEnd) -> MdTag {
    match t {
        TagEnd::Paragraph => MdTag::Paragraph,
        TagEnd::Heading(l) => MdTag::Heading(level_number(l)),
        TagEnd::Table => MdTag::Table,
        TagEnd::TableHead => MdTag::TableHead,
        TagEnd::TableRow => MdTag::TableRow,
        TagEnd::TableCell => MdTag::TableCell,
        TagEnd::Emphasis => MdTag::Emphasis,
        TagEnd::Strong => MdTag::Strong,
        _ => MdTag::Other,
    }
}

pub fn md_tag(t: TagEnd) -> (r: MdTag)
    ensures
        r == tag_of(t),
        r matches MdTag::Heading(l) ==> 1 <= l <= 6,
{
    match t {
        TagEnd::Paragraph => MdTag::Paragraph,
        TagEnd::Heading(l) => MdTag::Heading(
            match l {
                HeadingLevel::H1 => 1,
                HeadingLevel::H2 => 2,
                HeadingLevel::H3 => 3,
                HeadingLevel::H4 => 4,
                HeadingLevel::H5 => 5,
                HeadingLevel::H6 => 6,
            },
        ),
        TagEnd::Table => MdTag::Table,
        TagEnd::TableHead => MdTag::TableHead,
        TagEnd::TableRow => MdTag::TableRow,
        TagEnd::TableCell => MdTag::TableCell,
        TagEnd::Emphasis => MdTag::Emphasis,
        TagEnd::Strong => MdTag::Strong,
        _ => MdTag::Other,
    }
}

/// One pulldown-cmark event as a plain event: openings and closings keep their
/// container, text keeps its characters, both kinds of line break become
/// `Break`, and everything else (code, HTML, rules, ...) becomes `Other`.
pub fn md_event(e: Event) -> (r: MdEvent)
    ensures
        e matches Event::End(t) ==> r == MdEvent::End(tag_of(t)),
        e matches Event::Start(_) ==> r is Start,
        e is Text <==> r is Text,
        (e is SoftBreak || e is HardBreak) <==> r is Break,
        !(e is Start || e is End || e is Text || e is SoftBreak || e is HardBreak) ==> r is Other,
{
    match e {
        Event::Start(t) => MdEvent::Start(md_tag(t.to_end())),
        Event::End(t) => MdEvent::End(md_tag(t)),
        Event::Text(s) => MdEvent::Text(s.into_string()),
        Event::SoftBreak => MdEvent::Break,
        Event::HardBreak => MdEvent::Break,
        _ => MdEvent::Other,
    }
}

/// Relies on `pulldown_cmark::Parser::new_ext`: the events of the document, in
/// order, which depend on the text and the option bits alone.
#[verifier::external_body]
fn parse_events(md: &str, options: u32) -> (r: Vec<MdEvent>)
    ensures
        event_views(r@) == markdown_events(md@, options),
{
    Parser::new_ext(md, Options::from_bits_truncate(options)).map(md_event).collect()
}

/// The events of a Markdown document, pipe tables recognised, and strikethrough
/// too when `strikethrough` is set.
pub fn markdown_to_events(md: &str, strikethrough: bool) -> (r: Vec<MdEvent>)
    ensures
        event_views(r@) == markdown_events(
            md@,
            if strikethrough {
                (OPT_TABLES | OPT_STRIKETHROUGH) as u32
            } else {
                OPT_TABLES
            },
        ),
{
    let options: u32 = if strikethrough {
        OPT_TABLES | OPT_STRIKETHROUGH
    } else {
        OPT_TABLES
    };
    parse_events(md, options)
}

} // verus!
