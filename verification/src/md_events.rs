use vstd::prelude::*;
use pulldown_cmark::{Alignment, CodeBlockKind, Event, Options, Parser, Tag, TagEnd};

verus! {

/// Column alignment of a table.
#[derive(Clone, Copy, Debug, PartialEq, Eq, Structural)]
pub enum MdAlign {
    Unaligned,
    Left,
    Center,
    Right,
}

/// The start of a Markdown element, as the logic needs it.
pub enum MdTag {
    Paragraph,
    Heading(u8),
    BlockQuote,
    /// A code block with the info string of a fenced block, or `None` for an
    /// indented one.
    CodeBlock(Option<String>),
    List(Option<u64>),
    Item,
    FootnoteDefinition(String),
    Table(Vec<MdAlign>),
    TableHead,
    TableRow,
    TableCell,
    Emphasis,
    Strong,
    Strikethrough,
    Link { dest_url: String },
    Image { dest_url: String, title: String },
    Other,
}

/// The end of a Markdown element.
#[derive(Clone, Copy, Debug, PartialEq, Eq, Structural)]
pub enum MdTagEnd {
    Paragraph,
    Heading,
    BlockQuote,
    CodeBlock,
    List,
    Item,
    FootnoteDefinition,
    Table,
    TableHead,
    TableRow,
    TableCell,
    Emphasis,
    Strong,
    Strikethrough,
    Link,
    Image,
    Other,
}

/// One event of the CommonMark event stream.
pub enum MdEvent {
    Start(MdTag),
    End(MdTagEnd),
    Text(String),
    Code(String),
    Html(String),
    InlineHtml(String),
    FootnoteReference(String),
    SoftBreak,
    HardBreak,
    Rule,
    TaskListMarker(bool),
}

#[verifier::external_type_specification]
#[verifier::external_body]
pub struct ExCmarkEvent<'a>(Event<'a>);

#[verifier::external_type_specification]
#[verifier::external_body]
pub struct ExCmarkTag<'a>(Tag<'a>);

#[verifier::external_type_specification]
#[verifier::external_body]
pub struct ExCmarkTagEnd(TagEnd);

#[verifier::external_type_specification]
#[verifier::external_body]
pub struct ExCmarkAlignment(Alignment);

/// Parser options: tables, footnotes, strikethrough, task lists and heading
/// attributes.
pub const CMARK_OPTIONS: u32 = 94;

/// The event stream that the CommonMark parser produces for a text under
/// the given option bits.
pub uninterp spec fn cmark_events(text: Seq<char>, options: u32) -> Seq<MdEvent>;

/// Runs `pulldown_cmark::Parser::new_ext(text, options)` and converts each
/// event, one for one, into an `MdEvent`. The result is named
/// `cmark_events`; what the parser produces is not restated here.
#[verifier::external_body]
pub fn parse_cmark_events(text: &str, options: u32) -> (r: Vec<MdEvent>)
    ensures
        r@ == cmark_events(text@, options),
{
    Parser::new_ext(text, Options::from_bits_truncate(options)).map(md_event_from).collect()
}

/// Converts a `pulldown_cmark::Event`, variant for variant.
#[verifier::external_body]
fn md_event_from(e: Event<'_>) -> MdEvent {
    match e {
        Event::Start(t) => MdEvent::Start(md_tag_from(t)),
        Event::End(t) => MdEvent::End(md_tag_end_from(t)),
        Event::Text(s) => MdEvent::Text(s.to_string()),
        Event::Code(s) => MdEvent::Code(s.to_string()),
        Event::Html(s) => MdEvent::Html(s.to_string()),
        Event::InlineHtml(s) => MdEvent::InlineHtml(s.to_string()),
        Event::FootnoteReference(s) => MdEvent::FootnoteReference(s.to_string()),
        Event::SoftBreak => MdEvent::SoftBreak,
        Event::HardBreak => MdEvent::HardBreak,
        Event::Rule => MdEvent::Rule,
        Event::TaskListMarker(b) => MdEvent::TaskListMarker(b),
    }
}

/// Converts a block-level `pulldown_cmark::Tag`, variant for variant.
#[verifier::external_body]
fn md_tag_from(t: Tag<'_>) -> MdTag {
    match t {
        Tag::Paragraph => MdTag::Paragraph,
        Tag::Heading { level, .. } => MdTag::Heading(level as u8),
        Tag::BlockQuote => MdTag::BlockQuote,
        Tag::CodeBlock(CodeBlockKind::Fenced(info)) => MdTag::CodeBlock(Some(info.to_string())),
        Tag::CodeBlock(CodeBlockKind::Indented) => MdTag::CodeBlock(None),
        Tag::List(first) => MdTag::List(first),
        Tag::Item => MdTag::Item,
        Tag::FootnoteDefinition(label) => MdTag::FootnoteDefinition(label.to_string()),
        Tag::Table(aligns) => MdTag::Table(aligns.into_iter().map(md_align_from).collect()),
        other => md_inline_tag_from(other),
    }
}

/// Converts a table-part or span-level `pulldown_cmark::Tag`.
#[verifier::external_body]
fn md_inline_tag_from(t: Tag<'_>) -> MdTag {
    match t {
        Tag::TableHead => MdTag::TableHead,
        Tag::TableRow => MdTag::TableRow,
        Tag::TableCell => MdTag::TableCell,
        Tag::Emphasis => MdTag::Emphasis,
        Tag::Strong => MdTag::Strong,
        Tag::Strikethrough => MdTag::Strikethrough,
        Tag::Link { dest_url, .. } => MdTag::Link { dest_url: dest_url.to_string() },
        Tag::Image { dest_url, title, .. } => MdTag::Image { dest_url: dest_url.to_string(), title: title.to_string() },
        _ => MdTag::Other,
    }
}

/// Converts a `pulldown_cmark::Alignment`.
#[verifier::external_body]
fn md_align_from(a: Alignment) -> MdAlign {
    match a {
        Alignment::None => MdAlign::Unaligned,
        Alignment::Left => MdAlign::Left,
        Alignment::Center => MdAlign::Center,
        Alignment::Right => MdAlign::Right,
    }
}

/// Converts a block-level `pulldown_cmark::TagEnd`.
#[verifier::external_body]
fn md_tag_end_from(t: TagEnd) -> MdTagEnd {
    match t {
        TagEnd::Paragraph => MdTagEnd::Paragraph,
        TagEnd::Heading(_) => MdTagEnd::Heading,
        TagEnd::BlockQuote => MdTagEnd::BlockQuote,
        TagEnd::CodeBlock => MdTagEnd::CodeBlock,
        TagEnd::List(_) => MdTagEnd::List,
        TagEnd::Item => MdTagEnd::Item,
        TagEnd::FootnoteDefinition => MdTagEnd::FootnoteDefinition,
        TagEnd::Table => MdTagEnd::Table,
        other => md_inline_tag_end_from(other),
    }
}

/// Converts a table-part or span-level `pulldown_cmark::TagEnd`.
#[verifier::external_body]
fn md_inline_tag_end_from(t: TagEnd) -> MdTagEnd {
    match t {
        TagEnd::TableHead => MdTagEnd::TableHead,
        TagEnd::TableRow => MdTagEnd::TableRow,
        TagEnd::TableCell => MdTagEnd::TableCell,
        TagEnd::Emphasis => MdTagEnd::Emphasis,
        TagEnd::Strong => MdTagEnd::Strong,
        TagEnd::Strikethrough => MdTagEnd::Strikethrough,
        TagEnd::Link => MdTagEnd::Link,
        TagEnd::Image => MdTagEnd::Image,
        _ => MdTagEnd::Other,
    }
}

} // verus!
