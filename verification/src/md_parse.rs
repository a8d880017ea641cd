//! Markdown text to content blocks: the text's Unicode bullets are first
//! rewritten as list markers, `pulldown-cmark` reads it (with
//! strikethrough, tables, footnotes and task lists), and its events are
//! turned into blocks by the library's own event reader.

use vstd::prelude::*;
use pulldown_cmark::{CodeBlockKind, Event, Options, Parser, Tag, TagEnd};
use crate::blocks::ContentBlock;
use crate::markdown::{blocks_view, events_to_blocks, md_blocks, normalize_list_markers, normalized_markdown, MdEvent};

verus! {

#[verifier::external_type_specification]
#[verifier::external_body]
pub struct ExMdEvent<'a>(Event<'a>);

#[verifier::external_type_specification]
#[verifier::external_body]
pub struct ExMdTag<'a>(Tag<'a>);

#[verifier::external_type_specification]
#[verifier::external_body]
pub struct ExMdTagEnd(TagEnd);

/// The events `pulldown-cmark` reads from `text` (with strikethrough,
/// tables, footnotes and task lists), as the library's events.
pub uninterp spec fn md_parse(text: Seq<char>) -> Seq<MdEvent>;

/// `pulldown_cmark::Parser::new_ext` with strikethrough, tables, footnotes
/// and task lists, its events collected and each given as the library's
/// event. Claimed of it: the result is the named event list of `text`; the
/// parser is written not to panic on any input.
#[verifier::external_body]
fn markdown_events(text: &str) -> (r: Vec<MdEvent>)
    ensures
        r@ == md_parse(text@),
{
    let mut options = Options::empty();
    options.insert(Options::ENABLE_STRIKETHROUGH);
    options.insert(Options::ENABLE_TABLES);
    options.insert(Options::ENABLE_FOOTNOTES);
    options.insert(Options::ENABLE_TASKLISTS);
    Parser::new_ext(text, options).map(md_event_of).collect()
}

/// One `pulldown_cmark::Event` as the library's event (part of
/// [`markdown_events`]; one arm per variant, fields moved).
#[verifier::external_body]
fn md_event_of(event: Event) -> MdEvent {
    match event {
        Event::Start(tag) => md_start_of(tag),
        Event::End(tag) => md_end_of(tag),
        Event::Text(t) => MdEvent::Text(t.to_string()),
        Event::Code(t) => MdEvent::Code(t.to_string()),
        Event::SoftBreak => MdEvent::SoftBreak,
        Event::HardBreak => MdEvent::HardBreak,
        Event::Rule => MdEvent::Rule,
        Event::TaskListMarker(checked) => MdEvent::TaskListMarker(checked),
        _ => MdEvent::Other,
    }
}

/// The start of a `pulldown_cmark::Tag` as the library's event (part of
/// [`markdown_events`]).
#[verifier::external_body]
fn md_start_of(tag: Tag) -> MdEvent {
    match tag {
        Tag::Heading { level, .. } => MdEvent::StartHeading(level as u8),
        Tag::CodeBlock(CodeBlockKind::Fenced(lang)) => MdEvent::StartCodeBlock(lang.to_string()),
        Tag::CodeBlock(CodeBlockKind::Indented) => MdEvent::StartCodeBlock(String::new()),
        Tag::List(start) => MdEvent::StartList(start),
        Tag::Item => MdEvent::StartItem,
        Tag::BlockQuote(_) => MdEvent::StartBlockQuote,
        Tag::Table(_) => MdEvent::StartTable,
        Tag::TableCell => MdEvent::StartTableCell,
        tag => md_inline_start_of(tag),
    }
}

/// The start of an inline `pulldown_cmark::Tag` as the library's event
/// (part of [`markdown_events`]).
#[verifier::external_body]
fn md_inline_start_of(tag: Tag) -> MdEvent {
    match tag {
        Tag::Link { dest_url, .. } => MdEvent::StartLink(dest_url.to_string()),
        Tag::Emphasis => MdEvent::StartEmphasis,
        Tag::Strong => MdEvent::StartStrong,
        Tag::Strikethrough => MdEvent::StartStrikethrough,
        _ => MdEvent::Other,
    }
}

/// The end of a `pulldown_cmark::TagEnd` as the library's event (part of
/// [`markdown_events`]).
#[verifier::external_body]
fn md_end_of(tag: TagEnd) -> MdEvent {
    match tag {
        TagEnd::Heading(_) => MdEvent::EndHeading,
        TagEnd::CodeBlock => MdEvent::EndCodeBlock,
        TagEnd::List(ordered) => MdEvent::EndList(ordered),
        TagEnd::Item => MdEvent::EndItem,
        TagEnd::BlockQuote(_) => MdEvent::EndBlockQuote,
        TagEnd::Table => MdEvent::EndTable,
        TagEnd::TableHead => MdEvent::EndTableHead,
        TagEnd::TableRow => MdEvent::EndTableRow,
        TagEnd::TableCell => MdEvent::EndTableCell,
        TagEnd::Paragraph => MdEvent::EndParagraph,
        tag => md_inline_end_of(tag),
    }
}

/// The end of an inline `pulldown_cmark::TagEnd` as the library's event
/// (part of [`markdown_events`]).
#[verifier::external_body]
fn md_inline_end_of(tag: TagEnd) -> MdEvent {
    match tag {
        TagEnd::Link => MdEvent::EndLink,
        TagEnd::Emphasis => MdEvent::EndEmphasis,
        TagEnd::Strong => MdEvent::EndStrong,
        TagEnd::Strikethrough => MdEvent::EndStrikethrough,
        _ => MdEvent::Other,
    }
}

/// The blocks of a Markdown text: its bullets rewritten as list markers,
/// read by `pulldown-cmark`, and its events turned into blocks.
pub fn render_markdown(markdown: &str) -> (r: Vec<ContentBlock>)
    ensures
        blocks_view(r@) == md_blocks(md_parse(normalized_markdown(markdown@))),
{
    let normalized = normalize_list_markers(markdown);
    let events = markdown_events(normalized.as_str());
    events_to_blocks(events)
}

} // verus!
