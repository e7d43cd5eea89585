//! The events of a Markdown document, as `pulldown_cmark` reads it.

use pulldown_cmark::{
    Alignment as SourceAlignment, CodeBlockKind, Event, Options, Parser, Tag, TagEnd,
};
use vstd::prelude::*;

use crate::tables::TableRow;
use crate::text::option_text;
use crate::views::{group_views, views};

verus! {

broadcast use group_views;

/// How a table column is aligned.
#[derive(Debug, Clone, Copy, PartialEq, Eq, Structural)]
pub enum Alignment {
    Unset,
    Left,
    Center,
    Right,
}

/// The start of a part of a document, with what the part needs to be shown.
#[derive(Debug, PartialEq, Eq)]
pub enum MarkdownTag {
    Paragraph,
    Heading(u8),
    BlockQuote,
    /// A code block, with the language that a fence names.
    CodeBlock(Option<String>),
    /// A list, with the number of its first item where it is ordered.
    List(Option<u64>),
    Item,
    FootnoteDefinition(String),
    DefinitionList,
    DefinitionListTitle,
    DefinitionListDefinition,
    HtmlBlock,
    MetadataBlock,
    Emphasis,
    Strong,
    Strikethrough,
    Superscript,
    Subscript,
    Link(String),
    Image(String),
    Table(Vec<Alignment>),
    TableHead,
    TableRow,
    TableCell,
}

/// The end of a part of a document.
#[derive(Debug, Clone, Copy, PartialEq, Eq, Structural)]
pub enum MarkdownEnd {
    Paragraph,
    Heading,
    BlockQuote,
    CodeBlock,
    List,
    Item,
    FootnoteDefinition,
    DefinitionList,
    DefinitionListTitle,
    DefinitionListDefinition,
    HtmlBlock,
    MetadataBlock,
    Emphasis,
    Strong,
    Strikethrough,
    Superscript,
    Subscript,
    Link,
    Image,
    Table,
    TableHead,
    TableRow,
    TableCell,
}

/// A step through a document.
#[derive(Debug, PartialEq, Eq)]
pub enum MarkdownEvent {
    Start(MarkdownTag),
    End(MarkdownEnd),
    Text(String),
    Code(String),
    InlineMath(String),
    DisplayMath(String),
    Html(String),
    InlineHtml(String),
    FootnoteReference(String),
    SoftBreak,
    HardBreak,
    Rule,
    TaskListMarker(bool),
}

/// The mathematical form of a start.
#[verifier::ext_equal]
pub enum TagView {
    Paragraph,
    Heading(u8),
    BlockQuote,
    CodeBlock(Option<Seq<char>>),
    List(Option<u64>),
    Item,
    FootnoteDefinition(Seq<char>),
    DefinitionList,
    DefinitionListTitle,
    DefinitionListDefinition,
    HtmlBlock,
    MetadataBlock,
    Emphasis,
    Strong,
    Strikethrough,
    Superscript,
    Subscript,
    Link(Seq<char>),
    Image(Seq<char>),
    Table(Seq<Alignment>),
    TableHead,
    TableRow,
    TableCell,
}

/// The mathematical form of an event.
#[verifier::ext_equal]
pub enum EventView {
    Start(TagView),
    End(MarkdownEnd),
    Text(Seq<char>),
    Code(Seq<char>),
    InlineMath(Seq<char>),
    DisplayMath(Seq<char>),
    Html(Seq<char>),
    InlineHtml(Seq<char>),
    FootnoteReference(Seq<char>),
    SoftBreak,
    HardBreak,
    Rule,
    TaskListMarker(bool),
}

impl View for MarkdownTag {
    type V = TagView;

    open spec fn view(&self) -> TagView {
        match self {
            MarkdownTag::Paragraph => TagView::Paragraph,
            MarkdownTag::Heading(level) => TagView::Heading(*level),
            MarkdownTag::BlockQuote => TagView::BlockQuote,
            MarkdownTag::CodeBlock(language) => TagView::CodeBlock(option_text(*language)),
            MarkdownTag::List(start) => TagView::List(*start),
            MarkdownTag::Item => TagView::Item,
            MarkdownTag::FootnoteDefinition(label) => TagView::FootnoteDefinition(label@),
            MarkdownTag::DefinitionList => TagView::DefinitionList,
            MarkdownTag::DefinitionListTitle => TagView::DefinitionListTitle,
            MarkdownTag::DefinitionListDefinition => TagView::DefinitionListDefinition,
            MarkdownTag::HtmlBlock => TagView::HtmlBlock,
            MarkdownTag::MetadataBlock => TagView::MetadataBlock,
            MarkdownTag::Emphasis => TagView::Emphasis,
            MarkdownTag::Strong => TagView::Strong,
            MarkdownTag::Strikethrough => TagView::Strikethrough,
            MarkdownTag::Superscript => TagView::Superscript,
            MarkdownTag::Subscript => TagView::Subscript,
            MarkdownTag::Link(target) => TagView::Link(target@),
            MarkdownTag::Image(target) => TagView::Image(target@),
            MarkdownTag::Table(alignments) => TagView::Table(alignments@),
            MarkdownTag::TableHead => TagView::TableHead,
            MarkdownTag::TableRow => TagView::TableRow,
            MarkdownTag::TableCell => TagView::TableCell,
        }
    }
}

impl View for MarkdownEvent {
    type V = EventView;

    open spec fn view(&self) -> EventView {
        match self {
            MarkdownEvent::Start(tag) => EventView::Start(tag@),
            MarkdownEvent::End(tag) => EventView::End(*tag),
            MarkdownEvent::Text(text) => EventView::Text(text@),
            MarkdownEvent::Code(text) => EventView::Code(text@),
            MarkdownEvent::InlineMath(text) => EventView::InlineMath(text@),
            MarkdownEvent::DisplayMath(text) => EventView::DisplayMath(text@),
            MarkdownEvent::Html(text) => EventView::Html(text@),
            MarkdownEvent::InlineHtml(text) => EventView::InlineHtml(text@),
            MarkdownEvent::FootnoteReference(label) => EventView::FootnoteReference(label@),
            MarkdownEvent::SoftBreak => EventView::SoftBreak,
            MarkdownEvent::HardBreak => EventView::HardBreak,
            MarkdownEvent::Rule => EventView::Rule,
            MarkdownEvent::TaskListMarker(checked) => EventView::TaskListMarker(*checked),
        }
    }
}

/// The parser's own events.
#[verifier::external_type_specification]
#[verifier::external_body]
pub struct ExEvent<'a>(Event<'a>);

/// The parser's own starts.
#[verifier::external_type_specification]
#[verifier::external_body]
pub struct ExTag<'a>(Tag<'a>);

/// The parser's own ends.
#[verifier::external_type_specification]
#[verifier::external_body]
pub struct ExTagEnd(TagEnd);

/// What an event of the parser says.
pub uninterp spec fn event_content(event: Event<'_>) -> EventView;

/// What a start of the parser says.
pub uninterp spec fn tag_content(tag: Tag<'_>) -> TagView;

/// What an end of the parser says.
pub uninterp spec fn end_content(tag: TagEnd) -> MarkdownEnd;

/// The bits of `pulldown_cmark::Options`, one for each extension that the dashboard
/// uses.
pub const TABLES: u32 = 0x2;

pub const FOOTNOTES: u32 = 0x4;

pub const STRIKETHROUGH: u32 = 0x8;

pub const TASK_LISTS: u32 = 0x10;

pub const MATH: u32 = 0x400;

pub const GITHUB: u32 = 0x800;

pub const WIKI_LINKS: u32 = 0x8000;

/// The extensions that the dashboard reads documents with.
pub const EXTENSIONS: u32 = GITHUB | FOOTNOTES | STRIKETHROUGH | TASK_LISTS | TABLES | MATH
    | WIKI_LINKS;

/// What the parser reads in a text, given the bits of its options.
pub uninterp spec fn parsed_events(text: Seq<char>, options: u32) -> Seq<EventView>;

/// The events of a document, with the extensions that the dashboard uses.
pub open spec fn markdown_events(text: Seq<char>) -> Seq<EventView> {
    parsed_events(text, EXTENSIONS)
}

/// `pulldown_cmark::Parser::new_ext`, and its events to the last one. They are a
/// function of the text and the options. Other options are left out: the parser
/// has panics that only metadata blocks and definition lists can reach.
#[verifier::external_body]
fn source_events(text: &str, options: u32) -> (events: Vec<Event<'_>>)
    requires
        options == EXTENSIONS,
    ensures
        events@.len() == parsed_events(text@, options).len(),
        forall|i: int|
            0 <= i < events.len() ==> event_content(#[trigger] events@[i]) == parsed_events(
                text@,
                options,
            )[i],
{
    Parser::new_ext(text, Options::from_bits_truncate(options)).collect()
}

/// The start or the end in an event, still the parser's own.
pub enum Opened<'a> {
    Start(Tag<'a>),
    End(TagEnd),
    Other,
}

/// Tells starts and ends apart from the other variants of `pulldown_cmark::Event`.
#[verifier::external_body]
fn open_event<'a>(event: &Event<'a>) -> (opened: Opened<'a>)
    ensures
        match opened {
            Opened::Start(tag) => event_content(*event) == EventView::Start(tag_content(tag)),
            Opened::End(tag) => event_content(*event) == EventView::End(end_content(tag)),
            Opened::Other => !(event_content(*event) is Start || event_content(*event) is End),
        },
{
    match event {
        Event::Start(tag) => Opened::Start(tag.clone()),
        Event::End(tag) => Opened::End(*tag),
        _ => Opened::Other,
    }
}

/// Tells the variants of `pulldown_cmark::Event` apart, one for one, but for starts
/// and ends.
#[verifier::external_body]
fn other_event(event: &Event<'_>) -> (other: Option<MarkdownEvent>)
    ensures
        match other {
            Some(other) => event_content(*event) == other@,
            None => event_content(*event) is Start || event_content(*event) is End,
        },
{
    Some(match event {
        Event::Text(text) => MarkdownEvent::Text(text.to_string()),
        Event::Code(text) => MarkdownEvent::Code(text.to_string()),
        Event::InlineMath(text) => MarkdownEvent::InlineMath(text.to_string()),
        Event::DisplayMath(text) => MarkdownEvent::DisplayMath(text.to_string()),
        Event::Html(text) => MarkdownEvent::Html(text.to_string()),
        Event::InlineHtml(text) => MarkdownEvent::InlineHtml(text.to_string()),
        Event::FootnoteReference(text) => MarkdownEvent::FootnoteReference(text.to_string()),
        Event::SoftBreak => MarkdownEvent::SoftBreak,
        Event::HardBreak => MarkdownEvent::HardBreak,
        Event::Rule => MarkdownEvent::Rule,
        Event::TaskListMarker(checked) => MarkdownEvent::TaskListMarker(*checked),
        _ => return None,
    })
}

/// Whether a start is that of a block other than a table.
pub open spec fn is_block(tag: TagView) -> bool {
    match tag {
        TagView::Paragraph | TagView::Heading(_) | TagView::BlockQuote | TagView::CodeBlock(_)
        | TagView::List(_) | TagView::Item | TagView::FootnoteDefinition(_)
        | TagView::DefinitionList | TagView::DefinitionListTitle
        | TagView::DefinitionListDefinition | TagView::HtmlBlock | TagView::MetadataBlock => true,
        _ => false,
    }
}

/// Whether a start is that of a table or of a part of one.
pub open spec fn is_table(tag: TagView) -> bool {
    match tag {
        TagView::Table(_) | TagView::TableHead | TagView::TableRow | TagView::TableCell => true,
        _ => false,
    }
}

/// Tells the block variants of `pulldown_cmark::Tag` apart, one for one.
#[verifier::external_body]
fn block_tag(tag: &Tag<'_>) -> (block: Option<MarkdownTag>)
    ensures
        match block {
            Some(block) => tag_content(*tag) == block@ && is_block(block@),
            None => !is_block(tag_content(*tag)),
        },
{
    Some(match tag {
        Tag::Paragraph => MarkdownTag::Paragraph,
        Tag::Heading { level, .. } => MarkdownTag::Heading(*level as u8),
        Tag::BlockQuote(_) => MarkdownTag::BlockQuote,
        Tag::CodeBlock(CodeBlockKind::Fenced(name)) => MarkdownTag::CodeBlock(Some(name.to_string())),
        Tag::CodeBlock(CodeBlockKind::Indented) => MarkdownTag::CodeBlock(None),
        Tag::List(start) => MarkdownTag::List(*start),
        Tag::Item => MarkdownTag::Item,
        Tag::FootnoteDefinition(label) => MarkdownTag::FootnoteDefinition(label.to_string()),
        Tag::DefinitionList => MarkdownTag::DefinitionList,
        Tag::DefinitionListTitle => MarkdownTag::DefinitionListTitle,
        Tag::DefinitionListDefinition => MarkdownTag::DefinitionListDefinition,
        Tag::HtmlBlock => MarkdownTag::HtmlBlock,
        Tag::MetadataBlock(_) => MarkdownTag::MetadataBlock, _ => return None,
    })
}

/// Tells the table variants of `pulldown_cmark::Tag` apart, one for one.
#[verifier::external_body]
fn table_tag(tag: &Tag<'_>) -> (table: Option<MarkdownTag>)
    ensures
        match table {
            Some(table) => tag_content(*tag) == table@ && is_table(table@),
            None => !is_table(tag_content(*tag)),
        },
{
    Some(match tag {
        Tag::Table(columns) => MarkdownTag::Table(columns.iter().map(|column| match column {
            SourceAlignment::None => Alignment::Unset,
            SourceAlignment::Left => Alignment::Left,
            SourceAlignment::Center => Alignment::Center,
            SourceAlignment::Right => Alignment::Right,
        }).collect()),
        Tag::TableHead => MarkdownTag::TableHead,
        Tag::TableRow => MarkdownTag::TableRow,
        Tag::TableCell => MarkdownTag::TableCell,
        _ => return None,
    })
}

/// Tells the inline variants of `pulldown_cmark::Tag` apart, one for one.
#[verifier::external_body]
fn inline_tag(tag: &Tag<'_>) -> (inline: Option<MarkdownTag>)
    ensures
        match inline {
            Some(inline) => tag_content(*tag) == inline@,
            None => is_block(tag_content(*tag)) || is_table(tag_content(*tag)),
        },
{
    Some(match tag {
        Tag::Emphasis => MarkdownTag::Emphasis,
        Tag::Strong => MarkdownTag::Strong,
        Tag::Strikethrough => MarkdownTag::Strikethrough,
        Tag::Superscript => MarkdownTag::Superscript,
        Tag::Subscript => MarkdownTag::Subscript,
        Tag::Link { dest_url, .. } => MarkdownTag::Link(dest_url.to_string()),
        Tag::Image { dest_url, .. } => MarkdownTag::Image(dest_url.to_string()),
        _ => return None,
    })
}

/// Whether an end is that of a block other than a table.
pub open spec fn is_block_end(end: MarkdownEnd) -> bool {
    match end {
        MarkdownEnd::Paragraph | MarkdownEnd::Heading | MarkdownEnd::BlockQuote
        | MarkdownEnd::CodeBlock | MarkdownEnd::List | MarkdownEnd::Item
        | MarkdownEnd::FootnoteDefinition | MarkdownEnd::DefinitionList
        | MarkdownEnd::DefinitionListTitle | MarkdownEnd::DefinitionListDefinition
        | MarkdownEnd::HtmlBlock | MarkdownEnd::MetadataBlock => true,
        _ => false,
    }
}

/// Tells the block variants of `pulldown_cmark::TagEnd` apart, one for one.
#[verifier::external_body]
fn block_end(tag: &TagEnd) -> (block: Option<MarkdownEnd>)
    ensures
        match block {
            Some(block) => end_content(*tag) == block && is_block_end(block),
            None => !is_block_end(end_content(*tag)),
        },
{
    Some(match tag {
        TagEnd::Paragraph => MarkdownEnd::Paragraph,
        TagEnd::Heading(_) => MarkdownEnd::Heading,
        TagEnd::BlockQuote(_) => MarkdownEnd::BlockQuote,
        TagEnd::CodeBlock => MarkdownEnd::CodeBlock,
        TagEnd::List(_) => MarkdownEnd::List,
        TagEnd::Item => MarkdownEnd::Item,
        TagEnd::FootnoteDefinition => MarkdownEnd::FootnoteDefinition,
        TagEnd::DefinitionList => MarkdownEnd::DefinitionList,
        TagEnd::DefinitionListTitle => MarkdownEnd::DefinitionListTitle,
        TagEnd::DefinitionListDefinition => MarkdownEnd::DefinitionListDefinition,
        TagEnd::HtmlBlock => MarkdownEnd::HtmlBlock,
        TagEnd::MetadataBlock(_) => MarkdownEnd::MetadataBlock,
        _ => return None,
    })
}

/// Tells the other variants of `pulldown_cmark::TagEnd` apart, one for one.
#[verifier::external_body]
fn other_end(tag: &TagEnd) -> (other: Option<MarkdownEnd>)
    ensures
        match other {
            Some(other) => end_content(*tag) == other && !is_block_end(other),
            None => is_block_end(end_content(*tag)),
        },
{
    Some(match tag {
        TagEnd::Emphasis => MarkdownEnd::Emphasis,
        TagEnd::Strong => MarkdownEnd::Strong,
        TagEnd::Strikethrough => MarkdownEnd::Strikethrough,
        TagEnd::Superscript => MarkdownEnd::Superscript,
        TagEnd::Subscript => MarkdownEnd::Subscript,
        TagEnd::Link => MarkdownEnd::Link,
        TagEnd::Image => MarkdownEnd::Image,
        TagEnd::Table => MarkdownEnd::Table,
        TagEnd::TableHead => MarkdownEnd::TableHead,
        TagEnd::TableRow => MarkdownEnd::TableRow,
        TagEnd::TableCell => MarkdownEnd::TableCell,
        _ => return None,
    })
}

/// Reads an event of the parser.
fn read_event(event: &Event<'_>) -> (read: MarkdownEvent)
    ensures
        read@ == event_content(*event),
{
    match open_event(event) {
        Opened::Start(tag) => MarkdownEvent::Start(
            match block_tag(&tag) {
                Some(block) => block,
                None => match table_tag(&tag) {
                    Some(table) => table,
                    None => match inline_tag(&tag) {
                        Some(inline) => inline,
                        None => MarkdownTag::Paragraph,
                    },
                },
            },
        ),
        Opened::End(tag) => MarkdownEvent::End(
            match block_end(&tag) {
                Some(block) => block,
                None => match other_end(&tag) {
                    Some(other) => other,
                    None => MarkdownEnd::Paragraph,
                },
            },
        ),
        Opened::Other => match other_event(event) {
            Some(other) => other,
            None => MarkdownEvent::Rule,
        },
    }
}

/// The events of a Markdown document.
pub fn parse_markdown(text: &str) -> (events: Vec<MarkdownEvent>)
    ensures
        views(events@) == markdown_events(text@),
{
    let source = source_events(text, EXTENSIONS);
    let mut events: Vec<MarkdownEvent> = Vec::new();
    let mut i: usize = 0;
    while i < source.len()
        invariant
            i <= source.len() == markdown_events(text@).len(),
            events.len() == i,
            forall|j: int|
                0 <= j < source.len() ==> event_content(#[trigger] source@[j]) == markdown_events(
                    text@,
                )[j],
            forall|j: int| 0 <= j < i ==> (#[trigger] events@[j])@ == markdown_events(text@)[j],
        decreases source.len() - i,
    {
        assert(event_content(source@[i as int]) == markdown_events(text@)[i as int]);
        events.push(read_event(&source[i]));
        i += 1;
    }
    assert(views(events@) =~= markdown_events(text@));
    events
}

} // verus!
