//! Markdown as styled lines for a terminal.

use vstd::prelude::*;

use crate::composer::counted;
use crate::events::{
    Alignment, EventView, markdown_events, MarkdownEnd, MarkdownEvent, MarkdownTag, parse_markdown,
    TagView,
};
use crate::labels::{field_label_range, highlight_field_labels, highlight_label, label_range};
use crate::links::{link_target, osc8_target};
use crate::style::{bold_colored, Color, colored, Modifier, Style};
use crate::styled::{add_text, plain, SpanView, StyledLine};
use crate::tables::{render_table, RowView, table_lines, TableRow, TableState, TableView};
use crate::text::{
    concat_text, copy_option, decimal, decimal_text, is_blank, option_text, repeat_char, split_on,
    split_text_on, text_is_blank, text_is_empty, texts, trim, trim_text,
};
use crate::views::{group_views, views};
use crate::wrap::{
    fits, law_wrapped_lines_fit_the_width, law_wrapping_keeps_every_line, wrap_all, wrap_lines,
};

verus! {

broadcast use group_views;

/// What is known while a document is read: the lines so far, the line that is
/// being filled, and what is open around it.
#[verifier::ext_equal]
pub struct BuilderView {
    pub lines: Seq<Seq<SpanView>>,
    pub current: Seq<SpanView>,
    pub style: Style,
    pub style_stack: Seq<Style>,
    pub link: Option<Seq<char>>,
    pub link_stack: Seq<Option<Seq<char>>>,
    pub lists: Seq<Option<u64>>,
    pub quote_depth: nat,
    pub code_depth: nat,
    pub table_cell: nat,
    pub table: Option<TableView>,
    pub render_width: nat,
}

/// A line with the marks of some quotations behind it.
pub open spec fn add_quote_marks(line: Seq<SpanView>, depth: nat) -> Seq<SpanView>
    decreases depth,
{
    if depth == 0 {
        line
    } else {
        add_text(
            add_quote_marks(line, (depth - 1) as nat),
            "│ "@,
            Style::colored(Color::DarkGray),
            None,
        )
    }
}

/// The mark in front of a heading.
pub open spec fn heading_mark(level: u8) -> Seq<char> {
    if level == 1 {
        "◆ "@
    } else if level == 2 {
        "◇ "@
    } else {
        "▸ "@
    }
}

/// The mark in front of a list item.
pub open spec fn item_mark(number: Option<u64>) -> Seq<char> {
    match number {
        Some(number) => decimal(number as nat) + ". "@,
        None => "• "@,
    }
}

/// One more, up to the largest list number.
pub open spec fn next_number(number: u64) -> u64 {
    if number < u64::MAX {
        (number + 1) as u64
    } else {
        number
    }
}

/// A style that adds one kind of attribute.
pub open spec fn styled_with(modifier: Modifier) -> Style {
    Style::plain().with(modifier)
}

impl BuilderView {
    /// The builder before the first event.
    pub open spec fn fresh(style: Style, width: nat) -> BuilderView {
        BuilderView {
            lines: seq![],
            current: seq![],
            style,
            style_stack: seq![],
            link: None,
            link_stack: seq![],
            lists: seq![],
            quote_depth: 0,
            code_depth: 0,
            table_cell: 0,
            table: None,
            render_width: width,
        }
    }

    /// The current line is finished, unless it is empty or a table is open.
    pub open spec fn flushed(self) -> BuilderView {
        if self.table is Some || self.current.len() == 0 {
            self
        } else {
            BuilderView { lines: self.lines.push(self.current), current: seq![], ..self }
        }
    }

    /// A text in the current style.
    pub open spec fn pushed(self, text: Seq<char>) -> BuilderView {
        BuilderView { current: add_text(self.current, text, self.style, self.link), ..self }
    }

    /// A text in a style of its own, which is no link.
    pub open spec fn marked(self, text: Seq<char>, style: Style) -> BuilderView {
        BuilderView { current: add_text(self.current, text, style, None), ..self }
    }

    /// A text in the current style with something over it.
    pub open spec fn overlaid(self, text: Seq<char>, over: Style) -> BuilderView {
        BuilderView {
            current: add_text(self.current, text, self.style.patched(over), self.link),
            ..self
        }
    }

    /// A style over the current one.
    pub open spec fn style_pushed(self, over: Style) -> BuilderView {
        BuilderView {
            style_stack: self.style_stack.push(self.style),
            style: self.style.patched(over),
            ..self
        }
    }

    /// The style before the last one.
    pub open spec fn style_popped(self) -> BuilderView {
        if self.style_stack.len() == 0 {
            self
        } else {
            BuilderView {
                style: self.style_stack.last(),
                style_stack: self.style_stack.drop_last(),
                ..self
            }
        }
    }

    /// The marks of the quotations and of the code block that are open.
    pub open spec fn prefixed(self) -> BuilderView {
        let quoted = add_quote_marks(self.current, self.quote_depth);
        BuilderView {
            current: if self.code_depth > 0 {
                add_text(quoted, "│ "@, Style::colored(Color::Yellow), None)
            } else {
                quoted
            },
            ..self
        }
    }

    /// A new line in the same block.
    pub open spec fn continued(self) -> BuilderView {
        self.flushed().prefixed()
    }

    /// The parts of a text from one on, each but the first on a line of its own.
    pub open spec fn with_parts(self, parts: Seq<Seq<char>>, index: int) -> BuilderView
        decreases parts.len() - index,
    {
        if index < 0 || index >= parts.len() {
            self
        } else if index == 0 {
            self.pushed(parts[0]).with_parts(parts, 1)
        } else if index + 1 == parts.len() && parts[index].len() == 0 {
            self.flushed()
        } else {
            self.flushed().prefixed().pushed(parts[index]).with_parts(parts, index + 1)
        }
    }

    /// A link around what follows.
    pub open spec fn link_opened(self, destination: Seq<char>) -> BuilderView {
        BuilderView {
            link_stack: self.link_stack.push(self.link),
            link: link_target(destination),
            ..self.style_pushed(
                Style {
                    fg: Some(Color::Cyan),
                    ..styled_with(Modifier { underlined: true, ..Modifier::none() })
                },
            )
        }
    }

    /// The effect of the start of a part.
    pub open spec fn start(self, tag: TagView) -> BuilderView {
        match tag {
            TagView::Paragraph => if self.current.len() == 0 && (self.quote_depth > 0
                || self.code_depth > 0) {
                self.prefixed()
            } else {
                self
            },
            TagView::Heading(level) => self.flushed().style_pushed(
                Style::bold_colored(Color::Cyan),
            ).pushed(heading_mark(level)),
            TagView::BlockQuote => {
                let block = self.flushed();
                BuilderView { quote_depth: counted(block.quote_depth), ..block }.prefixed()
            },
            TagView::CodeBlock(language) => {
                let block = self.flushed();
                let open = BuilderView {
                    code_depth: counted(block.code_depth),
                    ..block
                }.style_pushed(Style::colored(Color::Yellow));
                let titled = match language {
                    Some(language) => if is_blank(language) {
                        open
                    } else {
                        open.marked(
                            "┌ "@ + trim(language),
                            Style {
                                fg: Some(Color::DarkGray),
                                ..styled_with(Modifier { italic: true, ..Modifier::none() })
                            },
                        ).flushed()
                    },
                    None => open,
                };
                titled.prefixed()
            },
            TagView::List(number) => {
                let block = self.flushed();
                BuilderView { lists: block.lists.push(number), ..block }
            },
            TagView::Item => {
                let block = self.flushed();
                let depth = if block.lists.len() > 0 {
                    (block.lists.len() - 1) as nat
                } else {
                    0
                };
                let indented = block.pushed(repeat_char(' ', 2 * depth));
                let number = if block.lists.len() > 0 {
                    block.lists.last()
                } else {
                    None
                };
                let listed = match number {
                    Some(number) => BuilderView {
                        lists: indented.lists.update(
                            indented.lists.len() - 1,
                            Some(next_number(number)),
                        ),
                        ..indented
                    },
                    None => indented,
                };
                listed.marked(item_mark(number), Style::colored(Color::Cyan))
            },
            TagView::Emphasis => self.style_pushed(
                styled_with(Modifier { italic: true, ..Modifier::none() }),
            ),
            TagView::Strong => self.style_pushed(
                styled_with(Modifier { bold: true, ..Modifier::none() }),
            ),
            TagView::Strikethrough => self.style_pushed(
                styled_with(Modifier { crossed_out: true, ..Modifier::none() }),
            ),
            TagView::Superscript | TagView::Subscript => self.style_pushed(
                Style::colored(Color::Cyan),
            ),
            TagView::Link(destination) => self.link_opened(destination),
            TagView::Image(destination) => self.pushed("▧ "@).link_opened(destination),
            TagView::FootnoteDefinition(label) => self.flushed().marked(
                "[^"@ + label + "] "@,
                Style::colored(Color::Cyan),
            ),
            TagView::Table(alignments) => BuilderView {
                table: Some(
                    TableView { rows: seq![], current_row: None, in_head: false, alignments },
                ),
                ..self.flushed()
            },
            TagView::TableHead => {
                let opened = match self.table {
                    Some(table) => BuilderView {
                        table: Some(
                            TableView {
                                in_head: true,
                                current_row: match table.current_row {
                                    Some(row) => Some(row),
                                    None => Some(RowView { cells: seq![], is_header: true }),
                                },
                                ..table
                            },
                        ),
                        ..self
                    },
                    None => self,
                };
                opened.style_pushed(styled_with(Modifier { bold: true, ..Modifier::none() }))
            },
            TagView::TableRow => match self.table {
                Some(table) => BuilderView {
                    table: Some(
                        TableView {
                            current_row: Some(
                                RowView { cells: seq![], is_header: table.in_head },
                            ),
                            ..table
                        },
                    ),
                    current: seq![],
                    ..self
                },
                None => BuilderView { table_cell: 0, ..self.flushed() },
            },
            TagView::TableCell => if self.table is Some {
                BuilderView { current: seq![], ..self }
            } else {
                let parted = if self.table_cell > 0 {
                    self.marked(" │ "@, Style::colored(Color::DarkGray))
                } else {
                    self
                };
                BuilderView { table_cell: counted(self.table_cell), ..parted }
            },
            TagView::DefinitionList | TagView::HtmlBlock | TagView::MetadataBlock => self.flushed(),
            TagView::DefinitionListTitle => self.flushed().style_pushed(
                styled_with(Modifier { bold: true, ..Modifier::none() }),
            ),
            TagView::DefinitionListDefinition => self.flushed().pushed("  — "@),
        }
    }

    /// The effect of the end of a part.
    pub open spec fn end(self, tag: MarkdownEnd) -> BuilderView {
        match tag {
            MarkdownEnd::Paragraph | MarkdownEnd::Item | MarkdownEnd::FootnoteDefinition =>
                self.flushed(),
            MarkdownEnd::Heading => self.flushed().style_popped(),
            MarkdownEnd::BlockQuote => {
                let block = self.flushed();
                BuilderView { quote_depth: lessened(block.quote_depth), ..block }
            },
            MarkdownEnd::CodeBlock => {
                let block = self.flushed();
                BuilderView { code_depth: lessened(block.code_depth), ..block }.style_popped()
            },
            MarkdownEnd::List => {
                let block = self.flushed();
                if block.lists.len() > 0 {
                    BuilderView { lists: block.lists.drop_last(), ..block }
                } else {
                    block
                }
            },
            MarkdownEnd::Emphasis | MarkdownEnd::Strong | MarkdownEnd::Strikethrough
            | MarkdownEnd::Superscript | MarkdownEnd::Subscript
            | MarkdownEnd::DefinitionListTitle => self.style_popped(),
            MarkdownEnd::TableHead => {
                let closed = match self.table {
                    Some(table) => BuilderView {
                        table: Some(
                            TableView {
                                rows: match table.current_row {
                                    Some(row) => if row.cells.len() > 0 {
                                        table.rows.push(row)
                                    } else {
                                        table.rows
                                    },
                                    None => table.rows,
                                },
                                current_row: None,
                                in_head: false,
                                ..table
                            },
                        ),
                        ..self
                    },
                    None => self,
                };
                closed.style_popped()
            },
            MarkdownEnd::Link | MarkdownEnd::Image => {
                let closed = if self.link_stack.len() > 0 {
                    BuilderView {
                        link: self.link_stack.last(),
                        link_stack: self.link_stack.drop_last(),
                        ..self
                    }
                } else {
                    BuilderView { link: None, ..self }
                };
                closed.style_popped()
            },
            MarkdownEnd::TableRow => match self.table {
                Some(table) => BuilderView {
                    table: Some(
                        TableView {
                            rows: match table.current_row {
                                Some(row) => table.rows.push(row),
                                None => table.rows,
                            },
                            current_row: None,
                            ..table
                        },
                    ),
                    ..self
                },
                None => self.flushed(),
            },
            MarkdownEnd::Table => match self.table {
                Some(table) => BuilderView {
                    lines: self.lines + table_lines(table, self.render_width),
                    table: None,
                    ..self
                },
                None => self.flushed(),
            },
            MarkdownEnd::TableCell => match self.table {
                Some(table) => {
                    let row = match table.current_row {
                        Some(row) => row,
                        None => RowView { cells: seq![], is_header: table.in_head },
                    };
                    BuilderView {
                        table: Some(
                            TableView {
                                current_row: Some(
                                    RowView { cells: row.cells.push(self.current), ..row },
                                ),
                                ..table
                            },
                        ),
                        current: seq![],
                        ..self
                    }
                },
                None => self,
            },
            MarkdownEnd::DefinitionList | MarkdownEnd::DefinitionListDefinition
            | MarkdownEnd::HtmlBlock | MarkdownEnd::MetadataBlock => self,
        }
    }

    /// The effect of an event.
    pub open spec fn event(self, event: EventView) -> BuilderView {
        match event {
            EventView::Start(tag) => self.start(tag),
            EventView::End(tag) => self.end(tag),
            EventView::Text(text) => self.with_parts(split_on(text, '\n'), 0),
            EventView::Code(text) => self.overlaid(text, Style::bold_colored(Color::Yellow)),
            EventView::InlineMath(text) => self.overlaid(
                "$"@ + text + "$"@,
                Style::colored(Color::Yellow),
            ),
            EventView::DisplayMath(text) => self.flushed().marked(
                "∑ "@ + text,
                self.style.patched(Style::colored(Color::Yellow)),
            ).flushed(),
            EventView::Html(text) | EventView::InlineHtml(text) => self.overlaid(text, Style::colored(Color::DarkGray)),
            EventView::FootnoteReference(label) => self.marked(
                "[^"@ + label + "]"@,
                self.style.patched(Style::colored(Color::Cyan)),
            ),
            EventView::SoftBreak => if self.table is None && (self.code_depth > 0 || label_range(
                plain(self.current),
            ) is Some) {
                self.continued()
            } else {
                self.pushed(" "@)
            },
            EventView::HardBreak => self.continued(),
            EventView::Rule => self.flushed().marked(
                "────────────"@,
                Style::colored(Color::DarkGray),
            ).flushed(),
            EventView::TaskListMarker(checked) => if checked {
                self.marked("☑ "@, Style::colored(Color::Green))
            } else {
                self.marked("☐ "@, Style::colored(Color::DarkGray))
            },
        }
    }

    /// The effect of the first `count` events.
    pub open spec fn events(self, events: Seq<EventView>, count: int) -> BuilderView
        decreases count,
    {
        if count <= 0 {
            self
        } else {
            self.events(events, count - 1).event(events[count - 1])
        }
    }

    /// The lines of the document when no event is left: at least one, and none
    /// empty at the end but where it is the only one.
    pub open spec fn finished(self) -> Seq<Seq<SpanView>> {
        let lines = without_empty_end(self.flushed().lines);
        if lines.len() == 0 {
            seq![seq![]]
        } else {
            lines
        }
    }
}

/// One less, down to none.
pub open spec fn lessened(number: nat) -> nat {
    if number > 0 {
        (number - 1) as nat
    } else {
        0
    }
}

/// Lines without the empty ones at their end.
pub open spec fn without_empty_end(lines: Seq<Seq<SpanView>>) -> Seq<Seq<SpanView>>
    decreases lines.len(),
{
    if lines.len() > 0 && lines.last().len() == 0 {
        without_empty_end(lines.drop_last())
    } else {
        lines
    }
}

/// The columns of a document: at least one.
pub open spec fn document_columns(width: nat) -> nat {
    if width == 0 {
        1
    } else {
        width
    }
}

/// What a document looks like, given its events: the lines that they build,
/// wrapped to the width, with field labels highlighted.
pub open spec fn document_lines(events: Seq<EventView>, style: Style, width: nat) -> Seq<
    Seq<SpanView>,
> {
    let columns = document_columns(width);
    let built = BuilderView::fresh(style, columns).events(
        events,
        events.len() as int,
    ).finished();
    let wrapped = wrap_all(built, columns);
    Seq::new(wrapped.len(), |i: int| highlight_label(wrapped[i]))
}

/// Reads a document event by event.
#[derive(Debug)]
pub struct MarkdownBuilder {
    pub lines: Vec<StyledLine>,
    pub current: StyledLine,
    pub style: Style,
    pub style_stack: Vec<Style>,
    pub link: Option<String>,
    pub link_stack: Vec<Option<String>>,
    pub lists: Vec<Option<u64>>,
    pub quote_depth: usize,
    pub code_depth: usize,
    pub table_cell: usize,
    pub table: Option<TableState>,
    pub render_width: usize,
}

impl View for MarkdownBuilder {
    type V = BuilderView;

    open spec fn view(&self) -> BuilderView {
        BuilderView {
            lines: views(self.lines@),
            current: self.current@,
            style: self.style,
            style_stack: self.style_stack@,
            link: option_text(self.link),
            link_stack: option_texts(self.link_stack@),
            lists: self.lists@,
            quote_depth: self.quote_depth as nat,
            code_depth: self.code_depth as nat,
            table_cell: self.table_cell as nat,
            table: match self.table {
                Some(table) => Some(table@),
                None => None,
            },
            render_width: self.render_width as nat,
        }
    }
}

/// Optional texts by their characters.
pub open spec fn option_texts(items: Seq<Option<String>>) -> Seq<Option<Seq<char>>> {
    Seq::new(items.len(), |i: int| option_text(items[i]))
}

fn indent_text(depth: usize) -> (text: String)
    ensures
        text@ == repeat_char(' ', 2 * depth as nat),
{
    let mut text = String::new();
    let mut i: usize = 0;
    while i < depth
        invariant
            i <= depth,
            text@ == repeat_char(' ', 2 * i as nat),
        decreases depth - i,
    {
        text.push(' ');
        text.push(' ');
        i += 1;
        assert(text@ =~= repeat_char(' ', 2 * i as nat));
    }
    text
}

impl MarkdownBuilder {
    /// A builder before the first event.
    pub fn new(base_style: Style, render_width: usize) -> (builder: MarkdownBuilder)
        ensures
            builder@ == BuilderView::fresh(base_style, render_width as nat),
    {
        let builder = MarkdownBuilder {
            lines: Vec::new(),
            current: StyledLine::default(),
            style: base_style,
            style_stack: Vec::new(),
            link: None,
            link_stack: Vec::new(),
            lists: Vec::new(),
            quote_depth: 0,
            code_depth: 0,
            table_cell: 0,
            table: None,
            render_width,
        };
        assert(builder@.link_stack =~= seq![]);
        builder
    }

    /// The lines of the document when no event is left.
    pub fn finish(self) -> (lines: Vec<StyledLine>)
        ensures
            views(lines@) == self@.finished(),
    {
        let mut builder = self;
        builder.flush_line();
        let mut lines = builder.lines;
        let ghost all = views(lines@);
        while lines.len() > 0 && lines[lines.len() - 1].spans.len() == 0
            invariant
                without_empty_end(views(lines@)) == without_empty_end(all),
            decreases lines.len(),
        {
            let ghost before = lines@;
            assert(views(before).last() == before.last()@);
            lines.pop();
            assert(views(lines@) =~= views(before).drop_last());
        }
        proof {
            if lines@.len() > 0 {
                assert(views(lines@).last() == lines@.last()@);
            }
        }
        if lines.len() == 0 {
            lines.push(StyledLine::default());
            assert(views(lines@) =~= seq![seq![]]);
        }
        lines
    }

    /// The start of a part of the document.
    pub fn start(&mut self, tag: &MarkdownTag)
        ensures
            final(self)@ == old(self)@.start(tag@),
    {
        match tag {
            MarkdownTag::Paragraph => {
                if self.current.spans.len() == 0 && (self.quote_depth > 0 || self.code_depth > 0) {
                    self.push_block_prefix();
                }
            },
            MarkdownTag::Heading(level) => {
                self.begin_block();
                self.push_style(bold_colored(Color::Cyan));
                if *level == 1 {
                    self.push("◆ ");
                } else if *level == 2 {
                    self.push("◇ ");
                } else {
                    self.push("▸ ");
                }
            },
            MarkdownTag::BlockQuote => {
                self.begin_block();
                self.quote_depth = self.quote_depth.saturating_add(1);
                self.push_block_prefix();
            },
            MarkdownTag::CodeBlock(language) => self.start_code_block(language),
            MarkdownTag::List(number) => {
                self.begin_block();
                self.lists.push(*number);
            },
            MarkdownTag::Item => self.start_item(),
            MarkdownTag::Emphasis => self.push_style(
                Style::default().add_modifier(Modifier::italic()),
            ),
            MarkdownTag::Strong => self.push_style(
                Style::default().add_modifier(Modifier::bold()),
            ),
            MarkdownTag::Strikethrough => self.push_style(
                Style::default().add_modifier(Modifier::crossed_out()),
            ),
            MarkdownTag::Superscript | MarkdownTag::Subscript => self.push_style(
                colored(Color::Cyan),
            ),
            MarkdownTag::Link(destination) => self.open_link(destination.as_str()),
            MarkdownTag::Image(destination) => {
                self.push("▧ ");
                self.open_link(destination.as_str());
            },
            MarkdownTag::FootnoteDefinition(label) => {
                self.begin_block();
                let text = concat_text(concat_text("[^", label.as_str()).as_str(), "] ");
                self.current.push(text, colored(Color::Cyan), None);
            },
            MarkdownTag::Table(alignments) => {
                self.begin_block();
                self.table = Some(
                    TableState {
                        rows: Vec::new(),
                        current_row: None,
                        in_head: false,
                        alignments: copy_alignments(alignments),
                    },
                );
            },
            MarkdownTag::TableHead => {
                if let Some(table) = &mut self.table {
                    table.in_head = true;
                    if table.current_row.is_none() {
                        table.current_row = Some(TableRow { cells: Vec::new(), is_header: true });
                    }
                }
                self.push_style(Style::default().add_modifier(Modifier::bold()));
            },
            MarkdownTag::TableRow => {
                if self.table.is_some() {
                    if let Some(table) = &mut self.table {
                        table.current_row = Some(
                            TableRow { cells: Vec::new(), is_header: table.in_head },
                        );
                    }
                    self.current = StyledLine::default();
                } else {
                    self.begin_block();
                    self.table_cell = 0;
                }
            },
            MarkdownTag::TableCell => {
                if self.table.is_some() {
                    self.current = StyledLine::default();
                } else {
                    if self.table_cell > 0 {
                        self.current.push_str(" │ ", colored(Color::DarkGray));
                    }
                    self.table_cell = self.table_cell.saturating_add(1);
                }
            },
            MarkdownTag::DefinitionList => self.begin_block(),
            MarkdownTag::DefinitionListTitle => {
                self.begin_block();
                self.push_style(Style::default().add_modifier(Modifier::bold()));
            },
            MarkdownTag::DefinitionListDefinition => {
                self.begin_block();
                self.push("  — ");
            },
            MarkdownTag::HtmlBlock | MarkdownTag::MetadataBlock => self.begin_block(),
        }
    }

    fn start_code_block(&mut self, language: &Option<String>)
        ensures
            final(self)@ == old(self)@.start(TagView::CodeBlock(option_text(*language))),
    {
        self.begin_block();
        self.code_depth = self.code_depth.saturating_add(1);
        self.push_style(colored(Color::Yellow));
        if let Some(language) = language {
            if !text_is_blank(language.as_str()) {
                let title = concat_text("┌ ", trim_text(language.as_str()).as_str());
                let style = Style::default().fg(Color::DarkGray).add_modifier(Modifier::italic());
                self.current.push(title, style, None);
                self.flush_line();
            }
        }
        self.push_block_prefix();
    }

    fn start_item(&mut self)
        ensures
            final(self)@ == old(self)@.start(TagView::Item),
    {
        self.begin_block();
        let count: usize = self.lists.len();
        let depth: usize = if count > 0 {
            count - 1
        } else {
            0
        };
        let indent = indent_text(depth);
        self.push(indent.as_str());
        let number = if count > 0 {
            self.lists[count - 1]
        } else {
            None
        };
        let marker = match number {
            Some(number) => {
                self.lists.set(count - 1, Some(number.saturating_add(1)));
                concat_text(decimal_text(number).as_str(), ". ")
            },
            None => "• ".to_owned(),
        };
        self.current.push(marker, colored(Color::Cyan), None);
    }

    fn open_link(&mut self, destination: &str)
        ensures
            final(self)@ == old(self)@.link_opened(destination@),
    {
        self.push_style(Style::default().fg(Color::Cyan).add_modifier(Modifier::underlined()));
        let ghost before = self.link_stack@;
        let link = copy_option(&self.link);
        let ghost outer = option_text(link);
        self.link_stack.push(link);
        assert(option_texts(self.link_stack@) =~= option_texts(before).push(outer));
        self.link = osc8_target(destination);
    }

    /// The end of a part of the document.
    pub fn end(&mut self, tag: MarkdownEnd)
        ensures
            final(self)@ == old(self)@.end(tag),
    {
        match tag {
            MarkdownEnd::Paragraph | MarkdownEnd::Item | MarkdownEnd::FootnoteDefinition =>
                self.flush_line(),
            MarkdownEnd::Heading => {
                self.flush_line();
                self.pop_style();
            },
            MarkdownEnd::BlockQuote => {
                self.flush_line();
                self.quote_depth = self.quote_depth.saturating_sub(1);
            },
            MarkdownEnd::CodeBlock => {
                self.flush_line();
                self.code_depth = self.code_depth.saturating_sub(1);
                self.pop_style();
            },
            MarkdownEnd::List => {
                self.flush_line();
                self.lists.pop();
            },
            MarkdownEnd::Emphasis | MarkdownEnd::Strong | MarkdownEnd::Strikethrough
            | MarkdownEnd::Superscript | MarkdownEnd::Subscript
            | MarkdownEnd::DefinitionListTitle => self.pop_style(),
            MarkdownEnd::TableHead => {
                if let Some(table) = &mut self.table {
                    if let Some(row) = table.current_row.take() {
                        if row.cells.len() > 0 {
                            table.rows.push(row);
                        }
                    }
                    table.in_head = false;
                }
                self.pop_style();
            },
            MarkdownEnd::Link | MarkdownEnd::Image => {
                let ghost before = self.link_stack@;
                self.link = match self.link_stack.pop() {
                    Some(link) => link,
                    None => None,
                };
                proof {
                    if before.len() > 0 {
                        assert(option_texts(self.link_stack@) =~= option_texts(before).drop_last());
                        assert(option_texts(before).last() == option_text(before.last()));
                    }
                }
                self.pop_style();
            },
            MarkdownEnd::TableRow => {
                if self.table.is_some() {
                    if let Some(table) = &mut self.table {
                        if let Some(row) = table.current_row.take() {
                            table.rows.push(row);
                        }
                    }
                } else {
                    self.flush_line();
                }
            },
            MarkdownEnd::Table => {
                match self.table.take() {
                    Some(table) => {
                        let mut lines = render_table(&table, self.render_width);
                        self.lines.append(&mut lines);
                    },
                    None => self.flush_line(),
                }
            },
            MarkdownEnd::TableCell => self.end_cell(),
            MarkdownEnd::DefinitionList | MarkdownEnd::DefinitionListDefinition
            | MarkdownEnd::HtmlBlock | MarkdownEnd::MetadataBlock => {},
        }
    }

    fn end_cell(&mut self)
        ensures
            final(self)@ == old(self)@.end(MarkdownEnd::TableCell),
    {
        if self.table.is_some() {
            let mut cell = StyledLine::default();
            std::mem::swap(&mut cell, &mut self.current);
            if let Some(table) = &mut self.table {
                let mut row = match table.current_row.take() {
                    Some(row) => row,
                    None => TableRow { cells: Vec::new(), is_header: table.in_head },
                };
                row.cells.push(cell);
                table.current_row = Some(row);
            }
        }
    }

    /// An event of the document.
    pub fn event(&mut self, event: &MarkdownEvent)
        ensures
            final(self)@ == old(self)@.event(event@),
    {
        match event {
            MarkdownEvent::Start(tag) => self.start(tag),
            MarkdownEvent::End(tag) => self.end(*tag),
            MarkdownEvent::Text(text) => self.push_text(text.as_str()),
            MarkdownEvent::Code(text) => {
                self.push_over(text.clone(), bold_colored(Color::Yellow));
            },
            MarkdownEvent::InlineMath(text) => {
                let math = concat_text(concat_text("$", text.as_str()).as_str(), "$");
                self.push_over(math, colored(Color::Yellow));
            },
            MarkdownEvent::DisplayMath(text) => {
                self.begin_block();
                let math = concat_text("∑ ", text.as_str());
                self.current.push(math, self.style.patch(colored(Color::Yellow)), None);
                self.flush_line();
            },
            MarkdownEvent::Html(text) | MarkdownEvent::InlineHtml(text) => {
                self.push_over(text.clone(), colored(Color::DarkGray));
            },
            MarkdownEvent::FootnoteReference(label) => {
                let text = concat_text(concat_text("[^", label.as_str()).as_str(), "]");
                self.current.push(text, self.style.patch(colored(Color::Cyan)), None);
            },
            MarkdownEvent::SoftBreak => {
                if self.table.is_none() && (self.code_depth > 0 || self.current_is_field_record()) {
                    self.continue_line();
                } else {
                    self.push(" ");
                }
            },
            MarkdownEvent::HardBreak => self.continue_line(),
            MarkdownEvent::Rule => {
                self.begin_block();
                self.current.push_str("────────────", colored(Color::DarkGray));
                self.flush_line();
            },
            MarkdownEvent::TaskListMarker(checked) => {
                if *checked {
                    self.current.push_str("☑ ", colored(Color::Green));
                } else {
                    self.current.push_str("☐ ", colored(Color::DarkGray));
                }
            },
        }
    }

    fn push_over(&mut self, text: String, over: Style)
        ensures
            final(self)@ == old(self)@.overlaid(text@, over),
    {
        let style = self.style.patch(over);
        let link = copy_option(&self.link);
        self.current.push(text, style, link);
    }

    fn push_style(&mut self, over: Style)
        ensures
            final(self)@ == old(self)@.style_pushed(over),
    {
        self.style_stack.push(self.style);
        self.style = self.style.patch(over);
    }

    fn pop_style(&mut self)
        ensures
            final(self)@ == old(self)@.style_popped(),
    {
        if let Some(style) = self.style_stack.pop() {
            self.style = style;
        }
    }

    fn push(&mut self, text: &str)
        ensures
            final(self)@ == old(self)@.pushed(text@),
    {
        let link = copy_option(&self.link);
        self.current.push(text.to_owned(), self.style, link);
    }

    fn push_text(&mut self, text: &str)
        ensures
            final(self)@ == old(self)@.with_parts(split_on(text@, '\n'), 0),
    {
        let parts = split_text_on(text, '\n');
        let ghost all = texts(parts@);
        let ghost whole = self@.with_parts(all, 0);
        let mut index: usize = 0;
        while index < parts.len()
            invariant
                index <= parts.len(),
                all == texts(parts@),
                all == split_on(text@, '\n'),
                whole == old(self)@.with_parts(all, 0),
                self@.with_parts(all, index as int) == whole,
            decreases parts.len() - index,
        {
            assert(all[index as int] == parts@[index as int]@);
            if index > 0 {
                self.flush_line();
                if index + 1 == parts.len() && text_is_empty(parts[index].as_str()) {
                    return;
                }
                self.push_block_prefix();
            }
            self.push(parts[index].as_str());
            index += 1;
        }
    }

    fn begin_block(&mut self)
        ensures
            final(self)@ == old(self)@.flushed(),
    {
        self.flush_line();
    }

    fn flush_line(&mut self)
        ensures
            final(self)@ == old(self)@.flushed(),
    {
        if self.table.is_some() || self.current.spans.len() == 0 {
            return;
        }
        let mut line = StyledLine::default();
        std::mem::swap(&mut line, &mut self.current);
        self.lines.push(line);
    }

    fn continue_line(&mut self)
        ensures
            final(self)@ == old(self)@.continued(),
    {
        self.flush_line();
        self.push_block_prefix();
    }

    fn current_is_field_record(&self) -> (record: bool)
        ensures
            record == (label_range(plain(self@.current)) is Some),
    {
        let text = self.current.plain_text();
        field_label_range(text.as_str()).is_some()
    }

    fn push_block_prefix(&mut self)
        ensures
            final(self)@ == old(self)@.prefixed(),
    {
        let ghost before = self@;
        let mut i: usize = 0;
        while i < self.quote_depth
            invariant
                i <= self.quote_depth,
                self@ == (BuilderView {
                    current: add_quote_marks(before.current, i as nat),
                    ..before
                }),
            decreases self.quote_depth - i,
        {
            self.current.push_str("│ ", colored(Color::DarkGray));
            i += 1;
        }
        if self.code_depth > 0 {
            self.current.push_str("│ ", colored(Color::Yellow));
        }
    }
}

fn copy_alignments(alignments: &Vec<Alignment>) -> (copy: Vec<Alignment>)
    ensures
        copy@ == alignments@,
{
    let mut copy: Vec<Alignment> = Vec::new();
    let mut i: usize = 0;
    while i < alignments.len()
        invariant
            i <= alignments.len(),
            copy@ == alignments@.take(i as int),
        decreases alignments.len() - i,
    {
        copy.push(alignments[i]);
        i += 1;
        assert(copy@ =~= alignments@.take(i as int));
    }
    assert(alignments@.take(alignments@.len() as int) =~= alignments@);
    copy
}

/// Shows the events of a document at a width.
pub fn render_events(events: &Vec<MarkdownEvent>, base_style: Style, width: usize) -> (lines: Vec<
    StyledLine,
>)
    ensures
        views(lines@) == document_lines(views(events@), base_style, width as nat),
        lines.len() > 0,
{
    let columns: usize = if width == 0 {
        1
    } else {
        width
    };
    let mut builder = MarkdownBuilder::new(base_style, columns);
    let ghost fresh = builder@;
    let ghost all = views(events@);
    let mut i: usize = 0;
    while i < events.len()
        invariant
            i <= events.len(),
            all == views(events@),
            builder@ == fresh.events(all, i as int),
        decreases events.len() - i,
    {
        assert(all[i as int] == events@[i as int]@);
        builder.event(&events[i]);
        i += 1;
    }
    let built = builder.finish();
    let wrapped = wrap_lines(&built, columns);
    let lines = highlight_field_labels(&wrapped);
    proof {
        law_wrapping_keeps_every_line(views(built@), columns as nat);
        assert(views(lines@) =~= document_lines(all, base_style, width as nat));
    }
    lines
}

/// Shows a Markdown text at a width.
pub fn render_markdown(text: &str, base_style: Style, width: usize) -> (lines: Vec<StyledLine>)
    ensures
        views(lines@) == document_lines(markdown_events(text@), base_style, width as nat),
        lines.len() > 0,
{
    let events = parse_markdown(text);
    render_events(&events, base_style, width)
}

/// An inline part leaves the style and the link as they were before it.
pub proof fn law_inline_parts_restore_style_and_link(builder: BuilderView, destination: Seq<char>)
    ensures
        builder.start(TagView::Emphasis).end(MarkdownEnd::Emphasis) == builder,
        builder.start(TagView::Strong).end(MarkdownEnd::Strong) == builder,
        builder.start(TagView::Strikethrough).end(MarkdownEnd::Strikethrough) == builder,
        builder.start(TagView::Superscript).end(MarkdownEnd::Superscript) == builder,
        builder.start(TagView::Subscript).end(MarkdownEnd::Subscript) == builder,
        builder.start(TagView::Link(destination)).end(MarkdownEnd::Link) == builder,
{
    assert(builder.style_stack.push(builder.style).drop_last() =~= builder.style_stack);
    assert(builder.link_stack.push(builder.link).drop_last() =~= builder.link_stack);
}

/// A document always has a line to show.
pub proof fn law_documents_are_never_without_a_line(
    events: Seq<EventView>,
    style: Style,
    width: nat,
)
    ensures
        document_lines(events, style, width).len() > 0,
{
    let columns = document_columns(width);
    let built = BuilderView::fresh(style, columns).events(
        events,
        events.len() as int,
    ).finished();
    law_wrapping_keeps_every_line(built, columns);
}

/// The lines of a document fit its width, by their columns as they are counted, but
/// for single clusters that are wider than the width: each one is such a line with
/// its label highlighted, which changes no text.
pub proof fn law_document_lines_fit_the_width(
    events: Seq<EventView>,
    style: Style,
    width: nat,
    i: int,
)
    requires
        0 <= i < document_lines(events, style, width).len(),
    ensures
        exists|line: Seq<SpanView>| #[trigger]
            fits(line, document_columns(width)) && document_lines(events, style, width)[i]
                == highlight_label(line),
{
    let columns = document_columns(width);
    let built = BuilderView::fresh(style, columns).events(
        events,
        events.len() as int,
    ).finished();
    law_wrapped_lines_fit_the_width(built, columns);
    assert(fits(wrap_all(built, columns)[i], columns));
}

} // verus!
