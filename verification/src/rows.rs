//! The rows that the dashboard shows: sessions, messages, help, menu and pickers.

use vstd::prelude::*;

use crate::composer_view::{at_least_one, truncate_display, truncated};
use crate::events::markdown_events;
use crate::labels::max_int;
use crate::markdown::{document_lines, render_markdown};
use crate::model::{
    MessageEntry, MessageKind, MessageView, PreviewVerbosity, Session, SessionStatus, SessionView,
    shows,
};
use crate::paths::file_name;
use crate::segmentation::{columns_of, display_width, text_width};
use crate::style::{bold_colored, Color, colored, Modifier, Style};
use crate::styled::{SpanView, StyledLine, StyledSpan};
use crate::text::{concat_text, repeat_char, repeat_text};
use crate::views::{group_views, views};

verus! {

broadcast use group_views;

/// A row of the screen: its spans, over a style of its own.
#[derive(Debug)]
pub struct ScreenRow {
    pub spans: Vec<StyledSpan>,
    pub style: Style,
}

/// The mathematical form of a row.
#[verifier::ext_equal]
pub struct ScreenRowView {
    pub spans: Seq<SpanView>,
    pub style: Style,
}

impl View for ScreenRow {
    type V = ScreenRowView;

    open spec fn view(&self) -> ScreenRowView {
        ScreenRowView { spans: views(self.spans@), style: self.style }
    }
}

impl ScreenRowView {
    /// A row without a style of its own.
    pub open spec fn of(spans: Seq<SpanView>) -> ScreenRowView {
        ScreenRowView { spans, style: Style::plain() }
    }
}

/// A span that is no link.
pub open spec fn span(text: Seq<char>, style: Style) -> SpanView {
    SpanView { text, style, link: None }
}

/// A span that is no link.
pub fn styled(text: &str, style: Style) -> (made: StyledSpan)
    ensures
        made@ == span(text@, style),
{
    StyledSpan { text: text.to_owned(), style, link: None }
}

/// A row without spans.
pub fn empty_row() -> (row: ScreenRow)
    ensures
        row@ == ScreenRowView::of(seq![]),
{
    let row = ScreenRow { spans: Vec::new(), style: Style::default() };
    assert(row@.spans =~= seq![]);
    row
}

/// A row of one span.
pub fn row1(first: StyledSpan) -> (row: ScreenRow)
    ensures
        row@ == ScreenRowView::of(seq![first@]),
{
    let mut spans: Vec<StyledSpan> = Vec::new();
    spans.push(first);
    let row = ScreenRow { spans, style: Style::default() };
    assert(row@.spans =~= seq![first@]);
    row
}

/// A row of two spans.
pub fn row2(first: StyledSpan, second: StyledSpan) -> (row: ScreenRow)
    ensures
        row@ == ScreenRowView::of(seq![first@, second@]),
{
    let mut spans: Vec<StyledSpan> = Vec::new();
    spans.push(first);
    spans.push(second);
    let row = ScreenRow { spans, style: Style::default() };
    assert(row@.spans =~= seq![first@, second@]);
    row
}

/// A row of three spans.
pub fn row3(first: StyledSpan, second: StyledSpan, third: StyledSpan) -> (row: ScreenRow)
    ensures
        row@ == ScreenRowView::of(seq![first@, second@, third@]),
{
    let mut spans: Vec<StyledSpan> = Vec::new();
    spans.push(first);
    spans.push(second);
    spans.push(third);
    let row = ScreenRow { spans, style: Style::default() };
    assert(row@.spans =~= seq![first@, second@, third@]);
    row
}

/// A row of four spans.
pub fn row4(
    first: StyledSpan,
    second: StyledSpan,
    third: StyledSpan,
    fourth: StyledSpan,
) -> (row: ScreenRow)
    ensures
        row@ == ScreenRowView::of(seq![first@, second@, third@, fourth@]),
{
    let mut spans: Vec<StyledSpan> = Vec::new();
    spans.push(first);
    spans.push(second);
    spans.push(third);
    spans.push(fourth);
    let row = ScreenRow { spans, style: Style::default() };
    assert(row@.spans =~= seq![first@, second@, third@, fourth@]);
    row
}

/// A row of five spans.
pub fn row5(
    first: StyledSpan,
    second: StyledSpan,
    third: StyledSpan,
    fourth: StyledSpan,
    fifth: StyledSpan,
) -> (row: ScreenRow)
    ensures
        row@ == ScreenRowView::of(seq![first@, second@, third@, fourth@, fifth@]),
{
    let mut spans: Vec<StyledSpan> = Vec::new();
    spans.push(first);
    spans.push(second);
    spans.push(third);
    spans.push(fourth);
    spans.push(fifth);
    let row = ScreenRow { spans, style: Style::default() };
    assert(row@.spans =~= seq![first@, second@, third@, fourth@, fifth@]);
    row
}

/// The style of dim text.
pub fn dim_style() -> (style: Style)
    ensures
        style == Style::colored(Color::DarkGray),
{
    colored(Color::DarkGray)
}

/// Bold text.
pub open spec fn bold() -> Modifier {
    Modifier { bold: true, ..Modifier::none() }
}

/// The style of a session's row.
pub open spec fn row_style(selected: bool) -> Style {
    if selected {
        Style::bold_colored(Color::Cyan)
    } else {
        Style::plain()
    }
}

/// The right end of a session's row: a confirmation, or the last part of its
/// directory.
pub open spec fn row_end(
    session: SessionView,
    selected: bool,
    confirmation: Option<Seq<char>>,
) -> SpanView {
    match confirmation {
        Some(confirmation) => span(confirmation, Style::bold_colored(Color::Yellow)),
        None => span(
            match file_name(session.cwd) {
                Some(name) => name,
                None => session.cwd,
            },
            if selected {
                row_style(selected).without(bold())
            } else {
                Style::colored(Color::DarkGray)
            },
        ),
    }
}

/// The row of a session: its pin, its lamp, its title and its right end.
pub open spec fn session_row(
    session: SessionView,
    pinned: bool,
    selected: bool,
    confirmation: Option<Seq<char>>,
    width: int,
) -> ScreenRowView {
    let style = row_style(selected);
    let pin = if pinned {
        "📌 "@
    } else {
        "   "@
    };
    let working = session.status == SessionStatus::Working;
    let lamp = if working {
        span("● "@, Style::colored(Color::Green))
    } else {
        span("  "@, Style::plain())
    };
    let end = row_end(session, selected, confirmation);
    let taken = display_width(pin) + display_width(lamp.text);
    let title = truncated(
        session.title,
        max_int(width - taken - display_width(end.text) - 1, 0),
    );
    let spaces = max_int(width - taken - display_width(title) - display_width(end.text), 0);
    ScreenRowView {
        spans: seq![
            span(pin, Style::plain()),
            lamp,
            span(title, style),
            span(repeat_char(' ', spaces as nat), style),
            end,
        ],
        style,
    }
}

/// The right end of a session's row.
fn session_end(session: &Session, selected: bool, confirmation: Option<&str>) -> (end: StyledSpan)
    ensures
        end@ == row_end(
            session@,
            selected,
            match confirmation {
                Some(confirmation) => Some(confirmation@),
                None => None,
            },
        ),
{
    match confirmation {
        Some(confirmation) => styled(confirmation, bold_colored(Color::Yellow)),
        None => {
            let style = if selected {
                bold_colored(Color::Cyan).remove_modifier(Modifier::bold())
            } else {
                dim_style()
            };
            styled(session.leaf_directory().as_str(), style)
        },
    }
}

/// The row of a session.
pub fn session_line(
    session: &Session,
    pinned: bool,
    selected: bool,
    confirmation: Option<&str>,
    width: usize,
) -> (row: ScreenRow)
    ensures
        row@ == session_row(
            session@,
            pinned,
            selected,
            match confirmation {
                Some(confirmation) => Some(confirmation@),
                None => None,
            },
            width as int,
        ),
{
    let style = if selected {
        bold_colored(Color::Cyan)
    } else {
        Style::default()
    };
    let pin = if pinned {
        "📌 "
    } else {
        "   "
    };
    let lamp = if session.status == SessionStatus::Working {
        styled("● ", colored(Color::Green))
    } else {
        styled("  ", Style::default())
    };
    let end = session_end(session, selected, confirmation);
    let left: usize = width.saturating_sub(text_width(pin)).saturating_sub(
        text_width(lamp.text.as_str()),
    );
    let room: usize = left.saturating_sub(text_width(end.text.as_str())).saturating_sub(1);
    let title = truncate_display(session.title.as_str(), room);
    let spaces: usize = left.saturating_sub(text_width(title.as_str())).saturating_sub(
        text_width(end.text.as_str()),
    );
    let mut row = row5(
        styled(pin, Style::default()),
        lamp,
        styled(title.as_str(), style),
        styled(repeat_text(' ', spaces).as_str(), style),
        end,
    );
    row.style = style;
    row
}

/// The gutter of a kind of message, its style, and the style of its text.
pub open spec fn kind_style(kind: MessageKind) -> (Seq<char>, Style, Style) {
    match kind {
        MessageKind::User => (
            "🎯 "@,
            Style::bold_colored(Color::Cyan),
            Style::plain().with(bold()),
        ),
        MessageKind::Thinking => (
            "🧠 "@,
            Style::colored(Color::Magenta),
            Style::colored(Color::Gray),
        ),
        MessageKind::Progress => ("💬 "@, Style::colored(Color::Blue), Style::plain()),
        MessageKind::Final => ("✅ "@, Style::colored(Color::Green), Style::plain()),
        MessageKind::Question => (
            "❓ "@,
            Style::colored(Color::Yellow),
            Style::colored(Color::Yellow),
        ),
        MessageKind::System => ("⚠ "@, Style::colored(Color::Red), Style::colored(Color::Red)),
    }
}

/// The gutter of a kind of message, its style, and the style of its text.
pub fn message_style(kind: MessageKind) -> (look: (&'static str, Style, Style))
    ensures
        (look.0@, look.1, look.2) == kind_style(kind),
{
    match kind {
        MessageKind::User => (
            "🎯 ",
            bold_colored(Color::Cyan),
            Style::default().add_modifier(Modifier::bold()),
        ),
        MessageKind::Thinking => ("🧠 ", colored(Color::Magenta), colored(Color::Gray)),
        MessageKind::Progress => ("💬 ", colored(Color::Blue), Style::default()),
        MessageKind::Final => ("✅ ", colored(Color::Green), Style::default()),
        MessageKind::Question => ("❓ ", colored(Color::Yellow), colored(Color::Yellow)),
        MessageKind::System => ("⚠ ", colored(Color::Red), colored(Color::Red)),
    }
}

/// The columns of a gutter: at least one.
pub open spec fn gutter_width(prefix: Seq<char>) -> int {
    at_least_one(display_width(prefix) as int)
}

/// The gutter of a message's line: its sign on the first one, a bar on the others.
pub open spec fn gutter(prefix: Seq<char>, style: Style, first: bool) -> SpanView {
    if first {
        span(prefix, style)
    } else {
        span(
            "│"@ + repeat_char(' ', (gutter_width(prefix) - 1) as nat),
            style.without(bold()),
        )
    }
}

/// Lines behind their gutters.
pub open spec fn with_gutters(lines: Seq<Seq<SpanView>>, prefix: Seq<char>, style: Style) -> Seq<
    Seq<SpanView>,
> {
    Seq::new(lines.len(), |i: int| seq![gutter(prefix, style, i == 0)] + lines[i])
}

/// The Markdown lines of a message at a width, before their gutters.
#[verifier::opaque]
pub open spec fn message_body(message: MessageView, width: int) -> Seq<Seq<SpanView>> {
    let look = kind_style(message.kind);
    document_lines(
        markdown_events(message.text),
        look.2,
        at_least_one(width - gutter_width(look.0)) as nat,
    )
}

/// The lines of a message, with an empty one behind them.
pub open spec fn message_block(message: MessageView, width: int) -> Seq<Seq<SpanView>> {
    let look = kind_style(message.kind);
    with_gutters(message_body(message, width), look.0, look.1).push(seq![])
}

/// The lines of the messages that a preview level shows.
pub open spec fn message_rows(
    messages: Seq<MessageView>,
    width: int,
    verbosity: PreviewVerbosity,
) -> Seq<Seq<SpanView>>
    decreases messages.len(),
{
    if messages.len() == 0 {
        seq![]
    } else {
        let before = message_rows(messages.drop_last(), width, verbosity);
        if shows(verbosity, messages.last().kind) {
            before + message_block(messages.last(), width)
        } else {
            before
        }
    }
}

fn message_body_lines(message: &MessageEntry, width: usize) -> (lines: Vec<StyledLine>)
    ensures
        views(lines@) == message_body(message@, width as int),
{
    reveal(message_body);
    let (prefix, _prefix_style, text_style) = message_style(message.kind);
    let sign: usize = columns_of(prefix);
    let room: usize = width.saturating_sub(sign);
    let columns: usize = if room == 0 {
        1
    } else {
        room
    };
    render_markdown(message.text.as_str(), text_style, columns)
}

fn behind_gutter(line: &StyledLine, prefix: &str, style: Style, first: bool) -> (behind: StyledLine)
    ensures
        behind@ == seq![gutter(prefix@, style, first)] + line@,
{
    let sign = if first {
        styled(prefix, style)
    } else {
        let spaces: usize = columns_of(prefix) - 1;
        let bar = concat_text("│", repeat_text(' ', spaces).as_str());
        styled(bar.as_str(), style.remove_modifier(Modifier::bold()))
    };
    let mut spans: Vec<StyledSpan> = Vec::new();
    spans.push(sign);
    let mut rest = line.clone();
    spans.append(&mut rest.spans);
    let behind = StyledLine { spans };
    assert(behind@ =~= seq![gutter(prefix@, style, first)] + line@);
    behind
}

fn message_block_lines(message: &MessageEntry, width: usize) -> (lines: Vec<StyledLine>)
    ensures
        views(lines@) == message_block(message@, width as int),
{
    let (prefix, prefix_style, _text_style) = message_style(message.kind);
    let body = message_body_lines(message, width);
    let ghost all = views(body@);
    let mut lines: Vec<StyledLine> = Vec::new();
    let mut i: usize = 0;
    while i < body.len()
        invariant
            i <= body.len(),
            all == views(body@),
            lines.len() == i,
            forall|j: int|
                0 <= j < i ==> (#[trigger] lines@[j])@ == with_gutters(
                    all,
                    prefix@,
                    prefix_style,
                )[j],
        decreases body.len() - i,
    {
        let line = behind_gutter(&body[i], prefix, prefix_style, i == 0);
        assert(all[i as int] == body@[i as int]@);
        lines.push(line);
        i += 1;
    }
    assert(views(lines@) =~= with_gutters(all, prefix@, prefix_style));
    lines.push(StyledLine::default());
    lines
}

/// The lines of the messages that a preview level shows.
pub fn message_lines(
    messages: &Vec<MessageEntry>,
    width: usize,
    verbosity: PreviewVerbosity,
) -> (lines: Vec<StyledLine>)
    ensures
        views(lines@) == message_rows(views(messages@), width as int, verbosity),
{
    let ghost all = views(messages@);
    let mut lines: Vec<StyledLine> = Vec::new();
    let mut i: usize = 0;
    assert(all.take(0) =~= seq![]);
    while i < messages.len()
        invariant
            i <= messages.len(),
            all == views(messages@),
            views(lines@) == message_rows(all.take(i as int), width as int, verbosity),
        decreases messages.len() - i,
    {
        proof {
            assert(all.take(i + 1).drop_last() =~= all.take(i as int));
            assert(all.take(i + 1).last() == messages@[i as int]@);
        }
        if verbosity.includes(messages[i].kind) {
            let mut block = message_block_lines(&messages[i], width);
            lines.append(&mut block);
        }
        i += 1;
    }
    assert(all.take(all.len() as int) =~= all);
    lines
}

} // verus!
