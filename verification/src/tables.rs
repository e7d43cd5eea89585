//! Tables: side by side where they are narrow, as records where they are wide.

use vstd::prelude::*;

use crate::events::Alignment;
use crate::style::{bold_colored, Color, colored, Style};
use crate::styled::{add_text, line_width, plain, SpanView, StyledLine};
use crate::text::{
    concat_text, copy_option, decimal, decimal_text, is_blank, repeat_char, repeat_text,
    text_is_blank, text_is_empty, trim, trim_end_of, trim_end_of_two, trim_text,
};
use crate::views::{group_views, views};

verus! {

broadcast use group_views;

/// The width up to which a table is easy to read side by side.
pub const TABLE_RECORD_READABLE_WIDTH: usize = 52;

/// A row of a table.
#[derive(Debug)]
pub struct TableRow {
    pub cells: Vec<StyledLine>,
    pub is_header: bool,
}

/// The mathematical form of a row.
#[verifier::ext_equal]
pub struct RowView {
    pub cells: Seq<Seq<SpanView>>,
    pub is_header: bool,
}

impl View for TableRow {
    type V = RowView;

    open spec fn view(&self) -> RowView {
        RowView { cells: views(self.cells@), is_header: self.is_header }
    }
}

/// A table that is being read.
#[derive(Debug)]
pub struct TableState {
    pub rows: Vec<TableRow>,
    pub current_row: Option<TableRow>,
    pub in_head: bool,
    pub alignments: Vec<Alignment>,
}

/// The mathematical form of a table.
#[verifier::ext_equal]
pub struct TableView {
    pub rows: Seq<RowView>,
    pub current_row: Option<RowView>,
    pub in_head: bool,
    pub alignments: Seq<Alignment>,
}

impl View for TableState {
    type V = TableView;

    open spec fn view(&self) -> TableView {
        TableView {
            rows: views(self.rows@),
            current_row: match self.current_row {
                Some(row) => Some(row@),
                None => None,
            },
            in_head: self.in_head,
            alignments: self.alignments@,
        }
    }
}

/// The number of columns: that of the longest row.
pub open spec fn column_count(rows: Seq<RowView>) -> nat
    decreases rows.len(),
{
    if rows.len() == 0 {
        0
    } else {
        let before = column_count(rows.drop_last());
        if rows.last().cells.len() > before {
            rows.last().cells.len()
        } else {
            before
        }
    }
}

/// The width of a cell; none where the row is too short.
pub open spec fn cell_width(row: RowView, index: int) -> nat {
    if 0 <= index < row.cells.len() {
        line_width(row.cells[index])
    } else {
        0
    }
}

/// The width of a column: that of its widest cell.
pub open spec fn column_width(rows: Seq<RowView>, index: int) -> nat
    decreases rows.len(),
{
    if rows.len() == 0 {
        0
    } else {
        let before = column_width(rows.drop_last(), index);
        let own = cell_width(rows.last(), index);
        if own > before {
            own
        } else {
            before
        }
    }
}

/// The spaces before and after a cell.
pub open spec fn padding_of(alignment: Alignment, padding: nat) -> (nat, nat) {
    match alignment {
        Alignment::Right => (padding, 0),
        Alignment::Center => (padding / 2, (padding - padding / 2) as nat),
        Alignment::Left | Alignment::Unset => (0, padding),
    }
}

/// How a key of a table looks.
pub open spec fn key_style() -> Style {
    Style::bold_colored(Color::Cyan)
}

/// How a value of a table looks.
pub open spec fn value_style() -> Style {
    Style::colored(Color::Yellow)
}

/// A line with plain spaces behind it.
pub open spec fn add_spaces(line: Seq<SpanView>, count: nat) -> Seq<SpanView> {
    add_text(line, repeat_char(' ', count), Style::plain(), None)
}

/// A line with the spans of a cell behind it, in the style of the table. Unless
/// forced, a span that has a colour keeps it.
pub open spec fn add_cell(
    line: Seq<SpanView>,
    cell: Seq<SpanView>,
    overlay: Style,
    force: bool,
) -> Seq<SpanView>
    decreases cell.len(),
{
    if cell.len() == 0 {
        line
    } else {
        let span = cell.last();
        let over = if !force && span.style.fg is Some {
            Style { fg: None, ..overlay }
        } else {
            overlay
        };
        add_text(
            add_cell(line, cell.drop_last(), overlay, force),
            span.text,
            span.style.patched(over),
            span.link,
        )
    }
}

/// A row with its first `count` columns side by side.
pub open spec fn compact_row(table: TableView, row: RowView, count: int) -> Seq<SpanView>
    decreases count,
{
    if count <= 0 {
        seq![]
    } else {
        let index = count - 1;
        let before = compact_row(table, row, index);
        let parted = if index > 0 {
            add_text(before, " │ "@, Style::colored(Color::DarkGray), None)
        } else {
            before
        };
        let padding = (column_width(table.rows, index) - cell_width(row, index)) as nat;
        let alignment = if index < table.alignments.len() {
            table.alignments[index]
        } else {
            Alignment::Unset
        };
        let key = row.is_header || index == 0;
        let led = add_spaces(parted, padding_of(alignment, padding).0);
        let filled = if index < row.cells.len() {
            add_cell(
                led,
                row.cells[index],
                if key {
                    key_style()
                } else {
                    value_style()
                },
                key,
            )
        } else {
            led
        };
        add_spaces(filled, padding_of(alignment, padding).1)
    }
}

/// The rows of a table side by side.
pub open spec fn compact_table(table: TableView) -> Seq<Seq<SpanView>> {
    Seq::new(
        table.rows.len(),
        |i: int| compact_row(table, table.rows[i], column_count(table.rows) as int),
    )
}

/// The label of a column: its heading without the colon, or its number.
pub open spec fn header_label(headers: RowView, index: int) -> Seq<char> {
    let label = if 0 <= index < headers.cells.len() {
        trim(trim_end_of(trim(plain(headers.cells[index])), seq![':', '：']))
    } else {
        seq![]
    };
    if label.len() > 0 {
        label
    } else {
        "Column "@ + decimal((index + 1) as nat)
    }
}

/// A cell of a record, with its label.
pub open spec fn record_line(label: Seq<char>, cell: Seq<SpanView>) -> Seq<SpanView> {
    add_cell(
        add_text(
            add_text(seq![], label + ":"@, key_style(), None),
            " "@,
            Style::plain(),
            None,
        ),
        cell,
        value_style(),
        false,
    )
}

/// The first `count` cells of a row as lines of a record, without the blank ones.
pub open spec fn record_row(row: RowView, headers: RowView, count: int) -> Seq<Seq<SpanView>>
    decreases count,
{
    if count <= 0 {
        seq![]
    } else {
        let before = record_row(row, headers, count - 1);
        let cell = row.cells[count - 1];
        if is_blank(plain(cell)) {
            before
        } else {
            before.push(record_line(header_label(headers, count - 1), cell))
        }
    }
}

/// The line between records.
pub open spec fn separator_line(width: nat) -> Seq<SpanView> {
    let columns = if width > 80 {
        80
    } else if width == 0 {
        1
    } else {
        width
    };
    seq![
        SpanView {
            text: repeat_char('─', columns),
            style: Style::colored(Color::DarkGray),
            link: None,
        },
    ]
}

/// The position of the first header row, or the first row.
pub open spec fn header_index(rows: Seq<RowView>) -> int {
    match first_header(rows) {
        Some(i) => i,
        None => 0,
    }
}

pub open spec fn first_header(rows: Seq<RowView>) -> Option<int>
    decreases rows.len(),
{
    if rows.len() == 0 {
        None
    } else if rows[0].is_header {
        Some(0)
    } else {
        match first_header(rows.drop_first()) {
            Some(i) => Some(i + 1),
            None => None,
        }
    }
}

/// The records of the first `count` rows, each behind a separator.
pub open spec fn records(rows: Seq<RowView>, width: nat, count: int) -> Seq<Seq<SpanView>>
    decreases count,
{
    if count <= 0 {
        seq![]
    } else {
        let before = records(rows, width, count - 1);
        let row = rows[count - 1];
        let lines = record_row(row, rows[header_index(rows)], row.cells.len() as int);
        if count - 1 == header_index(rows) || row.is_header || lines.len() == 0 {
            before
        } else {
            before.push(separator_line(width)) + lines
        }
    }
}

/// A table as records; a table without any stays side by side.
pub open spec fn record_table(table: TableView, width: nat) -> Seq<Seq<SpanView>> {
    let lines = records(table.rows, width, table.rows.len() as int);
    if lines.len() == 0 {
        compact_table(table)
    } else {
        lines.push(separator_line(width))
    }
}

/// The width beyond which a table is shown as records.
pub open spec fn trigger_width(width: nat) -> nat {
    if width > TABLE_RECORD_READABLE_WIDTH {
        TABLE_RECORD_READABLE_WIDTH as nat
    } else if width == 0 {
        1
    } else {
        width
    }
}

/// How a table is shown at a width.
pub open spec fn table_lines(table: TableView, width: nat) -> Seq<Seq<SpanView>> {
    let compact = compact_table(table);
    if table.rows.len() == 0 {
        seq![]
    } else if exists|i: int|
        0 <= i < compact.len() && line_width(#[trigger] compact[i]) > trigger_width(width) {
        record_table(table, width)
    } else {
        compact
    }
}

/// The width beyond which a table is shown as records.
pub fn table_record_trigger_width(width: usize) -> (limit: usize)
    ensures
        limit == trigger_width(width as nat),
{
    if width > TABLE_RECORD_READABLE_WIDTH {
        TABLE_RECORD_READABLE_WIDTH
    } else if width == 0 {
        1
    } else {
        width
    }
}

fn table_column_count(table: &TableState) -> (count: usize)
    ensures
        count == column_count(table@.rows),
{
    let mut count: usize = 0;
    let mut i: usize = 0;
    assert(table@.rows.take(0) =~= seq![]);
    while i < table.rows.len()
        invariant
            i <= table.rows.len(),
            count == column_count(table@.rows.take(i as int)),
        decreases table.rows.len() - i,
    {
        proof {
            assert(table@.rows.take(i + 1).drop_last() =~= table@.rows.take(i as int));
            assert(table@.rows.take(i + 1).last() == table.rows@[i as int]@);
        }
        if table.rows[i].cells.len() > count {
            count = table.rows[i].cells.len();
        }
        i += 1;
    }
    assert(table@.rows.take(table@.rows.len() as int) =~= table@.rows);
    count
}

fn table_column_width(table: &TableState, index: usize) -> (width: usize)
    ensures
        width == column_width(table@.rows, index as int),
{
    let mut width: usize = 0;
    let mut i: usize = 0;
    assert(table@.rows.take(0) =~= seq![]);
    while i < table.rows.len()
        invariant
            i <= table.rows.len(),
            width == column_width(table@.rows.take(i as int), index as int),
        decreases table.rows.len() - i,
    {
        proof {
            assert(table@.rows.take(i + 1).drop_last() =~= table@.rows.take(i as int));
            assert(table@.rows.take(i + 1).last() == table.rows@[i as int]@);
        }
        let own: usize = row_cell_width(&table.rows[i], index);
        if own > width {
            width = own;
        }
        i += 1;
    }
    assert(table@.rows.take(table@.rows.len() as int) =~= table@.rows);
    width
}

/// The widths of the columns of a table.
fn table_column_widths(table: &TableState, count: usize) -> (widths: Vec<usize>)
    ensures
        widths.len() == count,
        forall|i: int| 0 <= i < count ==> #[trigger] widths@[i] == column_width(table@.rows, i),
{
    let mut widths: Vec<usize> = Vec::new();
    let mut i: usize = 0;
    while i < count
        invariant
            i <= count,
            widths.len() == i,
            forall|j: int| 0 <= j < i ==> #[trigger] widths@[j] == column_width(table@.rows, j),
        decreases count - i,
    {
        widths.push(table_column_width(table, i));
        i += 1;
    }
    widths
}

fn row_cell_width(row: &TableRow, index: usize) -> (width: usize)
    ensures
        width == cell_width(row@, index as int),
{
    if index < row.cells.len() {
        assert(row@.cells[index as int] == row.cells@[index as int]@);
        row.cells[index].width()
    } else {
        0
    }
}

proof fn lemma_column_width(rows: Seq<RowView>, index: int, i: int)
    requires
        0 <= i < rows.len(),
    ensures
        cell_width(rows[i], index) <= column_width(rows, index),
    decreases rows.len(),
{
    if i < rows.len() - 1 {
        lemma_column_width(rows.drop_last(), index, i);
    }
}

fn table_cell_padding(alignment: Alignment, padding: usize) -> (pads: (usize, usize))
    ensures
        (pads.0 as nat, pads.1 as nat) == padding_of(alignment, padding as nat),
{
    match alignment {
        Alignment::Right => (padding, 0),
        Alignment::Center => (padding / 2, padding - padding / 2),
        Alignment::Left | Alignment::Unset => (0, padding),
    }
}

fn push_spaces(line: &mut StyledLine, count: usize)
    ensures
        final(line)@ == add_spaces(old(line)@, count as nat),
{
    line.push(repeat_text(' ', count), Style::default(), None);
}

fn push_table_cell_spans(line: &mut StyledLine, cell: &StyledLine, overlay: Style, force_fg: bool)
    ensures
        final(line)@ == add_cell(old(line)@, cell@, overlay, force_fg),
{
    let ghost before = line@;
    let mut i: usize = 0;
    assert(cell@.take(0) =~= seq![]);
    while i < cell.spans.len()
        invariant
            i <= cell.spans.len(),
            line@ == add_cell(before, cell@.take(i as int), overlay, force_fg),
        decreases cell.spans.len() - i,
    {
        let span = &cell.spans[i];
        proof {
            assert(cell@.take(i + 1).drop_last() =~= cell@.take(i as int));
            assert(cell@.take(i + 1).last() == span@);
        }
        let mut over = overlay;
        if !force_fg && span.style.fg.is_some() {
            over.fg = None;
        }
        line.push(span.text.clone(), span.style.patch(over), copy_option(&span.link));
        i += 1;
    }
    assert(cell@.take(cell@.len() as int) =~= cell@);
}

fn table_compact_cell_style(key: bool) -> (style: Style)
    ensures
        style == (if key {
            key_style()
        } else {
            value_style()
        }),
{
    if key {
        bold_colored(Color::Cyan)
    } else {
        colored(Color::Yellow)
    }
}

/// The rows of a table side by side.
fn compact_table_lines(table: &TableState) -> (lines: Vec<StyledLine>)
    ensures
        views(lines@) == compact_table(table@),
{
    let count: usize = table_column_count(table);
    let widths = table_column_widths(table, count);
    let mut lines: Vec<StyledLine> = Vec::new();
    let mut r: usize = 0;
    while r < table.rows.len()
        invariant
            r <= table.rows.len(),
            count == column_count(table@.rows),
            widths.len() == count,
            forall|i: int|
                0 <= i < count ==> #[trigger] widths@[i] == column_width(table@.rows, i),
            lines.len() == r,
            forall|i: int|
                0 <= i < r ==> (#[trigger] lines@[i])@ == compact_row(
                    table@,
                    table@.rows[i],
                    count as int,
                ),
        decreases table.rows.len() - r,
    {
        let row = &table.rows[r];
        let mut line = StyledLine::default();
        let mut index: usize = 0;
        assert(table@.rows[r as int] == row@);
        while index < count
            invariant
                index <= count == widths.len(),
                r < table.rows.len(),
                table@.rows[r as int] == row@,
                forall|i: int|
                    0 <= i < count ==> #[trigger] widths@[i] == column_width(table@.rows, i),
                line@ == compact_row(table@, row@, index as int),
            decreases count - index,
        {
            if index > 0 {
                line.push_str(" │ ", colored(Color::DarkGray));
            }
            proof {
                lemma_column_width(table@.rows, index as int, r as int);
            }
            let padding: usize = widths[index] - row_cell_width(row, index);
            let alignment = if index < table.alignments.len() {
                table.alignments[index]
            } else {
                Alignment::Unset
            };
            let (left_pad, right_pad) = table_cell_padding(alignment, padding);
            push_spaces(&mut line, left_pad);
            let key = row.is_header || index == 0;
            if index < row.cells.len() {
                assert(row@.cells[index as int] == row.cells@[index as int]@);
                push_table_cell_spans(
                    &mut line,
                    &row.cells[index],
                    table_compact_cell_style(key),
                    key,
                );
            }
            push_spaces(&mut line, right_pad);
            index += 1;
        }
        lines.push(line);
        r += 1;
    }
    assert(views(lines@) =~= compact_table(table@));
    lines
}

fn table_separator(width: usize) -> (line: StyledLine)
    ensures
        line@ == separator_line(width as nat),
{
    let columns: usize = if width > 80 {
        80
    } else if width == 0 {
        1
    } else {
        width
    };
    StyledLine::from_span(repeat_text('─', columns).as_str(), colored(Color::DarkGray))
}

fn table_header_label(headers: &TableRow, index: usize) -> (label: String)
    requires
        index < usize::MAX,
    ensures
        label@ == header_label(headers@, index as int),
{
    if index < headers.cells.len() {
        assert(headers@.cells[index as int] == headers.cells@[index as int]@);
        let heading = headers.cells[index].plain_text();
        let trimmed = trim_text(heading.as_str());
        let bare = trim_end_of_two(trimmed.as_str(), ':', '：');
        let label = trim_text(bare.as_str());
        if !text_is_empty(label.as_str()) {
            return label;
        }
    }
    concat_text("Column ", decimal_text(index as u64 + 1).as_str())
}

fn cell_is_empty(cell: &StyledLine) -> (empty: bool)
    ensures
        empty == is_blank(plain(cell@)),
{
    let text = cell.plain_text();
    text_is_blank(text.as_str())
}

fn row_record(row: &TableRow, headers: &TableRow) -> (lines: Vec<StyledLine>)
    ensures
        views(lines@) == record_row(row@, headers@, row@.cells.len() as int),
{
    let mut lines: Vec<StyledLine> = Vec::new();
    let mut index: usize = 0;
    while index < row.cells.len()
        invariant
            index <= row.cells.len(),
            views(lines@) == record_row(row@, headers@, index as int),
        decreases row.cells.len() - index,
    {
        let cell = &row.cells[index];
        assert(row@.cells[index as int] == cell@);
        if !cell_is_empty(cell) {
            let label = table_header_label(headers, index);
            let mut line = StyledLine::default();
            line.push(concat_text(label.as_str(), ":"), bold_colored(Color::Cyan), None);
            line.push_str(" ", Style::default());
            push_table_cell_spans(&mut line, cell, colored(Color::Yellow), false);
            lines.push(line);
        }
        index += 1;
    }
    lines
}

fn table_header_index(table: &TableState) -> (index: usize)
    requires
        table.rows.len() > 0,
    ensures
        index == header_index(table@.rows),
        index < table.rows.len(),
{
    let ghost rows = table@.rows;
    let mut i: usize = 0;
    assert(rows.skip(0) =~= rows);
    while i < table.rows.len()
        invariant
            i <= table.rows.len(),
            table.rows.len() > 0,
            rows == table@.rows,
            first_header(rows) == (match first_header(rows.skip(i as int)) {
                Some(k) => Some(k + i),
                None => None,
            }),
        decreases table.rows.len() - i,
    {
        assert(rows.skip(i as int)[0] == table.rows@[i as int]@);
        assert(rows.skip(i as int).drop_first() =~= rows.skip(i + 1));
        if table.rows[i].is_header {
            return i;
        }
        i += 1;
    }
    0
}

/// A table as records.
fn record_table_lines(table: &TableState, width: usize) -> (lines: Vec<StyledLine>)
    requires
        table.rows.len() > 0,
    ensures
        views(lines@) == record_table(table@, width as nat),
{
    let header: usize = table_header_index(table);
    let ghost rows = table@.rows;
    let mut output: Vec<StyledLine> = Vec::new();
    let mut i: usize = 0;
    while i < table.rows.len()
        invariant
            i <= table.rows.len(),
            rows == table@.rows,
            header == header_index(rows),
            header < table.rows.len(),
            views(output@) == records(rows, width as nat, i as int),
        decreases table.rows.len() - i,
    {
        let row = &table.rows[i];
        proof {
            assert(rows[i as int] == row@);
            assert(rows[header as int] == table.rows@[header as int]@);
        }
        if i != header && !row.is_header {
            let mut lines = row_record(row, &table.rows[header]);
            if lines.len() > 0 {
                output.push(table_separator(width));
                output.append(&mut lines);
            }
        }
        i += 1;
    }
    if output.len() == 0 {
        compact_table_lines(table)
    } else {
        output.push(table_separator(width));
        output
    }
}

/// Shows a table at a width.
pub fn render_table(table: &TableState, width: usize) -> (lines: Vec<StyledLine>)
    ensures
        views(lines@) == table_lines(table@, width as nat),
{
    if table.rows.len() == 0 {
        return Vec::new();
    }
    let compact = compact_table_lines(table);
    let limit: usize = table_record_trigger_width(width);
    let ghost shown = compact_table(table@);
    let mut i: usize = 0;
    while i < compact.len()
        invariant
            i <= compact.len(),
            table.rows.len() > 0,
            shown == compact_table(table@),
            views(compact@) == shown,
            limit == trigger_width(width as nat),
            forall|j: int| 0 <= j < i ==> line_width(#[trigger] shown[j]) <= limit,
        decreases compact.len() - i,
    {
        assert(shown[i as int] == compact@[i as int]@);
        if compact[i].width() > limit {
            return record_table_lines(table, width);
        }
        i += 1;
    }
    compact
}

} // verus!
