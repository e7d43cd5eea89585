//! What tables, wrapped lines and links look like.

use vstd::prelude::*;

use crate::events::Alignment;
use crate::links::link_target;
use crate::segmentation::{cluster_width, display_width, grapheme_clusters, word_pieces};
use crate::style::{Color, Style};
use crate::styled::{add_text, lemma_plain_add, line_width, plain, SpanView};
use crate::tables::{
    add_cell, add_spaces, cell_width, column_count, column_width, compact_row, compact_table,
    header_label, key_style, padding_of, record_row, record_table, RowView, table_lines,
    TABLE_RECORD_READABLE_WIDTH, TableView, value_style,
};
use crate::text::{
    begins_with, concat, decimal, has_control, is_blank, is_white, lemma_trimmed_twice, repeat_char,
    replace_all, trim, trim_end, trim_end_of, trim_start,
};
use crate::wrap::{wrap_clusters, wrap_line, wrap_piece, wrap_pieces, wrap_spans, Wrapped};

verus! {

proof fn lemma_cell_text(line: Seq<SpanView>, cell: Seq<SpanView>, overlay: Style, force: bool)
    ensures
        plain(add_cell(line, cell, overlay, force)) == plain(line) + plain(cell),
    decreases cell.len(),
{
    if cell.len() == 0 {
        assert(plain(cell) =~= seq![]);
        assert(plain(line) + plain(cell) =~= plain(line));
    } else {
        let span = cell.last();
        let over = if !force && span.style.fg is Some {
            Style { fg: None, ..overlay }
        } else {
            overlay
        };
        lemma_cell_text(line, cell.drop_last(), overlay, force);
        lemma_plain_add(
            add_cell(line, cell.drop_last(), overlay, force),
            span.text,
            span.style.patched(over),
            span.link,
        );
        assert(plain(line) + plain(cell.drop_last()) + span.text =~= plain(line) + (plain(
            cell.drop_last(),
        ) + span.text));
    }
}

proof fn lemma_column_width(rows: Seq<RowView>, index: int, i: int)
    requires
        0 <= i < rows.len(),
    ensures
        cell_width(rows[i], index) <= column_width(rows, index),
    decreases rows.len(),
{
    if i < rows.len() - 1 {
        lemma_column_width(rows.drop_last(), index, i);
        assert(rows.drop_last()[i] == rows[i]);
    }
}

/// A column is as wide as its widest cell, and no wider.
pub proof fn law_columns_are_as_wide_as_their_widest_cell(
    rows: Seq<RowView>,
    index: int,
    i: int,
)
    requires
        0 <= i < rows.len(),
    ensures
        cell_width(rows[i], index) <= column_width(rows, index),
        column_width(rows, index) == 0 || exists|k: int|
            0 <= k < rows.len() && cell_width(#[trigger] rows[k], index) == column_width(
                rows,
                index,
            ),
    decreases rows.len(),
{
    lemma_column_width(rows, index, i);
    let front = rows.drop_last();
    if cell_width(rows.last(), index) > column_width(front, index) {
        assert(cell_width(rows[rows.len() - 1], index) == column_width(rows, index));
    } else if front.len() > 0 {
        law_columns_are_as_wide_as_their_widest_cell(front, index, 0);
        if column_width(front, index) > 0 {
            let k = choose|k: int|
                0 <= k < front.len() && cell_width(#[trigger] front[k], index) == column_width(
                    front,
                    index,
                );
            assert(rows[k] == front[k]);
        }
    }
}

/// A table that fits shows its rows one below the other, with the cells of a row side by
/// side: each cell is padded to the width of its column, and a bar parts it from the
/// cell before. The padding stands behind a cell, before one that is aligned to the
/// right, and on both sides of one in the middle. No cell's text is lost.
pub proof fn law_cells_stand_side_by_side(table: TableView, i: int, index: int)
    requires
        0 <= i < table.rows.len(),
        0 <= index,
    ensures
        ({
            let row = table.rows[i];
            let before = plain(compact_row(table, row, index));
            let after = plain(compact_row(table, row, index + 1));
            let padding = (column_width(table.rows, index) - cell_width(row, index)) as nat;
            let alignment = if index < table.alignments.len() {
                table.alignments[index]
            } else {
                Alignment::Unset
            };
            let left = match alignment {
                Alignment::Right => padding,
                Alignment::Center => padding / 2,
                _ => 0,
            };
            let bar = if index > 0 {
                " │ "@
            } else {
                seq![]
            };
            let text = if index < row.cells.len() {
                plain(row.cells[index])
            } else {
                seq![]
            };
            after == before + bar + repeat_char(' ', left) + text + repeat_char(
                ' ',
                (padding - left) as nat,
            )
        }),
{
    let row = table.rows[i];
    lemma_column_width(table.rows, index, i);
    let before = compact_row(table, row, index);
    let parted = if index > 0 {
        add_text(before, " │ "@, Style::colored(Color::DarkGray), None)
    } else {
        before
    };
    lemma_plain_add(before, " │ "@, Style::colored(Color::DarkGray), None);
    let padding = (column_width(table.rows, index) - cell_width(row, index)) as nat;
    let alignment = if index < table.alignments.len() {
        table.alignments[index]
    } else {
        Alignment::Unset
    };
    let key = row.is_header || index == 0;
    let (left, right) = padding_of(alignment, padding);
    lemma_plain_add(parted, repeat_char(' ', left), Style::plain(), None);
    let led = add_spaces(parted, left);
    let overlay = if key {
        key_style()
    } else {
        value_style()
    };
    let none = Seq::<char>::empty();
    assert(plain(before) + none =~= plain(before));
    let filled = if index < row.cells.len() {
        add_cell(led, row.cells[index], overlay, key)
    } else {
        led
    };
    if index < row.cells.len() {
        lemma_cell_text(led, row.cells[index], overlay, key);
    } else {
        assert(plain(led) + none =~= plain(led));
    }
    lemma_plain_add(filled, repeat_char(' ', right), Style::plain(), None);
    assert(compact_row(table, row, index + 1) == add_spaces(filled, right));
}

/// A table that fits is shown row by row, and one that does not as records; a table
/// without rows is not shown at all.
pub proof fn law_tables_are_shown_side_by_side_where_they_fit(table: TableView, width: nat)
    requires
        width > 0,
    ensures
        ({
            let limit = if width > TABLE_RECORD_READABLE_WIDTH {
                TABLE_RECORD_READABLE_WIDTH as nat
            } else {
                width
            };
            let rows = Seq::new(
                table.rows.len(),
                |i: int| compact_row(table, table.rows[i], column_count(table.rows) as int),
            );
            &&& table.rows.len() == 0 ==> table_lines(table, width).len() == 0
            &&& (forall|i: int| 0 <= i < rows.len() ==> line_width(#[trigger] rows[i]) <= limit)
                ==> table_lines(table, width) == rows
            &&& table.rows.len() > 0 && (exists|i: int|
                0 <= i < rows.len() && line_width(#[trigger] rows[i]) > limit) ==> table_lines(
                table,
                width,
            ) == record_table(table, width)
        }),
{
    let rows = Seq::new(
        table.rows.len(),
        |i: int| compact_row(table, table.rows[i], column_count(table.rows) as int),
    );
    assert(compact_table(table) =~= rows);
    if table.rows.len() == 0 {
        assert(rows =~= seq![]);
    }
}

/// The number of columns is that of the longest row.
pub proof fn law_all_columns_are_shown(rows: Seq<RowView>, i: int)
    requires
        0 <= i < rows.len(),
    ensures
        rows[i].cells.len() <= column_count(rows),
    decreases rows.len(),
{
    if i < rows.len() - 1 {
        law_all_columns_are_shown(rows.drop_last(), i);
        assert(rows.drop_last()[i] == rows[i]);
    }
}

/// A record shows each cell of its row that is not blank on a line of its own, behind
/// the heading of the cell's column.
pub proof fn law_records_name_their_cells(row: RowView, headers: RowView, index: int)
    requires
        0 <= index < row.cells.len(),
    ensures
        ({
            let before = record_row(row, headers, index);
            let after = record_row(row, headers, index + 1);
            let text = plain(row.cells[index]);
            &&& trim(text).len() == 0 ==> after == before
            &&& trim(text).len() > 0 ==> after.len() == before.len() + 1 && after.drop_last()
                == before && plain(after.last()) == header_label(headers, index) + ":"@ + " "@
                + text
        }),
{
    let label = header_label(headers, index);
    let none = Seq::<SpanView>::empty();
    let cell = row.cells[index];
    lemma_plain_add(none, label + ":"@, key_style(), None);
    let named = add_text(none, label + ":"@, key_style(), None);
    lemma_plain_add(named, " "@, Style::plain(), None);
    let spaced = add_text(named, " "@, Style::plain(), None);
    lemma_cell_text(spaced, cell, value_style(), false);
    assert(plain(none) =~= seq![]);
    assert(plain(none) + (label + ":"@) =~= label + ":"@);
    let before = record_row(row, headers, index);
    if trim(plain(cell)).len() > 0 {
        assert(record_row(row, headers, index + 1).drop_last() =~= before);
    }
}

/// The heading of a column names it, and a column without one is named by its number.
pub proof fn law_columns_are_named_by_their_headings(headers: RowView, index: int)
    requires
        0 <= index,
    ensures
        index >= headers.cells.len() ==> header_label(headers, index) == "Column "@ + decimal(
            (index + 1) as nat,
        ),
        index < headers.cells.len() ==> ({
            let heading = trim(plain(headers.cells[index]));
            &&& heading.len() > 0 && heading.last() != ':' && heading.last() != '：' ==> header_label(
                headers,
                index,
            ) == heading
            &&& heading.len() == 0 ==> header_label(headers, index) == "Column "@ + decimal(
                (index + 1) as nat,
            )
        }),
{
    if index < headers.cells.len() {
        let heading = trim(plain(headers.cells[index]));
        let stops = seq![':', '：'];
        lemma_trimmed_twice(plain(headers.cells[index]));
        if heading.len() > 0 && heading.last() != ':' && heading.last() != '：' {
            assert(!stops.contains(heading.last()));
        }
        if heading.len() == 0 {
            assert(trim_end_of(heading, stops) == heading);
        }
    }
}

/// A text without its white space.
pub open spec fn without_white(text: Seq<char>) -> Seq<char>
    decreases text.len(),
{
    if text.len() == 0 {
        seq![]
    } else if is_white(text.last()) {
        without_white(text.drop_last())
    } else {
        without_white(text.drop_last()).push(text.last())
    }
}

proof fn lemma_without_white_concat(a: Seq<char>, b: Seq<char>)
    ensures
        without_white(a + b) == without_white(a) + without_white(b),
    decreases b.len(),
{
    if b.len() == 0 {
        assert(a + b =~= a);
        assert(without_white(a) + without_white(b) =~= without_white(a));
    } else {
        assert((a + b).drop_last() =~= a + b.drop_last());
        lemma_without_white_concat(a, b.drop_last());
        if !is_white(b.last()) {
            assert(without_white(a) + without_white(b.drop_last()).push(b.last()) =~= (without_white(
                a,
            ) + without_white(b.drop_last())).push(b.last()));
        }
    }
}

proof fn lemma_trim_keeps(text: Seq<char>)
    ensures
        without_white(trim_start(text)) == without_white(text),
        without_white(trim_end(text)) == without_white(text),
    decreases text.len(),
{
    if text.len() > 0 && is_white(text[0]) {
        let rest = text.drop_first();
        lemma_trim_keeps(rest);
        let front = seq![text[0]];
        assert(front.drop_last() =~= seq![]);
        assert(without_white(front.drop_last()) =~= seq![]);
        assert(front.last() == text[0]);
        assert(without_white(front) == without_white(front.drop_last()));
        lemma_without_white_concat(front, rest);
        assert(front + rest =~= text);
        assert(without_white(front) + without_white(rest) =~= without_white(rest));
    }
    if text.len() > 0 && is_white(text.last()) {
        lemma_trim_keeps(text.drop_last());
    }
}

proof fn lemma_blank(text: Seq<char>)
    requires
        is_blank(text),
    ensures
        without_white(text) == Seq::<char>::empty(),
{
    lemma_trim_keeps(text);
    lemma_trim_keeps(trim_start(text));
    assert(trim(text) =~= seq![]);
}

/// What the lines show so far, without white space.
pub open spec fn shown_so_far(wrapped: Wrapped) -> Seq<char> {
    without_white(lines_text(wrapped.done)) + without_white(plain(wrapped.current))
}

/// The texts of lines, one after the other.
pub open spec fn lines_text(lines: Seq<Seq<SpanView>>) -> Seq<char>
    decreases lines.len(),
{
    if lines.len() == 0 {
        seq![]
    } else {
        lines_text(lines.drop_last()) + plain(lines.last())
    }
}

proof fn lemma_broken_shows(wrapped: Wrapped)
    ensures
        shown_so_far(wrapped.broken()) == shown_so_far(wrapped),
{
    let lines = wrapped.done.push(wrapped.current);
    assert(lines.drop_last() =~= wrapped.done);
    lemma_without_white_concat(lines_text(wrapped.done), plain(wrapped.current));
    let none = Seq::<SpanView>::empty();
    assert(plain(none) =~= seq![]);
    assert(without_white(plain(none)) =~= seq![]);
    assert(shown_so_far(wrapped.broken()) =~= shown_so_far(wrapped));
}

proof fn lemma_with_shows(wrapped: Wrapped, text: Seq<char>, span: SpanView)
    ensures
        shown_so_far(wrapped.with(text, span.style, span.link)) == shown_so_far(wrapped)
            + without_white(text),
{
    lemma_plain_add(wrapped.current, text, span.style, span.link);
    lemma_without_white_concat(plain(wrapped.current), text);
    let after = wrapped.with(text, span.style, span.link);
    assert(shown_so_far(after) =~= shown_so_far(wrapped) + without_white(text));
}

proof fn lemma_clusters_show(
    wrapped: Wrapped,
    clusters: Seq<Seq<char>>,
    count: int,
    span: SpanView,
    width: nat,
)
    requires
        0 <= count <= clusters.len(),
    ensures
        shown_so_far(wrap_clusters(wrapped, clusters, count, span, width)) == shown_so_far(wrapped)
            + without_white(concat(clusters.take(count))),
    decreases count,
{
    if count <= 0 {
        assert(clusters.take(count) =~= seq![]);
        assert(without_white(concat(clusters.take(count))) =~= seq![]);
        assert(shown_so_far(wrapped) + Seq::<char>::empty() =~= shown_so_far(wrapped));
    } else {
        lemma_clusters_show(wrapped, clusters, count - 1, span, width);
        let before = wrap_clusters(wrapped, clusters, count - 1, span, width);
        let cluster = clusters[count - 1];
        lemma_broken_shows(before);
        let placed = if before.full(cluster_width(cluster), width) {
            before.broken()
        } else {
            before
        };
        lemma_with_shows(placed, cluster, span);
        let front = clusters.take(count - 1);
        assert(clusters.take(count).drop_last() =~= front);
        lemma_without_white_concat(concat(front), cluster);
        assert(shown_so_far(wrapped) + without_white(concat(front)) + without_white(cluster)
            =~= shown_so_far(wrapped) + (without_white(concat(front)) + without_white(cluster)));
    }
}

proof fn lemma_piece_shows(wrapped: Wrapped, piece: Seq<char>, span: SpanView, width: nat)
    requires
        display_width(piece) > 0,
        concat(grapheme_clusters(piece)) == piece,
    ensures
        shown_so_far(wrap_piece(wrapped, piece, span, width)) == shown_so_far(wrapped)
            + without_white(piece),
{
    let none = Seq::<char>::empty();
    if is_blank(piece) {
        lemma_blank(piece);
        assert(shown_so_far(wrapped) + none =~= shown_so_far(wrapped));
    }
    lemma_broken_shows(wrapped);
    lemma_with_shows(wrapped, piece, span);
    lemma_with_shows(wrapped.broken(), piece, span);
    let clusters = grapheme_clusters(piece);
    lemma_clusters_show(wrapped, clusters, clusters.len() as int, span, width);
    assert(clusters.take(clusters.len() as int) =~= clusters);
}

proof fn lemma_pieces_show(
    wrapped: Wrapped,
    pieces: Seq<Seq<char>>,
    count: int,
    span: SpanView,
    width: nat,
)
    requires
        0 <= count <= pieces.len(),
        forall|i: int|
            0 <= i < pieces.len() ==> display_width(#[trigger] pieces[i]) > 0 && concat(
                grapheme_clusters(pieces[i]),
            ) == pieces[i],
    ensures
        shown_so_far(wrap_pieces(wrapped, pieces, count, span, width)) == shown_so_far(wrapped)
            + without_white(concat(pieces.take(count))),
    decreases count,
{
    if count <= 0 {
        assert(pieces.take(count) =~= seq![]);
        assert(without_white(concat(pieces.take(count))) =~= seq![]);
        assert(shown_so_far(wrapped) + Seq::<char>::empty() =~= shown_so_far(wrapped));
    } else {
        lemma_pieces_show(wrapped, pieces, count - 1, span, width);
        let before = wrap_pieces(wrapped, pieces, count - 1, span, width);
        let piece = pieces[count - 1];
        lemma_piece_shows(before, piece, span, width);
        let front = pieces.take(count - 1);
        assert(pieces.take(count).drop_last() =~= front);
        lemma_without_white_concat(concat(front), piece);
        assert(shown_so_far(wrapped) + without_white(concat(front)) + without_white(piece)
            =~= shown_so_far(wrapped) + (without_white(concat(front)) + without_white(piece)));
    }
}

/// Whether a span is made of words that each take a column, and words of clusters.
pub open spec fn is_visible(span: SpanView) -> bool {
    &&& concat(word_pieces(span.text)) == span.text
    &&& forall|i: int|
        0 <= i < word_pieces(span.text).len() ==> display_width(
            #[trigger] word_pieces(span.text)[i],
        ) > 0 && concat(grapheme_clusters(word_pieces(span.text)[i])) == word_pieces(span.text)[i]
}

proof fn lemma_spans_show(wrapped: Wrapped, spans: Seq<SpanView>, width: nat)
    requires
        forall|i: int| 0 <= i < spans.len() ==> is_visible(#[trigger] spans[i]),
    ensures
        shown_so_far(wrap_spans(wrapped, spans, width)) == shown_so_far(wrapped) + without_white(
            plain(spans),
        ),
    decreases spans.len(),
{
    if spans.len() == 0 {
        assert(without_white(plain(spans)) =~= seq![]);
        assert(shown_so_far(wrapped) + Seq::<char>::empty() =~= shown_so_far(wrapped));
    } else {
        let front = spans.drop_last();
        assert forall|i: int| 0 <= i < front.len() implies is_visible(#[trigger] front[i]) by {
            assert(front[i] == spans[i]);
        }
        lemma_spans_show(wrapped, front, width);
        let span = spans.last();
        assert(is_visible(spans[spans.len() - 1]));
        let pieces = word_pieces(span.text);
        lemma_pieces_show(
            wrap_spans(wrapped, front, width),
            pieces,
            pieces.len() as int,
            span,
            width,
        );
        assert(pieces.take(pieces.len() as int) =~= pieces);
        lemma_without_white_concat(plain(front), span.text);
        assert(shown_so_far(wrapped) + without_white(plain(front)) + without_white(span.text)
            =~= shown_so_far(wrapped) + (without_white(plain(front)) + without_white(span.text)));
    }
}

/// Wrapping a line loses no word and changes no order: but for white space, the lines
/// that it wraps to say what it said. It is stated where every word takes a column.
pub proof fn law_wrapping_loses_no_word(line: Seq<SpanView>, width: nat)
    requires
        forall|i: int| 0 <= i < line.len() ==> is_visible(#[trigger] line[i]),
    ensures
        without_white(lines_text(wrap_line(line, width))) == without_white(plain(line)),
{
    let none = Seq::<SpanView>::empty();
    let empty = Seq::<char>::empty();
    assert(plain(none) =~= seq![]);
    if line.len() == 0 {
        assert(seq![line].drop_last() =~= seq![]);
        assert(lines_text(Seq::<Seq<SpanView>>::empty()) =~= seq![]);
        assert(lines_text(seq![line]) =~= plain(line));
    } else {
        let start = Wrapped { done: seq![], current: seq![] };
        lemma_spans_show(start, line, width);
        let wrapped = wrap_spans(start, line, width);
        lemma_broken_shows(wrapped);
        assert(without_white(empty) =~= empty);
        assert(shown_so_far(start) =~= empty);
        assert(empty + without_white(plain(line)) =~= without_white(plain(line)));
        assert(wrapped.broken().current =~= none);
        assert(shown_so_far(wrapped.broken()) =~= without_white(lines_text(wrapped.broken().done)));
    }
}

/// A destination with a known scheme is its own target, and an absolute path is a file.
/// Any other destination has none, and neither has one with a control character.
pub proof fn law_targets_of_links(destination: Seq<char>)
    requires
        trim(destination) == destination,
        !destination.contains(' '),
    ensures
        ({
            let known = begins_with(destination, "http://"@) || begins_with(
                destination,
                "https://"@,
            ) || begins_with(destination, "file://"@) || begins_with(destination, "mailto:"@);
            let absolute = begins_with(destination, "/"@);
            let harmless = !has_control(destination);
            &&& harmless && known ==> link_target(destination) == Some(destination)
            &&& harmless && absolute ==> link_target(destination) == Some("file://"@ + destination)
            &&& !known && !absolute ==> link_target(destination) is None
            &&& !harmless ==> link_target(destination) is None
        }),
{
    reveal_strlit(" ");
    reveal_strlit("/");
    reveal_strlit("http://");
    reveal_strlit("https://");
    reveal_strlit("file://");
    reveal_strlit("mailto:");
    lemma_no_space(destination);
    let full = "file://"@ + destination;
    assert(!full.contains(' ')) by {
        if full.contains(' ') {
            let i = choose|i: int| 0 <= i < full.len() && full[i] == ' ';
            if i >= 7 {
                assert(destination[i - 7] == ' ');
            }
        }
    }
    lemma_no_space(full);
    if begins_with(destination, "/"@) {
        assert(destination.take(1)[0] == destination[0]);
        assert(destination[0] == '/');
        if begins_with(destination, "http://"@) {
            assert(destination.take(7)[0] == 'h');
        }
        if begins_with(destination, "https://"@) {
            assert(destination.take(8)[0] == 'h');
        }
        if begins_with(destination, "file://"@) {
            assert(destination.take(7)[0] == 'f');
        }
        if begins_with(destination, "mailto:"@) {
            assert(destination.take(7)[0] == 'm');
        }
    }
}

proof fn lemma_no_space(text: Seq<char>)
    requires
        !text.contains(' '),
    ensures
        replace_all(text, " "@, "%20"@) == text,
    decreases text.len(),
{
    reveal_strlit(" ");
    if text.len() > 0 {
        assert(text.contains(text[0]));
        if begins_with(text, " "@) {
            assert(text.take(1)[0] == ' ');
        }
        let rest = text.drop_first();
        assert(!rest.contains(' ')) by {
            if rest.contains(' ') {
                let i = choose|i: int| 0 <= i < rest.len() && rest[i] == ' ';
                assert(text[i + 1] == ' ');
            }
        }
        lemma_no_space(rest);
        assert(seq![text[0]] + rest =~= text);
    }
}

} // verus!
