//! How the composer, hints and titles fall into rows and columns.

use vstd::prelude::*;

use crate::composer::{ComposerToken, ComposerTokenKind, ComposeTarget, TokenKindView, TokenView};
use crate::labels::max_int;
use crate::layout::{Cell, cell_after, cluster_offset, drawn_at};
use crate::model::{Session, SessionStatus, SessionView};
use crate::segmentation::{
    cluster_width, columns_of, display_width, grapheme_clusters, graphemes, text_width,
};
use crate::style::{bold_colored, Color, screen_limit, Style};
use crate::styled::{add_text, lemma_plain_add, plain, SpanView, StyledLine};
use crate::terminal_palette::{TerminalPalette, tint};
use crate::text::{
    byte_len, concat, concat_text, lemma_byte_len_concat, lemma_concat_split, same_text,
    text_is_empty, text_len, texts,
};
use crate::views::{group_views, views};

verus! {

broadcast use group_views;

/// The top left cell.
pub open spec fn origin() -> Cell {
    Cell { row: 0, column: 0 }
}

/// The width that text wraps at: at least one column.
pub open spec fn at_least_one(width: int) -> int {
    if width < 1 {
        1
    } else {
        width
    }
}

/// The rows of a text's first `count` clusters, wrapped at a width.
pub open spec fn laid_text(clusters: Seq<Seq<char>>, count: int, width: int) -> Seq<Seq<char>>
    decreases count,
{
    if count <= 0 {
        seq![seq![]]
    } else {
        let before = laid_text(clusters, count - 1, width);
        let cell = cell_after(origin(), clusters, count - 1, width);
        let cluster = clusters[count - 1];
        if cluster == seq!['\n'] {
            before.push(seq![])
        } else {
            let drawn = drawn_at(cell, cluster, width);
            let rows = if drawn.row > cell.row {
                before.push(cluster)
            } else {
                before.update(before.len() - 1, before.last() + cluster)
            };
            if drawn.column + cluster_width(cluster) >= width {
                rows.push(seq![])
            } else {
                rows
            }
        }
    }
}

/// The rows of a text, wrapped at a width. Behind a full row there is one more.
pub open spec fn rows_of(text: Seq<char>, width: int) -> Seq<Seq<char>> {
    let clusters = grapheme_clusters(text);
    laid_text(clusters, clusters.len() as int, at_least_one(width))
}

/// Where the cluster that starts at a byte stands, among the first `count`.
pub open spec fn cell_at(clusters: Seq<Seq<char>>, count: int, byte: int, width: int) -> Option<
    Cell,
>
    decreases count,
{
    if count <= 0 {
        None
    } else if cluster_offset(clusters, count - 1) == byte {
        Some(cell_after(origin(), clusters, count - 1, width))
    } else {
        cell_at(clusters, count - 1, byte, width)
    }
}

/// Where the cursor stands: at the cluster that starts at its byte, or at the end.
pub open spec fn cursor_of(text: Seq<char>, byte: int, width: int) -> Cell {
    let clusters = grapheme_clusters(text);
    let columns = at_least_one(width);
    let end = cell_after(origin(), clusters, clusters.len() as int, columns);
    if byte == byte_len(text) {
        end
    } else {
        match cell_at(clusters, clusters.len() as int, byte, columns) {
            Some(cell) => cell,
            None => end,
        }
    }
}

/// How a composer looks: a prefix in a style of its own, and its tokens.
pub struct Look {
    pub prefix_bytes: int,
    pub prefix_style: Style,
    pub tokens: Seq<TokenView>,
}

/// The first token whose styled part holds a byte.
pub open spec fn token_at(tokens: Seq<TokenView>, byte: int) -> Option<TokenView>
    decreases tokens.len(),
{
    if tokens.len() == 0 {
        None
    } else if tokens[0].start <= byte < tokens[0].style_end {
        Some(tokens[0])
    } else {
        token_at(tokens.drop_first(), byte)
    }
}

/// The style of a token.
pub open spec fn token_style(kind: TokenKindView) -> Style {
    match kind {
        TokenKindView::Skill(_) => Style::bold_colored(Color::Magenta),
        TokenKindView::Image(_) => Style::bold_colored(Color::Yellow),
        TokenKindView::PastedText(_) => Style::bold_colored(Color::Blue),
    }
}

impl Look {
    /// The style of the cluster that starts at a byte.
    pub open spec fn style_at(self, byte: int) -> Style {
        if byte < self.prefix_bytes {
            self.prefix_style
        } else {
            match token_at(self.tokens, byte - self.prefix_bytes) {
                Some(token) => token_style(token.kind),
                None => Style::plain(),
            }
        }
    }
}

/// The styled rows of a text's first `count` clusters, wrapped at a width.
pub open spec fn laid_spans(
    clusters: Seq<Seq<char>>,
    look: Look,
    count: int,
    width: int,
) -> Seq<Seq<SpanView>>
    decreases count,
{
    if count <= 0 {
        seq![seq![]]
    } else {
        let before = laid_spans(clusters, look, count - 1, width);
        let cell = cell_after(origin(), clusters, count - 1, width);
        let cluster = clusters[count - 1];
        let style = look.style_at(cluster_offset(clusters, count - 1));
        if cluster == seq!['\n'] {
            before.push(seq![])
        } else {
            let drawn = drawn_at(cell, cluster, width);
            let rows = if drawn.row > cell.row {
                before.push(add_text(seq![], cluster, style, None))
            } else {
                before.update(before.len() - 1, add_text(before.last(), cluster, style, None))
            };
            if drawn.column + cluster_width(cluster) >= width {
                rows.push(seq![])
            } else {
                rows
            }
        }
    }
}

/// The rows of a composer: its prefix and its text, wrapped at a width.
pub open spec fn composer_rows(
    prefix: Seq<char>,
    text: Seq<char>,
    tokens: Seq<TokenView>,
    prefix_style: Style,
    width: int,
) -> Seq<Seq<SpanView>> {
    let clusters = grapheme_clusters(prefix + text);
    laid_spans(
        clusters,
        Look { prefix_bytes: byte_len(prefix) as int, prefix_style, tokens },
        clusters.len() as int,
        at_least_one(width),
    )
}

/// The first `count` clusters of a text, without the line breaks.
pub open spec fn without_breaks(clusters: Seq<Seq<char>>, count: int) -> Seq<char>
    decreases count,
{
    if count <= 0 {
        seq![]
    } else if clusters[count - 1] == seq!['\n'] {
        without_breaks(clusters, count - 1)
    } else {
        without_breaks(clusters, count - 1) + clusters[count - 1]
    }
}

/// The texts of styled rows.
pub open spec fn row_texts(rows: Seq<Seq<SpanView>>) -> Seq<Seq<char>> {
    rows.map_values(|row: Seq<SpanView>| plain(row))
}

proof fn lemma_concat_push(rows: Seq<Seq<char>>, row: Seq<char>)
    ensures
        concat(rows.push(row)) == concat(rows) + row,
{
    assert(rows.push(row).drop_last() =~= rows);
}

proof fn lemma_concat_grown(rows: Seq<Seq<char>>, more: Seq<char>)
    requires
        rows.len() > 0,
    ensures
        concat(rows.update(rows.len() - 1, rows.last() + more)) == concat(rows) + more,
{
    let grown = rows.update(rows.len() - 1, rows.last() + more);
    assert(grown.drop_last() =~= rows.drop_last());
    assert(concat(rows.drop_last()) + (rows.last() + more) =~= concat(rows) + more);
}

proof fn lemma_laid_text(clusters: Seq<Seq<char>>, count: int, width: int)
    ensures
        laid_text(clusters, count, width).len() > 0,
        concat(laid_text(clusters, count, width)) == without_breaks(clusters, count),
    decreases count,
{
    let empty = Seq::<char>::empty();
    if count <= 0 {
        lemma_concat_push(seq![], empty);
        assert(seq![empty] =~= Seq::<Seq<char>>::empty().push(empty));
        assert(concat(Seq::<Seq<char>>::empty()) + empty =~= empty);
    } else {
        let before = laid_text(clusters, count - 1, width);
        let cell = cell_after(origin(), clusters, count - 1, width);
        let cluster = clusters[count - 1];
        lemma_laid_text(clusters, count - 1, width);
        lemma_concat_push(before, empty);
        lemma_concat_push(before, cluster);
        lemma_concat_grown(before, cluster);
        assert(concat(before) + empty =~= concat(before));
        let drawn = drawn_at(cell, cluster, width);
        let rows = if drawn.row > cell.row {
            before.push(cluster)
        } else {
            before.update(before.len() - 1, before.last() + cluster)
        };
        lemma_concat_push(rows, empty);
        assert(concat(rows) + empty =~= concat(rows));
    }
}

/// The styled rows hold the same text as the plain ones.
proof fn lemma_laid_spans(clusters: Seq<Seq<char>>, look: Look, count: int, width: int)
    ensures
        laid_spans(clusters, look, count, width).len() > 0,
        row_texts(laid_spans(clusters, look, count, width)) == laid_text(clusters, count, width),
    decreases count,
{
    let none = Seq::<SpanView>::empty();
    if count <= 0 {
        assert(plain(none) =~= seq![]);
        assert(row_texts(seq![none]) =~= seq![seq![]]);
    } else {
        let before = laid_spans(clusters, look, count - 1, width);
        let cluster = clusters[count - 1];
        let style = look.style_at(cluster_offset(clusters, count - 1));
        lemma_laid_spans(clusters, look, count - 1, width);
        lemma_plain_add(none, cluster, style, None);
        lemma_plain_add(before.last(), cluster, style, None);
        assert(plain(none) =~= seq![]);
        assert(plain(none) + cluster =~= cluster);
        assert(row_texts(before).last() == plain(before.last()));
        assert(row_texts(laid_spans(clusters, look, count, width)) =~= laid_text(
            clusters,
            count,
            width,
        ));
    }
}

/// The rows of a text, one after the other, are its clusters without the line
/// breaks: wrapping loses nothing and adds nothing. The rows of a composer are
/// those of its prefix and its text.
pub proof fn law_rows_hold_the_whole_text(
    text: Seq<char>,
    prefix: Seq<char>,
    tokens: Seq<TokenView>,
    style: Style,
    width: int,
)
    ensures
        concat(rows_of(text, width)) == without_breaks(
            grapheme_clusters(text),
            grapheme_clusters(text).len() as int,
        ),
        row_texts(composer_rows(prefix, text, tokens, style, width)) == rows_of(
            prefix + text,
            width,
        ),
{
    let clusters = grapheme_clusters(text);
    lemma_laid_text(clusters, clusters.len() as int, at_least_one(width));
    let all = grapheme_clusters(prefix + text);
    let look = Look { prefix_bytes: byte_len(prefix) as int, prefix_style: style, tokens };
    lemma_laid_spans(all, look, all.len() as int, at_least_one(width));
}

/// The clusters that stand in a row, out of the first `count`.
pub open spec fn row_clusters(
    clusters: Seq<Seq<char>>,
    count: int,
    width: int,
    row: int,
) -> Seq<Seq<char>>
    decreases count,
{
    if count <= 0 {
        seq![]
    } else {
        let before = row_clusters(clusters, count - 1, width, row);
        let cluster = clusters[count - 1];
        let cell = cell_after(origin(), clusters, count - 1, width);
        if cluster != seq!['\n'] && drawn_at(cell, cluster, width).row == row {
            before.push(cluster)
        } else {
            before
        }
    }
}

/// The columns that clusters take, one after the other.
pub open spec fn columns_of_all(clusters: Seq<Seq<char>>) -> nat
    decreases clusters.len(),
{
    if clusters.len() == 0 {
        0
    } else {
        columns_of_all(clusters.drop_last()) + cluster_width(clusters.last())
    }
}

/// Whether clusters fit into a row: their columns are at most the width, or there is
/// one alone.
pub open spec fn row_fits(clusters: Seq<Seq<char>>, width: int) -> bool {
    columns_of_all(clusters) <= width || clusters.len() == 1
}

/// What holds of the rows when the first `count` clusters are laid out.
pub open spec fn rows_laid(clusters: Seq<Seq<char>>, count: int, width: int) -> bool {
    let cell = cell_after(origin(), clusters, count, width);
    let rows = laid_text(clusters, count, width);
    &&& 0 <= cell.row
    &&& 0 <= cell.column < width
    &&& rows.len() == cell.row + 1
    &&& columns_of_all(row_clusters(clusters, count, width, cell.row)) == cell.column
    &&& forall|row: int|
        row > cell.row ==> (#[trigger] row_clusters(clusters, count, width, row)).len() == 0
    &&& forall|row: int|
        0 <= row <= cell.row ==> {
            &&& rows[row] == concat(#[trigger] row_clusters(clusters, count, width, row))
            &&& row_fits(row_clusters(clusters, count, width, row), width)
        }
}

proof fn lemma_rows_laid(clusters: Seq<Seq<char>>, count: int, width: int)
    requires
        width >= 1,
    ensures
        rows_laid(clusters, count, width),
    decreases count,
{
    let cell = cell_after(origin(), clusters, count, width);
    let rows = laid_text(clusters, count, width);
    if count <= 0 {
        assert(columns_of_all(Seq::<Seq<char>>::empty()) == 0);
        assert(concat(Seq::<Seq<char>>::empty()) =~= seq![]);
    } else {
        lemma_rows_laid(clusters, count - 1, width);
        let earlier = cell_after(origin(), clusters, count - 1, width);
        let before = laid_text(clusters, count - 1, width);
        let cluster = clusters[count - 1];
        let drawn = drawn_at(earlier, cluster, width);
        let filled = row_clusters(clusters, count - 1, width, drawn.row);
        let grown = filled.push(cluster);
        assert(grown.drop_last() =~= filled);
        assert(concat(grown) == concat(filled) + cluster);
        assert(columns_of_all(grown) == columns_of_all(filled) + cluster_width(cluster));
        if filled.len() > 0 {
            assert(columns_of_all(filled) >= cluster_width(filled.last()));
        }
        assert(columns_of_all(filled) == drawn.column);
        assert(row_fits(grown, width));
        assert(concat(Seq::<Seq<char>>::empty()) =~= seq![]);
        if filled.len() == 0 {
            assert(filled =~= seq![]);
            assert(concat(filled) + cluster =~= cluster);
        }
        if cluster != seq!['\n'] {
            let filled_rows = if drawn.row > earlier.row {
                before.push(cluster)
            } else {
                before.update(before.len() - 1, before.last() + cluster)
            };
            assert(filled_rows.len() == drawn.row + 1);
            if drawn.column + cluster_width(cluster) >= width {
                assert(rows == filled_rows.push(seq![]));
                assert(cell.row == drawn.row + 1);
            } else {
                assert(rows == filled_rows);
                assert(cell.row == drawn.row);
            }
        }
        assert forall|row: int| row > cell.row implies (#[trigger] row_clusters(
            clusters,
            count,
            width,
            row,
        )).len() == 0 by {
            assert(row_clusters(clusters, count - 1, width, row).len() == 0);
        }
        assert forall|row: int| 0 <= row <= cell.row implies {
            &&& rows[row] == concat(#[trigger] row_clusters(clusters, count, width, row))
            &&& row_fits(row_clusters(clusters, count, width, row), width)
        } by {
            let earlier_row = row_clusters(clusters, count - 1, width, row);
            let now = row_clusters(clusters, count, width, row);
            if row > earlier.row {
                assert(earlier_row =~= seq![]);
            } else {
                assert(before[row] == concat(earlier_row));
            }
            if cluster == seq!['\n'] {
                assert(now == earlier_row);
                assert(row <= earlier.row ==> rows[row] == before[row]);
            } else if row == drawn.row {
                assert(now == grown);
                assert(rows[row] == concat(grown));
            } else {
                assert(now == earlier_row);
                if row < drawn.row {
                    assert(rows[row] == before[row]);
                } else {
                    assert(rows[row] =~= seq![]);
                }
            }
        }
        let current = row_clusters(clusters, count, width, cell.row);
        if cluster == seq!['\n'] || drawn.column + cluster_width(cluster) >= width {
            assert(row_clusters(clusters, count - 1, width, cell.row).len() == 0);
            assert(current =~= seq![]);
        } else {
            assert(current == grown);
        }
    }
}

/// The rows of a text fit the width, by the columns of their clusters, but for single
/// clusters that are wider than the width. Each row is its clusters, one after the
/// other.
pub proof fn law_rows_fit_the_width(text: Seq<char>, width: int, row: int)
    requires
        0 <= row < rows_of(text, width).len(),
    ensures
        ({
            let clusters = grapheme_clusters(text);
            let columns = at_least_one(width);
            let inside = row_clusters(clusters, clusters.len() as int, columns, row);
            &&& rows_of(text, width)[row] == concat(inside)
            &&& row_fits(inside, columns)
        }),
{
    let clusters = grapheme_clusters(text);
    lemma_rows_laid(clusters, clusters.len() as int, at_least_one(width));
    assert(rows_laid(clusters, clusters.len() as int, at_least_one(width)));
}

/// The texts of the rows, and the row and column of the cursor.
pub fn layout_with_cursor(text: &str, cursor_byte: usize, width: usize) -> (layout: (
    Vec<String>,
    usize,
    usize,
))
    ensures
        texts(layout.0@) == rows_of(text@, width as int),
        layout.0.len() > 0,
        layout.1 == cursor_of(text@, cursor_byte as int, width as int).row,
        layout.2 == cursor_of(text@, cursor_byte as int, width as int).column,
        layout.1 < layout.0.len(),
{
    let width: usize = if width == 0 {
        1
    } else {
        width
    };
    let clusters = graphemes(text);
    let ghost parts = texts(clusters@);
    let whole: usize = text_len(text);
    let mut lines: Vec<String> = Vec::new();
    lines.push(String::new());
    let mut column: usize = 0;
    let mut byte: usize = 0;
    let mut cursor: Option<(usize, usize)> = None;
    let mut i: usize = 0;
    assert(parts.take(0) =~= seq![]);
    assert(texts(lines@) =~= seq![seq![]]);
    while i < clusters.len()
        invariant
            i <= clusters.len(),
            parts == texts(clusters@),
            concat(parts) == text@,
            whole == byte_len(text@),
            width > 0,
            column < width,
            byte == cluster_offset(parts, i as int),
            lines.len() > 0,
            texts(lines@) == laid_text(parts, i as int, width as int),
            lines.len() == cell_after(origin(), parts, i as int, width as int).row + 1,
            column == cell_after(origin(), parts, i as int, width as int).column,
            match cursor {
                Some((row, col)) => row < lines.len() && cell_at(
                    parts,
                    i as int,
                    cursor_byte as int,
                    width as int,
                ) == Some(Cell { row: row as int, column: col as int }),
                None => cell_at(parts, i as int, cursor_byte as int, width as int) is None,
            },
        decreases clusters.len() - i,
    {
        if byte == cursor_byte {
            cursor = Some((lines.len() - 1, column));
        }
        let cluster = clusters[i].as_str();
        let length: usize = text_len(cluster);
        proof {
            assert(parts.take(i + 1).drop_last() =~= parts.take(i as int));
            assert(parts[i as int] == cluster@);
            lemma_byte_len_concat(concat(parts.take(i as int)), cluster@);
            lemma_concat_split(parts, i + 1);
            reveal_strlit("\n");
            assert("\n"@ =~= seq!['\n']);
        }
        byte = byte + length;
        if same_text(cluster, "\n") {
            let ghost before = texts(lines@);
            lines.push(String::new());
            assert(texts(lines@) =~= before.push(seq![]));
            column = 0;
        } else {
            let taken: usize = columns_of(cluster);
            let ghost before = texts(lines@);
            if column > 0 && taken > width - column {
                lines.push(cluster.to_owned());
                assert(texts(lines@) =~= before.push(cluster@));
                column = 0;
            } else {
                let last: usize = lines.len() - 1;
                let longer = concat_text(lines[last].as_str(), cluster);
                lines.set(last, longer);
                assert(texts(lines@) =~= before.update(before.len() - 1, before.last() + cluster@));
            }
            if taken >= width - column {
                let ghost filled = texts(lines@);
                lines.push(String::new());
                assert(texts(lines@) =~= filled.push(seq![]));
                column = 0;
            } else {
                column = column + taken;
            }
        }
        i += 1;
    }
    let end_row: usize = lines.len() - 1;
    if cursor_byte == text_len(text) {
        return (lines, end_row, column);
    }
    match cursor {
        Some((row, col)) => (lines, row, col),
        None => (lines, end_row, column),
    }
}

/// The style of the token whose styled part holds a byte.
pub fn token_style_at(tokens: &Vec<ComposerToken>, byte: usize) -> (style: Option<Style>)
    ensures
        style == (match token_at(views(tokens@), byte as int) {
            Some(token) => Some(token_style(token.kind)),
            None => None,
        }),
{
    let ghost all = views(tokens@);
    let mut i: usize = 0;
    assert(all.skip(0) =~= all);
    while i < tokens.len()
        invariant
            i <= tokens.len(),
            all == views(tokens@),
            token_at(all, byte as int) == token_at(all.skip(i as int), byte as int),
        decreases tokens.len() - i,
    {
        proof {
            assert(all.skip(i as int)[0] == tokens@[i as int]@);
            assert(all.skip(i as int).drop_first() =~= all.skip(i + 1));
        }
        if tokens[i].start <= byte && byte < tokens[i].style_end {
            return Some(
                match &tokens[i].kind {
                    ComposerTokenKind::Skill(_) => bold_colored(Color::Magenta),
                    ComposerTokenKind::Image(_) => bold_colored(Color::Yellow),
                    ComposerTokenKind::PastedText(_) => bold_colored(Color::Blue),
                },
            );
        }
        i += 1;
    }
    None
}

/// The styled rows of a composer, and the row and column of its cursor.
pub fn styled_composer_layout(
    prefix: &str,
    text: &str,
    cursor: usize,
    tokens: &Vec<ComposerToken>,
    prefix_style: Style,
    width: usize,
) -> (layout: (Vec<StyledLine>, usize, usize))
    requires
        cursor <= byte_len(text@),
    ensures
        views(layout.0@) == composer_rows(
            prefix@,
            text@,
            views(tokens@),
            prefix_style,
            width as int,
        ),
        layout.0.len() > 0,
        layout.1 == cursor_of(prefix@ + text@, byte_len(prefix@) + cursor, width as int).row,
        layout.2 == cursor_of(prefix@ + text@, byte_len(prefix@) + cursor, width as int).column,
        layout.1 < layout.0.len(),
{
    let display = concat_text(prefix, text);
    let prefix_bytes: usize = text_len(prefix);
    let end: usize = text_len(display.as_str());
    proof {
        lemma_byte_len_concat(prefix@, text@);
    }
    let cursor_byte: usize = prefix_bytes + cursor;
    let width: usize = if width == 0 {
        1
    } else {
        width
    };
    let clusters = graphemes(display.as_str());
    let whole: usize = text_len(display.as_str());
    let ghost parts = texts(clusters@);
    let ghost look = Look {
        prefix_bytes: prefix_bytes as int,
        prefix_style,
        tokens: views(tokens@),
    };
    let mut lines: Vec<StyledLine> = Vec::new();
    lines.push(StyledLine::default());
    let mut column: usize = 0;
    let mut byte: usize = 0;
    let mut place: Option<(usize, usize)> = None;
    let mut i: usize = 0;
    assert(parts.take(0) =~= seq![]);
    assert(views(lines@) =~= seq![seq![]]);
    while i < clusters.len()
        invariant
            i <= clusters.len(),
            parts == texts(clusters@),
            concat(parts) == display@,
            whole == byte_len(display@),
            width > 0,
            column < width,
            byte == cluster_offset(parts, i as int),
            look == (Look {
                prefix_bytes: prefix_bytes as int,
                prefix_style,
                tokens: views(tokens@),
            }),
            lines.len() > 0,
            views(lines@) == laid_spans(parts, look, i as int, width as int),
            lines.len() == cell_after(origin(), parts, i as int, width as int).row + 1,
            column == cell_after(origin(), parts, i as int, width as int).column,
            match place {
                Some((row, col)) => row < lines.len() && cell_at(
                    parts,
                    i as int,
                    cursor_byte as int,
                    width as int,
                ) == Some(Cell { row: row as int, column: col as int }),
                None => cell_at(parts, i as int, cursor_byte as int, width as int) is None,
            },
        decreases clusters.len() - i,
    {
        if byte == cursor_byte {
            place = Some((lines.len() - 1, column));
        }
        let cluster = clusters[i].as_str();
        let length: usize = text_len(cluster);
        let style = if byte < prefix_bytes {
            prefix_style
        } else {
            match token_style_at(tokens, byte - prefix_bytes) {
                Some(style) => style,
                None => Style::default(),
            }
        };
        proof {
            assert(parts.take(i + 1).drop_last() =~= parts.take(i as int));
            assert(parts[i as int] == cluster@);
            lemma_byte_len_concat(concat(parts.take(i as int)), cluster@);
            lemma_concat_split(parts, i + 1);
            reveal_strlit("\n");
            assert("\n"@ =~= seq!['\n']);
            assert(style == look.style_at(byte as int));
        }
        byte = byte + length;
        if same_text(cluster, "\n") {
            lines.push(StyledLine::default());
            column = 0;
        } else {
            let taken: usize = columns_of(cluster);
            if column > 0 && taken > width - column {
                let mut line = StyledLine::default();
                line.push_str(cluster, style);
                lines.push(line);
                column = 0;
            } else {
                let last: usize = lines.len() - 1;
                let mut line = lines[last].clone();
                line.push_str(cluster, style);
                lines.set(last, line);
            }
            if taken >= width - column {
                lines.push(StyledLine::default());
                column = 0;
            } else {
                column = column + taken;
            }
        }
        i += 1;
    }
    let end_row: usize = lines.len() - 1;
    if cursor_byte == end {
        return (lines, end_row, column);
    }
    match place {
        Some((row, col)) => (lines, row, col),
        None => (lines, end_row, column),
    }
}

/// A number between two others.
pub open spec fn between(value: int, low: int, high: int) -> int {
    if value < low {
        low
    } else if value > high {
        high
    } else {
        value
    }
}

/// The rows of a composer's text, at most as many as there may be.
pub open spec fn text_rows(prefix: Seq<char>, text: Seq<char>, width: int, maximum: int) -> int {
    between(
        screen_limit(rows_of(prefix + text, width).len() as int),
        1,
        at_least_one(maximum),
    )
}

/// The rows of a composer's text, at most as many as there may be.
pub fn composer_height(prefix: &str, text: &str, width: usize, maximum: u16) -> (height: u16)
    ensures
        height == text_rows(prefix@, text@, width as int, maximum as int),
{
    let display = concat_text(prefix, text);
    let (lines, _row, _column) = layout_with_cursor(
        display.as_str(),
        text_len(display.as_str()),
        width,
    );
    let rows: u16 = if lines.len() > 65535 {
        65535
    } else {
        lines.len() as u16
    };
    let limit: u16 = if maximum == 0 {
        1
    } else {
        maximum
    };
    if rows < 1 {
        1
    } else if rows > limit {
        limit
    } else {
        rows
    }
}

/// The rows of a composer with its title, at most as many as there may be. The
/// title has a row where there is more than one.
pub open spec fn box_rows(prefix: Seq<char>, text: Seq<char>, width: int, maximum: int) -> int {
    let limit = at_least_one(maximum);
    if limit > 1 {
        text_rows(prefix, text, width, limit - 1) + 1
    } else {
        1
    }
}

/// The rows of a composer with its title, at most as many as there may be.
pub fn composer_box_height(prefix: &str, text: &str, width: usize, maximum: u16) -> (height: u16)
    ensures
        height == box_rows(prefix@, text@, width as int, maximum as int),
        1 <= height,
        height <= maximum || height == 1,
{
    let limit: u16 = if maximum == 0 {
        1
    } else {
        maximum
    };
    let title: u16 = if limit > 1 {
        1
    } else {
        0
    };
    let editor: u16 = composer_height(prefix, text, width, limit - title);
    let height: u16 = editor.saturating_add(title);
    if height > limit {
        limit
    } else {
        height
    }
}

/// The rows of a hint, without the empty one behind a full row.
pub open spec fn hint_rows(hint: Seq<char>, width: int) -> Seq<Seq<char>> {
    let rows = rows_of(hint, width);
    if rows.len() > 1 && rows.last().len() == 0 {
        rows.drop_last()
    } else {
        rows
    }
}

/// The rows of a hint, without the empty one behind a full row.
pub fn wrapped_hint_lines(hint: &str, width: usize) -> (lines: Vec<String>)
    ensures
        texts(lines@) == hint_rows(hint@, width as int),
{
    let (mut lines, _row, _column) = layout_with_cursor(hint, text_len(hint), width);
    let last: usize = lines.len() - 1;
    if last > 0 && text_is_empty(lines[last].as_str()) {
        let ghost before = texts(lines@);
        lines.pop();
        assert(texts(lines@) =~= before.drop_last());
    }
    lines
}

/// How many of a text's clusters fit before an ellipsis, where some columns are
/// used.
pub open spec fn clusters_that_fit(
    clusters: Seq<Seq<char>>,
    from: int,
    used: int,
    width: int,
) -> int
    decreases clusters.len() - from,
{
    if from < 0 || from >= clusters.len() {
        from
    } else if used + cluster_width(clusters[from]) + 1 > width {
        from
    } else {
        clusters_that_fit(clusters, from + 1, used + cluster_width(clusters[from]), width)
    }
}

/// A text cut to a width, with an ellipsis where something is cut off.
pub open spec fn truncated(text: Seq<char>, width: int) -> Seq<char> {
    let clusters = grapheme_clusters(text);
    if width <= 0 {
        seq![]
    } else if display_width(text) <= width {
        text
    } else if width == 1 {
        "…"@
    } else {
        concat(clusters.take(clusters_that_fit(clusters, 0, 0, width))) + "…"@
    }
}

/// A text cut to a width, with an ellipsis where something is cut off.
pub fn truncate_display(text: &str, width: usize) -> (shown: String)
    ensures
        shown@ == truncated(text@, width as int),
{
    if width == 0 {
        return String::new();
    }
    if text_width(text) <= width {
        return text.to_owned();
    }
    if width == 1 {
        return "…".to_owned();
    }
    let clusters = graphemes(text);
    let ghost parts = texts(clusters@);
    let ghost all = clusters_that_fit(parts, 0, 0, width as int);
    let mut shown = String::new();
    let mut used: usize = 0;
    let mut i: usize = 0;
    assert(parts.take(0) =~= seq![]);
    while i < clusters.len()
        invariant_except_break
            i <= clusters.len(),
            used < width,
            parts == texts(clusters@),
            shown@ == concat(parts.take(i as int)),
            all == clusters_that_fit(parts, i as int, used as int, width as int),
        ensures
            i == all,
            i <= clusters.len(),
            shown@ == concat(parts.take(i as int)),
        decreases clusters.len() - i,
    {
        let cluster = clusters[i].as_str();
        let taken: usize = columns_of(cluster);
        assert(parts[i as int] == cluster@);
        if taken >= width - used {
            break;
        }
        proof {
            assert(parts.take(i + 1).drop_last() =~= parts.take(i as int));
            assert(parts.take(i + 1).last() == cluster@);
        }
        shown.append(cluster);
        used = used + taken;
        i += 1;
    }
    shown.append("…");
    shown
}

/// The prefix of the composer.
pub open spec fn prefix_of(target: ComposeTarget, pending: bool) -> Seq<char> {
    match target {
        ComposeTarget::NewTask => "＋ new › "@,
        ComposeTarget::Reply => if pending {
            "？ answer › "@
        } else {
            "↳ reply › "@
        },
        ComposeTarget::Rename => "✎ rename › "@,
    }
}

/// The prefix of the composer.
pub fn composer_prefix(target: ComposeTarget, pending: bool) -> (prefix: String)
    ensures
        prefix@ == prefix_of(target, pending),
{
    match target {
        ComposeTarget::NewTask => "＋ new › ".to_owned(),
        ComposeTarget::Reply => if pending {
            "？ answer › ".to_owned()
        } else {
            "↳ reply › ".to_owned()
        },
        ComposeTarget::Rename => "✎ rename › ".to_owned(),
    }
}

/// The colour of the composer's prefix and title.
pub open spec fn accent_of(target: ComposeTarget, pending: bool) -> Color {
    match target {
        ComposeTarget::NewTask => Color::Green,
        ComposeTarget::Reply => if pending {
            Color::Yellow
        } else {
            Color::Cyan
        },
        ComposeTarget::Rename => Color::Magenta,
    }
}

/// The colour of the composer's prefix and title.
pub fn composer_accent(target: ComposeTarget, pending: bool) -> (color: Color)
    ensures
        color == accent_of(target, pending),
{
    match target {
        ComposeTarget::NewTask => Color::Green,
        ComposeTarget::Reply => if pending {
            Color::Yellow
        } else {
            Color::Cyan
        },
        ComposeTarget::Rename => Color::Magenta,
    }
}

/// The number of the terminal's colour that tints the composer.
pub open spec fn ansi_of(target: ComposeTarget, pending: bool) -> int {
    match target {
        ComposeTarget::NewTask => 2,
        ComposeTarget::Reply => if pending {
            3
        } else {
            6
        },
        ComposeTarget::Rename => 5,
    }
}

/// The number of the terminal's colour that tints the composer.
pub fn composer_ansi_index(target: ComposeTarget, pending: bool) -> (index: u8)
    ensures
        index == ansi_of(target, pending),
{
    match target {
        ComposeTarget::NewTask => 2,
        ComposeTarget::Reply => if pending {
            3
        } else {
            6
        },
        ComposeTarget::Rename => 5,
    }
}

/// The background of the composer.
pub fn composer_background(target: ComposeTarget, pending: bool, palette: &TerminalPalette) -> (color:
    Color)
    ensures
        color == tint(palette.background, palette.accent(ansi_of(target, pending))),
{
    palette.tinted_ansi(composer_ansi_index(target, pending))
}

/// Whether the title of the composer shows a lamp: the session that it replies to
/// is working.
pub open spec fn title_has_lamp(target: ComposeTarget, session: Option<SessionView>) -> bool {
    target == ComposeTarget::Reply && (session matches Some(session) && session.status
        == SessionStatus::Working)
}

/// The title of the composer before it is cut to a width.
pub open spec fn title_label(target: ComposeTarget, session: Option<SessionView>) -> Seq<char> {
    match target {
        ComposeTarget::NewTask => "New task"@,
        ComposeTarget::Reply => match session {
            Some(session) => session.title,
            None => "No session selected"@,
        },
        ComposeTarget::Rename => match session {
            Some(session) => "Rename: "@ + session.title,
            None => "Rename"@,
        },
    }
}

/// The columns that the title of the composer has.
pub open spec fn title_room(lamp: bool, width: int) -> int {
    let lamp_width = if lamp {
        display_width("● "@) as int
    } else {
        0
    };
    max_int(max_int(width - 2, 0) - lamp_width, 0)
}

/// Whether the title of the composer shows a lamp, and the title.
pub fn composer_context_title(target: ComposeTarget, session: Option<&Session>, width: usize) -> (title:
    (bool, String))
    ensures
        ({
            let shown = match session {
                Some(session) => Some(session@),
                None => None,
            };
            &&& title.0 == title_has_lamp(target, shown)
            &&& title.1@ == truncated(
                title_label(target, shown),
                title_room(title.0, width as int),
            )
        }),
{
    let working = target == ComposeTarget::Reply && match session {
        Some(session) => session.status == SessionStatus::Working,
        None => false,
    };
    let label = match target {
        ComposeTarget::NewTask => "New task".to_owned(),
        ComposeTarget::Reply => match session {
            Some(session) => session.title.clone(),
            None => "No session selected".to_owned(),
        },
        ComposeTarget::Rename => match session {
            Some(session) => concat_text("Rename: ", session.title.as_str()),
            None => "Rename".to_owned(),
        },
    };
    let lamp_width: usize = if working {
        text_width("● ")
    } else {
        0
    };
    let room: usize = width.saturating_sub(2).saturating_sub(lamp_width);
    (working, truncate_display(label.as_str(), room))
}

} // verus!
