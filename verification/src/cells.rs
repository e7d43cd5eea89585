//! Cells of the screen that need more than a styled text: links, wide signs and
//! selected text.

use vstd::prelude::*;

use crate::labels::min_int;
use crate::segmentation::{
    cluster_width, columns_of, display_width, grapheme_clusters, graphemes, text_width,
};
use crate::selection::clamped;
use crate::style::{Color, Rect, screen_limit, Style};
use crate::styled::{add_text, lemma_plain_add, plain, SpanView, StyledLine, StyledSpan};
use crate::text::{begins_with, concat, concat_text, copy_option, text_begins_with, texts};
use crate::views::{group_views, views};

verus! {

broadcast use group_views;

/// A cell that holds a link: its place, what it prints, and its columns.
#[derive(Debug, PartialEq, Eq)]
pub struct LinkCell {
    pub x: u16,
    pub y: u16,
    pub symbol: String,
    pub width: u16,
}

/// The mathematical form of a link's cell.
#[verifier::ext_equal]
pub struct LinkView {
    pub x: int,
    pub y: int,
    pub symbol: Seq<char>,
    pub width: int,
}

impl View for LinkCell {
    type V = LinkView;

    open spec fn view(&self) -> LinkView {
        LinkView {
            x: self.x as int,
            y: self.y as int,
            symbol: self.symbol@,
            width: self.width as int,
        }
    }
}

/// A number of columns as a screen coordinate holds it.
pub open spec fn screen_columns(columns: nat) -> int {
    columns as int % 65536
}

/// What a cell of a link prints: the cluster, between the start and the end of the
/// link.
pub open spec fn linked(target: Seq<char>, cluster: Seq<char>) -> Seq<char> {
    "\x1b]8;;"@ + target + "\x1b\\"@ + cluster + "\x1b]8;;\x1b\\"@
}

/// The cells of a link's clusters from one of them on, and the column behind them.
/// They end before the right border.
pub open spec fn cluster_links(
    clusters: Seq<Seq<char>>,
    from: int,
    target: Seq<char>,
    x: int,
    y: int,
    right: int,
) -> (Seq<LinkView>, int)
    decreases clusters.len() - from,
{
    if from < 0 || from >= clusters.len() {
        (seq![], x)
    } else {
        let width = screen_columns(cluster_width(clusters[from]));
        let next = screen_limit(x + width);
        if next > right {
            (seq![], x)
        } else {
            let rest = cluster_links(clusters, from + 1, target, next, y, right);
            (
                seq![LinkView { x, y, symbol: linked(target, clusters[from]), width }] + rest.0,
                rest.1,
            )
        }
    }
}

/// The link cells of a span, and the column behind it.
pub open spec fn span_links(span: SpanView, x: int, y: int, right: int) -> (Seq<LinkView>, int) {
    match span.link {
        Some(target) => cluster_links(grapheme_clusters(span.text), 0, target, x, y, right),
        None => (seq![], screen_limit(x + screen_columns(display_width(span.text)))),
    }
}

/// The link cells of a line from one of its spans on.
pub open spec fn line_links(line: Seq<SpanView>, from: int, x: int, y: int, right: int) -> Seq<
    LinkView,
>
    decreases line.len() - from,
{
    if from < 0 || from >= line.len() {
        seq![]
    } else {
        let cells = span_links(line[from], x, y, right);
        if cells.1 >= right {
            cells.0
        } else {
            cells.0 + line_links(line, from + 1, cells.1, y, right)
        }
    }
}

/// The link cells of the first `count` lines in an area.
pub open spec fn area_links(lines: Seq<Seq<SpanView>>, count: int, area: Rect) -> Seq<LinkView>
    decreases count,
{
    if count <= 0 {
        seq![]
    } else {
        area_links(lines, count - 1, area) + line_links(
            lines[count - 1],
            0,
            area.x as int,
            screen_limit(area.y + count - 1),
            area.end_column(),
        )
    }
}

fn linked_symbol(target: &str, cluster: &str) -> (symbol: String)
    ensures
        symbol@ == linked(target@, cluster@),
{
    let mut symbol = concat_text("\x1b]8;;", target);
    symbol.append("\x1b\\");
    symbol.append(cluster);
    symbol.append("\x1b]8;;\x1b\\");
    symbol
}

fn push_cluster_links(
    cells: &mut Vec<LinkCell>,
    text: &str,
    target: &str,
    x: u16,
    y: u16,
    right: u16,
) -> (next: u16)
    ensures
        views(final(cells)@) == views(old(cells)@) + cluster_links(
            grapheme_clusters(text@),
            0,
            target@,
            x as int,
            y as int,
            right as int,
        ).0,
        next == cluster_links(
            grapheme_clusters(text@),
            0,
            target@,
            x as int,
            y as int,
            right as int,
        ).1,
{
    let clusters = graphemes(text);
    let ghost parts = texts(clusters@);
    let ghost before = views(cells@);
    let ghost all = cluster_links(parts, 0, target@, x as int, y as int, right as int);
    let mut column: u16 = x;
    let mut i: usize = 0;
    while i < clusters.len()
        invariant_except_break
            i <= clusters.len(),
            parts == texts(clusters@),
            views(cells@) + cluster_links(
                parts,
                i as int,
                target@,
                column as int,
                y as int,
                right as int,
            ).0 == before + all.0,
            cluster_links(
                parts,
                i as int,
                target@,
                column as int,
                y as int,
                right as int,
            ).1 == all.1,
        ensures
            views(cells@) == before + all.0,
            column == all.1,
        decreases clusters.len() - i,
    {
        let cluster = clusters[i].as_str();
        let width: u16 = (columns_of(cluster) % 65536) as u16;
        let next: u16 = column.saturating_add(width);
        assert(parts[i as int] == cluster@);
        let ghost rest = cluster_links(
            parts,
            i as int,
            target@,
            column as int,
            y as int,
            right as int,
        ).0;
        let ghost shown = views(cells@);
        if next > right {
            assert(shown + rest =~= shown);
            break;
        }
        let ghost tail = cluster_links(
            parts,
            i + 1,
            target@,
            next as int,
            y as int,
            right as int,
        ).0;
        let cell = LinkCell { x: column, y, symbol: linked_symbol(target, cluster), width };
        assert(rest =~= seq![cell@] + tail);
        cells.push(cell);
        assert(views(cells@) + tail =~= shown + rest);
        column = next;
        i += 1;
        if i == clusters.len() {
            assert(views(cells@) + tail =~= views(cells@));
        }
    }
    assert(views(cells@) =~= before + all.0);
    column
}

fn push_span_links(cells: &mut Vec<LinkCell>, span: &StyledSpan, x: u16, y: u16, right: u16) -> (next:
    u16)
    ensures
        views(final(cells)@) == views(old(cells)@) + span_links(
            span@,
            x as int,
            y as int,
            right as int,
        ).0,
        next == span_links(span@, x as int, y as int, right as int).1,
{
    match &span.link {
        Some(target) => push_cluster_links(
            cells,
            span.text.as_str(),
            target.as_str(),
            x,
            y,
            right,
        ),
        None => {
            assert(views(cells@) + Seq::<LinkView>::empty() =~= views(cells@));
            let width: u16 = (text_width(span.text.as_str()) % 65536) as u16;
            x.saturating_add(width)
        },
    }
}

fn push_line_links(cells: &mut Vec<LinkCell>, line: &StyledLine, x: u16, y: u16, right: u16)
    ensures
        views(final(cells)@) == views(old(cells)@) + line_links(
            line@,
            0,
            x as int,
            y as int,
            right as int,
        ),
{
    let ghost before = views(cells@);
    let ghost all = line_links(line@, 0, x as int, y as int, right as int);
    let mut column: u16 = x;
    let mut i: usize = 0;
    while i < line.spans.len()
        invariant_except_break
            i <= line.spans.len(),
            views(cells@) + line_links(line@, i as int, column as int, y as int, right as int)
                == before + all,
        ensures
            views(cells@) == before + all,
        decreases line.spans.len() - i,
    {
        let ghost shown = views(cells@);
        let ghost rest = line_links(line@, i as int, column as int, y as int, right as int);
        let ghost here = span_links(line@[i as int], column as int, y as int, right as int);
        let next: u16 = push_span_links(cells, &line.spans[i], column, y, right);
        assert(line@[i as int] == line.spans@[i as int]@);
        assert(views(cells@) == shown + here.0);
        if next >= right {
            assert(rest =~= here.0);
            break;
        }
        let ghost tail = line_links(line@, i + 1, next as int, y as int, right as int);
        assert(rest =~= here.0 + tail);
        assert(views(cells@) + tail =~= shown + rest);
        column = next;
        i += 1;
        if i == line.spans.len() {
            assert(views(cells@) + tail =~= views(cells@));
        }
    }
    assert(views(cells@) =~= before + all);
}

/// The cells that turn the links of some lines in an area into links of the
/// terminal.
pub fn osc8_cells(area: Rect, lines: &Vec<StyledLine>) -> (cells: Vec<LinkCell>)
    ensures
        views(cells@) == area_links(
            views(lines@),
            min_int(lines.len() as int, area.height as int),
            area,
        ),
{
    let ghost all = views(lines@);
    let mut cells: Vec<LinkCell> = Vec::new();
    let mut i: usize = 0;
    while i < lines.len() && i < area.height as usize
        invariant
            i <= lines.len(),
            i <= area.height,
            all == views(lines@),
            views(cells@) == area_links(all, i as int, area),
        decreases lines.len() - i,
    {
        assert(all[i as int] == lines@[i as int]@);
        push_line_links(
            &mut cells,
            &lines[i],
            area.x,
            area.y.saturating_add(i as u16),
            area.right(),
        );
        i += 1;
    }
    cells
}

/// The signs in the gutter that take two columns.
pub open spec fn is_wide_gutter(text: Seq<char>) -> bool {
    begins_with(text, "🎯"@) || begins_with(text, "🧠"@) || begins_with(text, "💬"@)
        || begins_with(text, "✅"@) || begins_with(text, "❓"@)
}

/// Whether a line begins with a sign that takes two columns.
pub open spec fn begins_wide(line: Seq<SpanView>) -> bool {
    line.len() > 0 && is_wide_gutter(line[0].text)
}

/// The rows among the first `count` lines that begin with a sign of two columns.
pub open spec fn wide_rows(lines: Seq<Seq<SpanView>>, count: int, area: Rect) -> Seq<(u16, u16)>
    decreases count,
{
    if count <= 0 {
        seq![]
    } else if begins_wide(lines[count - 1]) {
        wide_rows(lines, count - 1, area).push(
            (area.x, screen_limit(area.y + count - 1) as u16),
        )
    } else {
        wide_rows(lines, count - 1, area)
    }
}

fn line_begins_wide(line: &StyledLine) -> (wide: bool)
    ensures
        wide == begins_wide(line@),
{
    if line.spans.len() == 0 {
        return false;
    }
    let text = line.spans[0].text.as_str();
    assert(line@[0] == line.spans@[0]@);
    text_begins_with(text, "🎯") || text_begins_with(text, "🧠") || text_begins_with(text, "💬")
        || text_begins_with(text, "✅") || text_begins_with(text, "❓")
}

/// The cells that hold a sign of two columns, in the lines of an area.
pub fn emoji_cells(area: Rect, lines: &Vec<StyledLine>) -> (cells: Vec<(u16, u16)>)
    ensures
        cells@ == wide_rows(
            views(lines@),
            min_int(lines.len() as int, area.height as int),
            area,
        ),
{
    let ghost all = views(lines@);
    let mut cells: Vec<(u16, u16)> = Vec::new();
    let mut i: usize = 0;
    while i < lines.len() && i < area.height as usize
        invariant
            i <= lines.len(),
            i <= area.height,
            all == views(lines@),
            cells@ == wide_rows(all, i as int, area),
        decreases lines.len() - i,
    {
        assert(all[i as int] == lines@[i as int]@);
        if line_begins_wide(&lines[i]) {
            cells.push((area.x, area.y.saturating_add(i as u16)));
        }
        i += 1;
    }
    cells
}

/// A style over a background where a column is selected.
pub open spec fn shade(style: Style, column: int, start: int, end: int, background: Color) -> Style {
    if start <= column < end {
        Style { bg: Some(background), ..style }
    } else {
        style
    }
}

/// A line, and the column behind it, with the first `count` clusters of a span.
pub open spec fn shaded_clusters(
    before: (Seq<SpanView>, int),
    span: SpanView,
    count: int,
    start: int,
    end: int,
    background: Color,
) -> (Seq<SpanView>, int)
    decreases count,
{
    if count <= 0 {
        before
    } else {
        let (line, column) = shaded_clusters(before, span, count - 1, start, end, background);
        let cluster = grapheme_clusters(span.text)[count - 1];
        (
            add_text(
                line,
                cluster,
                shade(span.style, column, start, end, background),
                span.link,
            ),
            clamped(column + cluster_width(cluster), 0, usize::MAX as int),
        )
    }
}

/// The first `count` spans of a line with the selected columns shaded, and the
/// column behind them.
pub open spec fn shaded_spans(
    line: Seq<SpanView>,
    count: int,
    start: int,
    end: int,
    background: Color,
) -> (Seq<SpanView>, int)
    decreases count,
{
    if count <= 0 {
        (seq![], 0)
    } else {
        shaded_clusters(
            shaded_spans(line, count - 1, start, end, background),
            line[count - 1],
            grapheme_clusters(line[count - 1].text).len() as int,
            start,
            end,
            background,
        )
    }
}

/// A line with its selected columns shaded.
pub open spec fn with_selection(
    line: Seq<SpanView>,
    range: Option<(int, int)>,
    background: Color,
) -> Seq<SpanView> {
    match range {
        Some((start, end)) => shaded_spans(
            line,
            line.len() as int,
            start,
            end,
            background,
        ).0,
        None => line,
    }
}

fn shade_span(
    line: &mut StyledLine,
    column: usize,
    span: &StyledSpan,
    start: usize,
    end: usize,
    background: Color,
) -> (next: usize)
    ensures
        (final(line)@, next as int) == shaded_clusters(
            (old(line)@, column as int),
            span@,
            grapheme_clusters(span@.text).len() as int,
            start as int,
            end as int,
            background,
        ),
        plain(final(line)@) == plain(old(line)@) + span@.text,
{
    let clusters = graphemes(span.text.as_str());
    let ghost parts = texts(clusters@);
    let ghost from = (line@, column as int);
    let mut column: usize = column;
    let mut i: usize = 0;
    assert(parts.take(0) =~= seq![]);
    assert(plain(line@) + concat(parts.take(0)) =~= plain(line@));
    while i < clusters.len()
        invariant
            i <= clusters.len(),
            parts == texts(clusters@),
            parts == grapheme_clusters(span@.text),
            (line@, column as int) == shaded_clusters(
                from,
                span@,
                i as int,
                start as int,
                end as int,
                background,
            ),
            plain(line@) == plain(from.0) + concat(parts.take(i as int)),
        decreases clusters.len() - i,
    {
        let cluster = clusters[i].as_str();
        let style = if start <= column && column < end {
            span.style.bg(background)
        } else {
            span.style
        };
        proof {
            assert(parts[i as int] == cluster@);
            assert(parts.take(i + 1).drop_last() =~= parts.take(i as int));
            assert(parts.take(i + 1).last() == cluster@);
            lemma_plain_add(line@, cluster@, style, span@.link);
            assert(plain(from.0) + concat(parts.take(i as int)) + cluster@ =~= plain(from.0) + (
            concat(parts.take(i as int)) + cluster@));
        }
        line.push(cluster.to_owned(), style, copy_option(&span.link));
        column = column.saturating_add(columns_of(cluster));
        i += 1;
    }
    assert(parts.take(i as int) =~= parts);
    column
}

impl StyledLine {
    /// The line with its selected columns shaded. Its text stays the same.
    pub fn select(&self, range: Option<(usize, usize)>, background: Color) -> (line: StyledLine)
        ensures
            line@ == with_selection(
                self@,
                match range {
                    Some((start, end)) => Some((start as int, end as int)),
                    None => None,
                },
                background,
            ),
            plain(line@) == plain(self@),
    {
        let (start, end) = match range {
            Some(range) => range,
            None => return self.clone(),
        };
        let mut line = StyledLine::default();
        let mut column: usize = 0;
        let mut i: usize = 0;
        assert(self@.take(0) =~= seq![]);
        while i < self.spans.len()
            invariant
                i <= self.spans.len(),
                (line@, column as int) == shaded_spans(
                    self@,
                    i as int,
                    start as int,
                    end as int,
                    background,
                ),
                plain(line@) == plain(self@.take(i as int)),
            decreases self.spans.len() - i,
        {
            proof {
                assert(self@[i as int] == self.spans@[i as int]@);
                assert(self@.take(i + 1).drop_last() =~= self@.take(i as int));
                assert(self@.take(i + 1).last() == self@[i as int]);
            }
            column = shade_span(&mut line, column, &self.spans[i], start, end, background);
            i += 1;
        }
        assert(self@.take(i as int) =~= self@);
        line
    }
}

} // verus!
