//! Selecting rendered text in the preview with the mouse.

use vstd::prelude::*;

use crate::labels::max_int;
use crate::segmentation::{cluster_width, columns_of, grapheme_clusters, graphemes};
use crate::style::Rect;
use crate::text::{
    byte_len, concat, join, join_texts, lemma_byte_len_bounds, lemma_byte_len_concat,
    lemma_concat_split, option_text, same_text, text_is_empty, text_len, texts,
};

verus! {

/// A cell of the preview, counted from its top left.
#[derive(Debug, Clone, Copy, PartialEq, Eq, Structural)]
pub struct SelectionPoint {
    pub row: usize,
    pub column: usize,
}

/// A selection that is being dragged.
#[derive(Debug, Clone, Copy, PartialEq, Eq, Structural)]
pub struct DragState {
    pub anchor: SelectionPoint,
    pub head: SelectionPoint,
    pub moved: bool,
}

/// The visible lines of the preview and what is selected in them.
#[derive(Debug)]
pub struct PreviewSelection {
    pub area: Rect,
    pub lines: Vec<String>,
    pub drag: Option<DragState>,
    pub selection: Option<(SelectionPoint, SelectionPoint)>,
}

/// The mathematical form of the selection.
#[verifier::ext_equal]
pub struct SelectionView {
    pub area: Rect,
    pub lines: Seq<Seq<char>>,
    pub drag: Option<DragState>,
    pub selection: Option<(SelectionPoint, SelectionPoint)>,
}

impl View for PreviewSelection {
    type V = SelectionView;

    open spec fn view(&self) -> SelectionView {
        SelectionView {
            area: self.area,
            lines: texts(self.lines@),
            drag: self.drag,
            selection: self.selection,
        }
    }
}

/// Lines cut off or filled up with empty ones to a number.
pub open spec fn fitted(lines: Seq<Seq<char>>, height: nat) -> Seq<Seq<char>> {
    Seq::new(
        height,
        |i: int|
            if i < lines.len() {
                lines[i]
            } else {
                seq![]
            },
    )
}

/// The columns that the first `count` clusters take.
pub open spec fn columns_before(clusters: Seq<Seq<char>>, count: int) -> int
    decreases count,
{
    if count <= 0 {
        0
    } else {
        columns_before(clusters, count - 1) + cluster_width(clusters[count - 1])
    }
}

/// The columns that a line takes.
pub open spec fn shown_width(line: Seq<char>) -> int {
    columns_before(grapheme_clusters(line), grapheme_clusters(line).len() as int)
}

/// The number of the cluster, from one on, that covers a column; the number of
/// clusters where none does.
pub open spec fn cluster_at(clusters: Seq<Seq<char>>, column: int, from: int) -> int
    decreases clusters.len() - from,
{
    if from < 0 || from >= clusters.len() {
        clusters.len() as int
    } else if column < columns_before(clusters, from + 1) {
        from
    } else {
        cluster_at(clusters, column, from + 1)
    }
}

/// Where the cluster that covers a column starts, or the end of the line.
pub open spec fn start_column(line: Seq<char>, column: int) -> int {
    let clusters = grapheme_clusters(line);
    columns_before(clusters, cluster_at(clusters, column, 0))
}

/// Where the cluster that covers a column ends, or the end of the line.
pub open spec fn end_column(line: Seq<char>, column: int) -> int {
    let clusters = grapheme_clusters(line);
    let index = cluster_at(clusters, column, 0);
    columns_before(
        clusters,
        if index < clusters.len() {
            index + 1
        } else {
            index
        },
    )
}

/// The first `count` clusters that reach into a range of columns.
pub open spec fn clusters_between(clusters: Seq<Seq<char>>, start: int, end: int, count: int) -> Seq<
    char,
>
    decreases count,
{
    if count <= 0 {
        seq![]
    } else {
        let before = clusters_between(clusters, start, end, count - 1);
        if columns_before(clusters, count - 1) < end && columns_before(clusters, count) > start {
            before + clusters[count - 1]
        } else {
            before
        }
    }
}

/// The text of a line in a range of columns, by whole clusters.
pub open spec fn text_between(line: Seq<char>, start: int, end: int) -> Seq<char> {
    let clusters = grapheme_clusters(line);
    clusters_between(clusters, start, end, clusters.len() as int)
}

/// Whether a point is not behind another in reading order.
pub open spec fn not_after(a: SelectionPoint, b: SelectionPoint) -> bool {
    a.row < b.row || (a.row == b.row && a.column <= b.column)
}

/// Two points in reading order.
pub open spec fn in_order(points: (SelectionPoint, SelectionPoint)) -> (
    SelectionPoint,
    SelectionPoint,
) {
    if not_after(points.0, points.1) {
        points
    } else {
        (points.1, points.0)
    }
}

impl SelectionView {
    /// Nothing is selected or dragged.
    pub open spec fn cleared(self) -> SelectionView {
        SelectionView { drag: None, selection: None, ..self }
    }

    /// The preview is hidden, and nothing of it is selected.
    pub open spec fn hidden(self) -> SelectionView {
        SelectionView { area: Rect::none(), lines: seq![], drag: None, selection: None }
    }

    /// The selection on new lines. A finished one is dropped where the lines or
    /// their place changed.
    pub open spec fn on_surface(self, area: Rect, lines: Seq<Seq<char>>) -> SelectionView {
        let shown = fitted(lines, area.height as nat);
        SelectionView {
            area,
            lines: shown,
            selection: if self.drag is None && (self.area != area || self.lines != shown) {
                None
            } else {
                self.selection
            },
            ..self
        }
    }

    /// The point of the preview at a place of the screen.
    pub open spec fn point_at(self, column: int, row: int) -> Option<SelectionPoint> {
        if self.area.width == 0 || self.area.height == 0 || column < self.area.x || column
            >= self.area.end_column() || row < self.area.y || row >= self.area.end_row() {
            None
        } else {
            Some(
                SelectionPoint {
                    row: (row - self.area.y) as usize,
                    column: (column - self.area.x) as usize,
                },
            )
        }
    }

    /// The point of the preview nearest to a place of the screen.
    pub open spec fn nearest_point(self, column: int, row: int) -> Option<SelectionPoint> {
        self.point_at(
            clamped(column, self.area.x as int, max_int(self.area.end_column() - 1, 0)),
            clamped(row, self.area.y as int, max_int(self.area.end_row() - 1, 0)),
        )
    }

    /// A drag begins at a place of the screen.
    pub open spec fn begun(self, column: int, row: int) -> SelectionView {
        match self.point_at(column, row) {
            Some(point) => SelectionView {
                selection: None,
                drag: Some(DragState { anchor: point, head: point, moved: false }),
                ..self
            },
            None => self,
        }
    }

    /// A drag goes on to a place of the screen.
    pub open spec fn dragged(self, column: int, row: int) -> SelectionView {
        match self.drag {
            Some(drag) => match self.nearest_point(column, row) {
                Some(point) => {
                    let moved = drag.moved || point != drag.anchor;
                    SelectionView {
                        drag: Some(DragState { head: point, moved, ..drag }),
                        selection: if moved {
                            Some((drag.anchor, point))
                        } else {
                            None
                        },
                        ..self
                    }
                },
                None => self,
            },
            None => self,
        }
    }

    /// The line in a row of the preview.
    pub open spec fn line(self, row: int) -> Seq<char> {
        if 0 <= row < self.lines.len() {
            self.lines[row]
        } else {
            seq![]
        }
    }

    /// The selected columns of a row, from the first cluster that is touched to
    /// the last one.
    pub open spec fn row_range(self, row: int) -> Option<(int, int)> {
        match self.selection {
            Some(points) => {
                let (first, last) = in_order(points);
                if row < first.row || row > last.row {
                    None
                } else {
                    let line = self.line(row);
                    let start = if row == first.row {
                        start_column(line, first.column as int)
                    } else {
                        0
                    };
                    let end = if row == last.row {
                        end_column(line, last.column as int)
                    } else {
                        shown_width(line)
                    };
                    if start < end {
                        Some((start, end))
                    } else {
                        None
                    }
                }
            },
            None => None,
        }
    }

    /// The selected text of a row.
    pub open spec fn row_text(self, row: int) -> Seq<char> {
        match self.row_range(row) {
            Some((start, end)) => text_between(self.line(row), start, end),
            None => seq![],
        }
    }

    /// The selected text, row by row.
    pub open spec fn selected_text(self) -> Seq<char> {
        match self.selection {
            Some(points) => {
                let (first, last) = in_order(points);
                join(
                    Seq::new(
                        (last.row - first.row + 1) as nat,
                        |i: int| self.row_text(first.row + i),
                    ),
                    "\n"@,
                )
            },
            None => seq![],
        }
    }

    /// A drag ends at a place of the screen: the selection, and the text to copy.
    pub open spec fn finished(self, column: int, row: int) -> (SelectionView, Option<Seq<char>>) {
        let dragged = self.dragged(column, row);
        match dragged.drag {
            Some(drag) => if drag.moved {
                let ended = SelectionView {
                    drag: None,
                    selection: Some((drag.anchor, drag.head)),
                    ..dragged
                };
                let text = ended.selected_text();
                if text.len() == 0 {
                    (SelectionView { selection: None, ..ended }, None)
                } else {
                    (ended, Some(text))
                }
            } else {
                (SelectionView { drag: None, selection: None, ..dragged }, None)
            },
            None => (dragged, None),
        }
    }
}

/// A number forced into a range.
pub open spec fn clamped(value: int, low: int, high: int) -> int {
    if value < low {
        low
    } else if value > high {
        high
    } else {
        value
    }
}

fn clamp_cell(value: u16, low: u16, high: u16) -> (cell: u16)
    ensures
        cell == clamped(value as int, low as int, high as int),
{
    if value < low {
        low
    } else if value > high {
        high
    } else {
        value
    }
}

/// The clusters of a line with the columns at which they end.
fn measured(line: &str) -> (measured: (Vec<String>, Vec<usize>))
    ensures
        texts(measured.0@) == grapheme_clusters(line@),
        measured.1.len() == measured.0.len(),
        forall|i: int|
            0 <= i < measured.1.len() ==> #[trigger] measured.1@[i] == columns_before(
                grapheme_clusters(line@),
                i + 1,
            ),
{
    let clusters = graphemes(line);
    let ghost parts = texts(clusters@);
    let total: usize = text_len(line);
    let mut ends: Vec<usize> = Vec::new();
    let mut end: usize = 0;
    let mut i: usize = 0;
    assert(parts.take(0) =~= seq![]);
    while i < clusters.len()
        invariant
            i <= clusters.len(),
            parts == texts(clusters@),
            concat(parts) == line@,
            total == byte_len(line@),
            forall|j: int| 0 <= j < clusters.len() ==> (#[trigger] clusters@[j])@.len() > 0,
            end == columns_before(parts, i as int),
            end <= byte_len(concat(parts.take(i as int))),
            ends.len() == i,
            forall|j: int|
                0 <= j < i ==> #[trigger] ends@[j] == columns_before(parts, j + 1),
        decreases clusters.len() - i,
    {
        let cluster = clusters[i].as_str();
        let columns: usize = columns_of(cluster);
        proof {
            assert(parts[i as int] == cluster@);
            assert(clusters@[i as int]@.len() > 0);
            lemma_byte_len_bounds(cluster@);
            assert(parts.take(i + 1).drop_last() =~= parts.take(i as int));
            lemma_byte_len_concat(concat(parts.take(i as int)), cluster@);
            lemma_concat_split(parts, i + 1);
        }
        end = end + columns;
        ends.push(end);
        i += 1;
    }
    (clusters, ends)
}

/// The columns that a line takes.
fn line_columns(line: &str) -> (width: usize)
    ensures
        width == shown_width(line@),
{
    let (clusters, ends) = measured(line);
    if ends.len() == 0 {
        0
    } else {
        ends[ends.len() - 1]
    }
}

proof fn lemma_cluster_at(clusters: Seq<Seq<char>>, column: int, from: int, found: int)
    requires
        0 <= from <= found < clusters.len(),
        forall|i: int| from <= i < found ==> column >= #[trigger] columns_before(clusters, i + 1),
        column < columns_before(clusters, found + 1),
    ensures
        cluster_at(clusters, column, from) == found,
    decreases found - from,
{
    if from < found {
        assert(column >= columns_before(clusters, from + 1));
        lemma_cluster_at(clusters, column, from + 1, found);
    }
}

proof fn lemma_no_cluster_at(clusters: Seq<Seq<char>>, column: int, from: int)
    requires
        0 <= from <= clusters.len(),
        forall|i: int|
            from <= i < clusters.len() ==> column >= #[trigger] columns_before(clusters, i + 1),
    ensures
        cluster_at(clusters, column, from) == clusters.len(),
    decreases clusters.len() - from,
{
    if from < clusters.len() {
        assert(column >= columns_before(clusters, from + 1));
        lemma_no_cluster_at(clusters, column, from + 1);
    }
}

/// Finds the cluster that covers a column.
fn find_cluster(line: &str, column: usize) -> (found: (Vec<usize>, usize))
    ensures
        found.0.len() == grapheme_clusters(line@).len(),
        forall|i: int|
            0 <= i < found.0.len() ==> #[trigger] found.0@[i] == columns_before(
                grapheme_clusters(line@),
                i + 1,
            ),
        found.1 == cluster_at(grapheme_clusters(line@), column as int, 0),
        found.1 <= found.0.len(),
{
    let (clusters, ends) = measured(line);
    let ghost parts = grapheme_clusters(line@);
    let mut i: usize = 0;
    while i < ends.len()
        invariant
            i <= ends.len() == parts.len(),
            forall|j: int|
                0 <= j < ends.len() ==> #[trigger] ends@[j] == columns_before(parts, j + 1),
            forall|j: int| 0 <= j < i ==> column >= #[trigger] columns_before(parts, j + 1),
            parts == grapheme_clusters(line@),
        decreases ends.len() - i,
    {
        assert(ends@[i as int] == columns_before(parts, i + 1));
        if column < ends[i] {
            proof {
                lemma_cluster_at(parts, column as int, 0, i as int);
            }
            return (ends, i);
        }
        i += 1;
    }
    proof {
        lemma_no_cluster_at(parts, column as int, 0);
    }
    let count: usize = ends.len();
    (ends, count)
}

fn grapheme_start(line: &str, column: usize) -> (start: usize)
    ensures
        start == start_column(line@, column as int),
{
    let (ends, index) = find_cluster(line, column);
    if index == 0 {
        0
    } else {
        ends[index - 1]
    }
}

fn grapheme_end(line: &str, column: usize) -> (end: usize)
    ensures
        end == end_column(line@, column as int),
{
    let (ends, index) = find_cluster(line, column);
    if index < ends.len() {
        ends[index]
    } else if index == 0 {
        0
    } else {
        ends[index - 1]
    }
}

fn slice_display_range(line: &str, start: usize, end: usize) -> (text: String)
    ensures
        text@ == text_between(line@, start as int, end as int),
{
    let (clusters, ends) = measured(line);
    let ghost parts = texts(clusters@);
    let mut text = String::new();
    let mut offset: usize = 0;
    let mut i: usize = 0;
    while i < clusters.len()
        invariant
            i <= clusters.len() == ends.len(),
            parts == texts(clusters@),
            forall|j: int|
                0 <= j < ends.len() ==> #[trigger] ends@[j] == columns_before(parts, j + 1),
            offset == columns_before(parts, i as int),
            text@ == clusters_between(parts, start as int, end as int, i as int),
        decreases clusters.len() - i,
    {
        assert(ends@[i as int] == columns_before(parts, i + 1));
        assert(parts[i as int] == clusters@[i as int]@);
        if offset < end && ends[i] > start {
            text.append(clusters[i].as_str());
        }
        offset = ends[i];
        i += 1;
    }
    text
}

impl Default for PreviewSelection {
    fn default() -> (selection: PreviewSelection)
        ensures
            selection@ == (SelectionView {
                area: Rect::none(),
                lines: seq![],
                drag: None,
                selection: None,
            }),
    {
        let selection = PreviewSelection {
            area: Rect::default(),
            lines: Vec::new(),
            drag: None,
            selection: None,
        };
        assert(selection@.lines =~= seq![]);
        selection
    }
}

/// Whether two lists of texts are the same.
fn same_lines(a: &Vec<String>, b: &Vec<String>) -> (same: bool)
    ensures
        same == (texts(a@) == texts(b@)),
{
    if a.len() != b.len() {
        assert(texts(a@).len() != texts(b@).len());
        return false;
    }
    let mut i: usize = 0;
    while i < a.len()
        invariant
            i <= a.len() == b.len(),
            forall|j: int| 0 <= j < i ==> (#[trigger] a@[j])@ == b@[j]@,
        decreases a.len() - i,
    {
        if !same_text(a[i].as_str(), b[i].as_str()) {
            assert(texts(a@)[i as int] != texts(b@)[i as int]);
            return false;
        }
        i += 1;
    }
    assert(texts(a@) =~= texts(b@));
    true
}

fn fit_lines(lines: &Vec<String>, height: usize) -> (shown: Vec<String>)
    ensures
        texts(shown@) == fitted(texts(lines@), height as nat),
{
    let mut shown: Vec<String> = Vec::new();
    let mut i: usize = 0;
    while i < height
        invariant
            i <= height,
            shown.len() == i,
            forall|j: int|
                0 <= j < i ==> (#[trigger] shown@[j])@ == fitted(texts(lines@), height as nat)[j],
        decreases height - i,
    {
        if i < lines.len() {
            shown.push(lines[i].clone());
        } else {
            let empty = String::new();
            assert(empty@ =~= seq![]);
            shown.push(empty);
        }
        i += 1;
    }
    assert(texts(shown@) =~= fitted(texts(lines@), height as nat));
    shown
}

impl PreviewSelection {
    /// Takes the lines that the preview shows now.
    pub fn update_surface(&mut self, area: Rect, lines: &Vec<String>)
        ensures
            final(self)@ == old(self)@.on_surface(area, texts(lines@)),
    {
        let shown = fit_lines(lines, area.height as usize);
        if self.drag.is_none() && (self.area != area || !same_lines(&self.lines, &shown)) {
            self.selection = None;
        }
        self.area = area;
        self.lines = shown;
    }

    /// Forgets the lines, when the preview is hidden.
    pub fn clear_surface(&mut self)
        ensures
            final(self)@ == old(self)@.hidden(),
    {
        self.area = Rect::default();
        self.lines = Vec::new();
        assert(texts(self.lines@) =~= seq![]);
        self.clear();
    }

    /// Begins a drag. Tells whether the place is in the preview.
    pub fn begin(&mut self, column: u16, row: u16) -> (begun: bool)
        ensures
            begun == (old(self)@.point_at(column as int, row as int) is Some),
            final(self)@ == old(self)@.begun(column as int, row as int),
    {
        match self.point_inside(column, row) {
            Some(point) => {
                self.selection = None;
                self.drag = Some(DragState { anchor: point, head: point, moved: false });
                true
            },
            None => false,
        }
    }

    /// Goes on with a drag. Tells whether there is one.
    pub fn update(&mut self, column: u16, row: u16) -> (updated: bool)
        ensures
            updated == (old(self)@.drag is Some && old(self)@.nearest_point(
                column as int,
                row as int,
            ) is Some),
            final(self)@ == old(self)@.dragged(column as int, row as int),
    {
        match self.drag {
            Some(drag) => match self.point_clamped(column, row) {
                Some(point) => {
                    let moved = drag.moved || point != drag.anchor;
                    self.drag = Some(DragState { anchor: drag.anchor, head: point, moved });
                    self.selection = if moved {
                        Some((drag.anchor, point))
                    } else {
                        None
                    };
                    true
                },
                None => false,
            },
            None => false,
        }
    }

    /// Ends a drag. The text to copy, where some is selected.
    pub fn finish(&mut self, column: u16, row: u16) -> (text: Option<String>)
        ensures
            (final(self)@, option_text(text)) == old(self)@.finished(column as int, row as int),
    {
        self.update(column, row);
        match self.drag {
            Some(drag) => {
                self.drag = None;
                if !drag.moved {
                    self.selection = None;
                    return None;
                }
                self.selection = Some((drag.anchor, drag.head));
                let text = self.selected_text();
                if text_is_empty(text.as_str()) {
                    self.selection = None;
                    None
                } else {
                    Some(text)
                }
            },
            None => None,
        }
    }

    /// Drops the selection.
    pub fn clear(&mut self)
        ensures
            final(self)@ == old(self)@.cleared(),
    {
        self.drag = None;
        self.selection = None;
    }

    /// The selected columns of a row.
    pub fn range_for_row(&self, row: usize) -> (range: Option<(usize, usize)>)
        ensures
            match range {
                Some((start, end)) => self@.row_range(row as int) == Some(
                    (start as int, end as int),
                ),
                None => self@.row_range(row as int) is None,
            },
    {
        match self.ordered_selection() {
            Some((first, last)) => {
                if row < first.row || row > last.row {
                    return None;
                }
                let line = self.line_text(row);
                let line = line.as_str();
                let start: usize = if row == first.row {
                    grapheme_start(line, first.column)
                } else {
                    0
                };
                let end: usize = if row == last.row {
                    grapheme_end(line, last.column)
                } else {
                    line_columns(line)
                };
                if start < end {
                    Some((start, end))
                } else {
                    None
                }
            },
            None => None,
        }
    }

    fn line_text(&self, row: usize) -> (line: String)
        ensures
            line@ == self@.line(row as int),
    {
        if row < self.lines.len() {
            self.lines[row].clone()
        } else {
            let empty = String::new();
            assert(empty@ =~= seq![]);
            empty
        }
    }

    fn selected_text(&self) -> (text: String)
        ensures
            text@ == self@.selected_text(),
    {
        match self.ordered_selection() {
            Some((first, last)) => {
                let count: usize = last.row - first.row;
                let mut rows: Vec<String> = Vec::new();
                let mut i: usize = 0;
                let mut more = true;
                while more
                    invariant
                        i <= count,
                        count == last.row - first.row,
                        rows.len() == (if more {
                            i as int
                        } else {
                            count + 1
                        }),
                        forall|j: int|
                            0 <= j < rows.len() ==> (#[trigger] rows@[j])@ == self@.row_text(
                                first.row + j,
                            ),
                    decreases (if more {
                        count - i + 1
                    } else {
                        0
                    }),
                {
                    let row: usize = first.row + i;
                    let text = match self.range_for_row(row) {
                        Some((start, end)) => slice_display_range(
                            self.line_text(row).as_str(),
                            start,
                            end,
                        ),
                        None => {
                            let empty = String::new();
                            assert(empty@ =~= seq![]);
                            empty
                        },
                    };
                    rows.push(text);
                    if i == count {
                        more = false;
                    } else {
                        i += 1;
                    }
                }
                assert(texts(rows@) =~= Seq::new(
                    (last.row - first.row + 1) as nat,
                    |i: int| self@.row_text(first.row + i),
                ));
                join_texts(&rows, "\n")
            },
            None => {
                let empty = String::new();
                assert(empty@ =~= seq![]);
                empty
            },
        }
    }

    fn ordered_selection(&self) -> (points: Option<(SelectionPoint, SelectionPoint)>)
        ensures
            match points {
                Some(points) => self@.selection is Some && points == in_order(self@.selection->0)
                    && points.0.row <= points.1.row,
                None => self@.selection is None,
            },
    {
        match self.selection {
            Some((anchor, head)) => {
                if anchor.row < head.row || (anchor.row == head.row && anchor.column
                    <= head.column) {
                    Some((anchor, head))
                } else {
                    Some((head, anchor))
                }
            },
            None => None,
        }
    }

    fn point_inside(&self, column: u16, row: u16) -> (point: Option<SelectionPoint>)
        ensures
            point == self@.point_at(column as int, row as int),
    {
        if self.area.is_empty() || column < self.area.x || column >= self.area.right() || row
            < self.area.y || row >= self.area.bottom() {
            return None;
        }
        Some(
            SelectionPoint {
                row: (row - self.area.y) as usize,
                column: (column - self.area.x) as usize,
            },
        )
    }

    fn point_clamped(&self, column: u16, row: u16) -> (point: Option<SelectionPoint>)
        ensures
            point == self@.nearest_point(column as int, row as int),
    {
        let column: u16 = clamp_cell(column, self.area.x, self.area.right().saturating_sub(1));
        let row: u16 = clamp_cell(row, self.area.y, self.area.bottom().saturating_sub(1));
        self.point_inside(column, row)
    }
}

/// A drag selects the same text in either direction.
pub proof fn law_drag_direction_does_not_matter(
    selection: SelectionView,
    a: SelectionPoint,
    b: SelectionPoint,
    row: int,
)
    ensures
        ({
            let forward = SelectionView { selection: Some((a, b)), ..selection };
            let backward = SelectionView { selection: Some((b, a)), ..selection };
            &&& forward.row_range(row) == backward.row_range(row)
            &&& forward.selected_text() == backward.selected_text()
        }),
{
    let forward = SelectionView { selection: Some((a, b)), ..selection };
    let backward = SelectionView { selection: Some((b, a)), ..selection };
    assert(in_order((a, b)) == in_order((b, a)));
    assert forall|row: int| forward.row_range(row) == backward.row_range(row) by {}
    assert forall|row: int| #[trigger] forward.row_text(row) == backward.row_text(row) by {}
    let (first, last) = in_order((a, b));
    assert(Seq::new((last.row - first.row + 1) as nat, |i: int| forward.row_text(first.row + i))
        =~= Seq::new((last.row - first.row + 1) as nat, |i: int| backward.row_text(first.row + i)));
}

/// A click without a drag selects nothing and copies nothing.
pub proof fn law_a_click_copies_nothing(selection: SelectionView, column: int, row: int)
    requires
        selection.point_at(column, row) is Some,
    ensures
        selection.begun(column, row).finished(column, row).1 is None,
        selection.begun(column, row).finished(column, row).0.selection is None,
{
}

/// New lines drop a finished selection, but not one that is being dragged.
pub proof fn law_new_lines_drop_only_finished_selections(
    selection: SelectionView,
    area: Rect,
    lines: Seq<Seq<char>>,
)
    ensures
        selection.drag is Some ==> selection.on_surface(area, lines).selection
            == selection.selection,
        selection.drag is None && fitted(lines, area.height as nat) != selection.lines
            ==> selection.on_surface(area, lines).selection is None,
{
}

} // verus!
