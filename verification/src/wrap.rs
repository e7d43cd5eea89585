//! Wrapping styled lines to a width.

use vstd::prelude::*;

use crate::segmentation::{
    cluster_width, columns_of, display_width, grapheme_clusters, graphemes, text_width, word_bounds,
    word_pieces,
};
use crate::style::Style;
use crate::styled::{add_text, line_width, SpanView, StyledLine, StyledSpan};
use crate::text::{copy_option, is_blank, text_is_blank, texts};
use crate::views::{group_views, views};

verus! {

broadcast use group_views;

/// Lines that are finished, and the one that is being filled.
#[verifier::ext_equal]
pub struct Wrapped {
    pub done: Seq<Seq<SpanView>>,
    pub current: Seq<SpanView>,
}

impl Wrapped {
    /// The line that is being filled is finished.
    pub open spec fn broken(self) -> Wrapped {
        Wrapped { done: self.done.push(self.current), current: seq![] }
    }

    /// A text put into the line that is being filled.
    pub open spec fn with(self, text: Seq<char>, style: Style, link: Option<Seq<char>>) -> Wrapped {
        Wrapped { current: add_text(self.current, text, style, link), ..self }
    }

    /// Whether the line that is being filled has no room for more columns.
    pub open spec fn full(self, columns: nat, width: nat) -> bool {
        line_width(self.current) > 0 && line_width(self.current) + columns > width
    }
}

/// The first `count` clusters of a word that is too long for a line, each on the
/// current line or, where it does not fit, on the next one.
pub open spec fn wrap_clusters(
    wrapped: Wrapped,
    clusters: Seq<Seq<char>>,
    count: int,
    span: SpanView,
    width: nat,
) -> Wrapped
    decreases count,
{
    if count <= 0 {
        wrapped
    } else {
        let before = wrap_clusters(wrapped, clusters, count - 1, span, width);
        let cluster = clusters[count - 1];
        let placed = if before.full(cluster_width(cluster), width) {
            before.broken()
        } else {
            before
        };
        placed.with(cluster, span.style, span.link)
    }
}

/// A piece between word boundaries. One without width is dropped, and so is white
/// space at the start of a line or where the line breaks.
pub open spec fn wrap_piece(wrapped: Wrapped, piece: Seq<char>, span: SpanView, width: nat) -> Wrapped {
    let columns = display_width(piece);
    if columns == 0 || (is_blank(piece) && wrapped.current.len() == 0) {
        wrapped
    } else if columns > width {
        let clusters = grapheme_clusters(piece);
        wrap_clusters(wrapped, clusters, clusters.len() as int, span, width)
    } else if wrapped.full(columns, width) {
        if is_blank(piece) {
            wrapped.broken()
        } else {
            wrapped.broken().with(piece, span.style, span.link)
        }
    } else {
        wrapped.with(piece, span.style, span.link)
    }
}

/// The first `count` pieces of a span.
pub open spec fn wrap_pieces(
    wrapped: Wrapped,
    pieces: Seq<Seq<char>>,
    count: int,
    span: SpanView,
    width: nat,
) -> Wrapped
    decreases count,
{
    if count <= 0 {
        wrapped
    } else {
        wrap_piece(
            wrap_pieces(wrapped, pieces, count - 1, span, width),
            pieces[count - 1],
            span,
            width,
        )
    }
}

/// The spans of a line.
pub open spec fn wrap_spans(wrapped: Wrapped, spans: Seq<SpanView>, width: nat) -> Wrapped
    decreases spans.len(),
{
    if spans.len() == 0 {
        wrapped
    } else {
        let pieces = word_pieces(spans.last().text);
        wrap_pieces(
            wrap_spans(wrapped, spans.drop_last(), width),
            pieces,
            pieces.len() as int,
            spans.last(),
            width,
        )
    }
}

/// The lines that one line wraps to; an empty one stays.
pub open spec fn wrap_line(line: Seq<SpanView>, width: nat) -> Seq<Seq<SpanView>> {
    if line.len() == 0 {
        seq![line]
    } else {
        wrap_spans(Wrapped { done: seq![], current: seq![] }, line, width).broken().done
    }
}

/// The lines that some lines wrap to.
pub open spec fn wrap_all(lines: Seq<Seq<SpanView>>, width: nat) -> Seq<Seq<SpanView>>
    decreases lines.len(),
{
    if lines.len() == 0 {
        seq![]
    } else {
        wrap_all(lines.drop_last(), width) + wrap_line(lines.last(), width)
    }
}

/// Wrapping loses no line: each one yields at least one.
pub proof fn law_wrapping_keeps_every_line(lines: Seq<Seq<SpanView>>, width: nat)
    ensures
        wrap_all(lines, width).len() >= lines.len(),
    decreases lines.len(),
{
    if lines.len() > 0 {
        law_wrapping_keeps_every_line(lines.drop_last(), width);
    }
}

/// Whether a text is a grapheme cluster of some word.
pub open spec fn is_cluster(text: Seq<char>) -> bool {
    exists|word: Seq<char>, i: int|
        0 <= i < grapheme_clusters(word).len() && #[trigger] grapheme_clusters(word)[i] == text
}

/// A line made of parts, one after the other.
pub open spec fn line_of(parts: Seq<SpanView>) -> Seq<SpanView>
    decreases parts.len(),
{
    if parts.len() == 0 {
        seq![]
    } else {
        add_text(
            line_of(parts.drop_last()),
            parts.last().text,
            parts.last().style,
            parts.last().link,
        )
    }
}

/// Whether there is room for a text behind a line: its columns and those of the line
/// are at most the width, or no column is taken yet and the text is one cluster.
pub open spec fn has_room(line: Seq<SpanView>, text: Seq<char>, width: nat) -> bool {
    ||| line_width(line) + display_width(text) <= width
    ||| line_width(line) == 0 && is_cluster(text)
}

/// Whether there was room for each of the parts behind those before it.
pub open spec fn parts_fit(parts: Seq<SpanView>, width: nat) -> bool {
    forall|k: int|
        0 <= k < parts.len() ==> has_room(
            line_of(parts.take(k)),
            (#[trigger] parts[k]).text,
            width,
        )
}

/// Whether a line is made of parts that each found room on it.
pub open spec fn fits(line: Seq<SpanView>, width: nat) -> bool {
    exists|parts: Seq<SpanView>| #[trigger] parts_fit(parts, width) && line_of(parts) == line
}

/// Whether every line fits.
pub open spec fn all_fit(lines: Seq<Seq<SpanView>>, width: nat) -> bool {
    forall|i: int| 0 <= i < lines.len() ==> fits(#[trigger] lines[i], width)
}

proof fn lemma_empty_fits(width: nat)
    ensures
        fits(seq![], width),
{
    let none = Seq::<SpanView>::empty();
    assert(parts_fit(none, width));
    assert(line_of(none) == none);
}

proof fn lemma_grown_fits(
    line: Seq<SpanView>,
    text: Seq<char>,
    style: Style,
    link: Option<Seq<char>>,
    width: nat,
)
    requires
        fits(line, width),
        has_room(line, text, width),
    ensures
        fits(add_text(line, text, style, link), width),
{
    let parts = choose|parts: Seq<SpanView>| #[trigger]
        parts_fit(parts, width) && line_of(parts) == line;
    let more = parts.push(SpanView { text, style, link });
    assert(more.drop_last() =~= parts);
    assert forall|k: int| 0 <= k < more.len() implies has_room(
        line_of(more.take(k)),
        (#[trigger] more[k]).text,
        width,
    ) by {
        assert(more.take(k) =~= parts.take(k));
        if k < parts.len() {
            assert(more[k] == parts[k]);
        } else {
            assert(parts.take(k) =~= parts);
        }
    }
    assert(parts_fit(more, width));
}

impl Wrapped {
    /// Every line fits, also the one that is being filled.
    pub open spec fn fit(self, width: nat) -> bool {
        all_fit(self.done, width) && fits(self.current, width)
    }
}

proof fn lemma_broken_fits(wrapped: Wrapped, width: nat)
    requires
        wrapped.fit(width),
    ensures
        wrapped.broken().fit(width),
{
    lemma_empty_fits(width);
}

proof fn lemma_clusters_fit(
    wrapped: Wrapped,
    word: Seq<char>,
    count: int,
    span: SpanView,
    width: nat,
)
    requires
        wrapped.fit(width),
        count <= grapheme_clusters(word).len(),
    ensures
        wrap_clusters(wrapped, grapheme_clusters(word), count, span, width).fit(width),
    decreases count,
{
    if count > 0 {
        let clusters = grapheme_clusters(word);
        lemma_clusters_fit(wrapped, word, count - 1, span, width);
        let before = wrap_clusters(wrapped, clusters, count - 1, span, width);
        let cluster = clusters[count - 1];
        assert(is_cluster(cluster));
        lemma_broken_fits(before, width);
        let placed = if before.full(cluster_width(cluster), width) {
            before.broken()
        } else {
            before
        };
        lemma_grown_fits(placed.current, cluster, span.style, span.link, width);
    }
}

proof fn lemma_piece_fits(wrapped: Wrapped, piece: Seq<char>, span: SpanView, width: nat)
    requires
        wrapped.fit(width),
    ensures
        wrap_piece(wrapped, piece, span, width).fit(width),
{
    let clusters = grapheme_clusters(piece);
    lemma_clusters_fit(wrapped, piece, clusters.len() as int, span, width);
    lemma_broken_fits(wrapped, width);
    if display_width(piece) <= width {
        lemma_grown_fits(wrapped.broken().current, piece, span.style, span.link, width);
        if !wrapped.full(display_width(piece), width) {
            lemma_grown_fits(wrapped.current, piece, span.style, span.link, width);
        }
    }
}

proof fn lemma_pieces_fit(
    wrapped: Wrapped,
    pieces: Seq<Seq<char>>,
    count: int,
    span: SpanView,
    width: nat,
)
    requires
        wrapped.fit(width),
    ensures
        wrap_pieces(wrapped, pieces, count, span, width).fit(width),
    decreases count,
{
    if count > 0 {
        lemma_pieces_fit(wrapped, pieces, count - 1, span, width);
        lemma_piece_fits(
            wrap_pieces(wrapped, pieces, count - 1, span, width),
            pieces[count - 1],
            span,
            width,
        );
    }
}

proof fn lemma_spans_fit(wrapped: Wrapped, spans: Seq<SpanView>, width: nat)
    requires
        wrapped.fit(width),
    ensures
        wrap_spans(wrapped, spans, width).fit(width),
    decreases spans.len(),
{
    if spans.len() > 0 {
        lemma_spans_fit(wrapped, spans.drop_last(), width);
        let pieces = word_pieces(spans.last().text);
        lemma_pieces_fit(
            wrap_spans(wrapped, spans.drop_last(), width),
            pieces,
            pieces.len() as int,
            spans.last(),
            width,
        );
    }
}

/// Wrapped lines fit the width, by their columns as they are counted: every part of a
/// line was put where its columns and those of the line before it are at most the
/// width. Only a single cluster that is wider than the width goes beyond it, and it
/// is put where no column was taken.
pub proof fn law_wrapped_lines_fit_the_width(lines: Seq<Seq<SpanView>>, width: nat)
    ensures
        all_fit(wrap_all(lines, width), width),
    decreases lines.len(),
{
    if lines.len() > 0 {
        law_wrapped_lines_fit_the_width(lines.drop_last(), width);
        let line = lines.last();
        lemma_empty_fits(width);
        if line.len() == 0 {
            assert(line =~= seq![]);
        } else {
            let start = Wrapped { done: seq![], current: seq![] };
            lemma_spans_fit(start, line, width);
            lemma_broken_fits(wrap_spans(start, line, width), width);
        }
    }
}

/// Lines under construction.
struct Wrapper {
    done: Vec<StyledLine>,
    current: StyledLine,
}

impl View for Wrapper {
    type V = Wrapped;

    closed spec fn view(&self) -> Wrapped {
        Wrapped { done: views(self.done@), current: self.current@ }
    }
}

impl Wrapper {
    fn break_line(&mut self)
        ensures
            final(self)@ == old(self)@.broken(),
    {
        let mut line = StyledLine::default();
        std::mem::swap(&mut line, &mut self.current);
        self.done.push(line);
    }

    fn is_full(&self, columns: usize, width: usize) -> (full: bool)
        ensures
            full == self@.full(columns as nat, width as nat),
    {
        let taken: usize = self.current.width();
        taken > 0 && taken as u128 + columns as u128 > width as u128
    }

    fn put(&mut self, text: &str, span: &StyledSpan)
        ensures
            final(self)@ == old(self)@.with(text@, span@.style, span@.link),
    {
        self.current.push(text.to_owned(), span.style, copy_option(&span.link));
    }

    fn add_piece(&mut self, piece: &str, span: &StyledSpan, width: usize)
        ensures
            final(self)@ == wrap_piece(old(self)@, piece@, span@, width as nat),
    {
        let columns: usize = text_width(piece);
        if columns == 0 {
            return;
        }
        let blank = text_is_blank(piece);
        if blank && self.current.spans.len() == 0 {
            return;
        }
        if columns <= width {
            if self.is_full(columns, width) {
                self.break_line();
                if blank {
                    return;
                }
            }
            self.put(piece, span);
            return;
        }
        let clusters = graphemes(piece);
        let ghost parts = texts(clusters@);
        let ghost before = self@;
        let mut i: usize = 0;
        while i < clusters.len()
            invariant
                i <= clusters.len(),
                parts == texts(clusters@),
                self@ == wrap_clusters(before, parts, i as int, span@, width as nat),
            decreases clusters.len() - i,
        {
            let cluster = clusters[i].as_str();
            assert(parts[i as int] == cluster@);
            if self.is_full(columns_of(cluster), width) {
                self.break_line();
            }
            self.put(cluster, span);
            i += 1;
        }
    }

    fn add_span(&mut self, span: &StyledSpan, width: usize)
        ensures
            final(self)@ == wrap_pieces(
                old(self)@,
                word_pieces(span@.text),
                word_pieces(span@.text).len() as int,
                span@,
                width as nat,
            ),
    {
        let pieces = word_bounds(span.text.as_str());
        let ghost parts = texts(pieces@);
        let ghost before = self@;
        let mut i: usize = 0;
        while i < pieces.len()
            invariant
                i <= pieces.len(),
                parts == texts(pieces@),
                self@ == wrap_pieces(before, parts, i as int, span@, width as nat),
            decreases pieces.len() - i,
        {
            assert(parts[i as int] == pieces@[i as int]@);
            self.add_piece(pieces[i].as_str(), span, width);
            i += 1;
        }
    }
}

/// Wraps one line, behind the lines that are there.
fn wrap_one(output: &mut Vec<StyledLine>, line: &StyledLine, width: usize)
    ensures
        views(final(output)@) == views(old(output)@) + wrap_line(line@, width as nat),
{
    let ghost before = views(output@);
    if line.spans.len() == 0 {
        output.push(line.clone());
        assert(views(output@) =~= before + seq![line@]);
        return;
    }
    let mut wrapper = Wrapper { done: Vec::new(), current: StyledLine::default() };
    let ghost start = wrapper@;
    let mut i: usize = 0;
    assert(line@.take(0) =~= seq![]);
    while i < line.spans.len()
        invariant
            i <= line.spans.len(),
            wrapper@ == wrap_spans(start, line@.take(i as int), width as nat),
        decreases line.spans.len() - i,
    {
        proof {
            assert(line@.take(i + 1).drop_last() =~= line@.take(i as int));
            assert(line@.take(i + 1).last() == line.spans@[i as int]@);
        }
        wrapper.add_span(&line.spans[i], width);
        i += 1;
    }
    assert(line@.take(line@.len() as int) =~= line@);
    wrapper.break_line();
    output.append(&mut wrapper.done);
}

/// Wraps lines to a width.
pub fn wrap_lines(lines: &Vec<StyledLine>, width: usize) -> (output: Vec<StyledLine>)
    ensures
        views(output@) == wrap_all(views(lines@), width as nat),
{
    let mut output: Vec<StyledLine> = Vec::new();
    let ghost all = views(lines@);
    let mut i: usize = 0;
    assert(all.take(0) =~= seq![]);
    while i < lines.len()
        invariant
            i <= lines.len(),
            all == views(lines@),
            views(output@) == wrap_all(all.take(i as int), width as nat),
        decreases lines.len() - i,
    {
        proof {
            assert(all.take(i + 1).drop_last() =~= all.take(i as int));
            assert(all.take(i + 1).last() == lines@[i as int]@);
        }
        wrap_one(&mut output, &lines[i], width);
        i += 1;
    }
    assert(all.take(all.len() as int) =~= all);
    output
}

} // verus!
