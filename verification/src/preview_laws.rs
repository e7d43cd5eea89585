//! What the preview, the cursor and the menu keep to.

use vstd::prelude::*;

use crate::cells::{
    cluster_links, linked, LinkView, screen_columns, shade, shaded_clusters, shaded_spans,
    span_links,
};
use crate::composer::{
    column_distance, ComposerView, ComposeTarget, CursorStop, nearest_stop, stop_at,
};
use crate::deck::{lemma_session_slot, matching_sessions};
use crate::desk::Desk;
use crate::key_laws::{is_plain, lemma_history};
use crate::keys::{KeyCode, KeyEvent, KeyKind};
use crate::labels::{
    columns_or_none, highlight, highlight_label, highlight_span, indent, label_end, label_range,
};
use crate::list_laws::law_resumed_sessions_are_ready_for_a_reply;
use crate::params::read_params;
use crate::prompt_laws::sent_one;
use crate::segmentation::{cluster_width, grapheme_clusters, word_pieces};
use crate::state::{AppView, MenuTab, MenuView};
use crate::style::{Color, screen_limit};
use crate::styled::{lemma_plain_add, plain, SpanView};
use crate::text::{
    byte_len, concat, is_white, lemma_index_at, lemma_offset_ends, lemma_offset_mono,
    lemma_three_parts, offset_at, slice, tail,
};
use crate::thread_laws::listed_once;
use crate::views::group_views;
use crate::wrap::{wrap_clusters, wrap_line, wrap_pieces, wrap_spans, Wrapped};

verus! {

broadcast use group_views;

/// Whether every span of some lines looks like a span of a line: in its style, and
/// under its link.
pub open spec fn looks_like(lines: Seq<Seq<SpanView>>, line: Seq<SpanView>) -> bool {
    forall|i: int, j: int|
        0 <= i < lines.len() && 0 <= j < lines[i].len() ==> same_look(
            #[trigger] lines[i][j],
            line,
        )
}

/// Whether a span looks like one of a line.
pub open spec fn same_look(span: SpanView, line: Seq<SpanView>) -> bool {
    exists|k: int|
        0 <= k < line.len() && (#[trigger] line[k]).style == span.style && line[k].link == span.link
}

spec fn all_look_like(wrapped: Wrapped, line: Seq<SpanView>) -> bool {
    looks_like(wrapped.done, line) && forall|j: int|
        0 <= j < wrapped.current.len() ==> same_look(#[trigger] wrapped.current[j], line)
}

proof fn lemma_with_looks(wrapped: Wrapped, text: Seq<char>, span: SpanView, line: Seq<SpanView>)
    requires
        all_look_like(wrapped, line),
        same_look(span, line),
    ensures
        all_look_like(wrapped.with(text, span.style, span.link), line),
        all_look_like(wrapped.broken(), line),
        all_look_like(wrapped.broken().with(text, span.style, span.link), line),
{
    let k = choose|k: int|
        0 <= k < line.len() && (#[trigger] line[k]).style == span.style && line[k].link
            == span.link;
    let after = wrapped.with(text, span.style, span.link);
    assert forall|j: int| 0 <= j < after.current.len() implies same_look(
        #[trigger] after.current[j],
        line,
    ) by {
        if j < wrapped.current.len() && after.current[j] == wrapped.current[j] {
        } else {
            assert(line[k].style == after.current[j].style && line[k].link
                == after.current[j].link);
        }
    }
    let broken = wrapped.broken();
    assert forall|i: int, j: int| 0 <= i < broken.done.len() && 0 <= j < broken.done[i].len() implies
        same_look(#[trigger] broken.done[i][j], line) by {
        if i < wrapped.done.len() {
            assert(same_look(wrapped.done[i][j], line));
        } else {
            assert(same_look(wrapped.current[j], line));
        }
    }
    let next = broken.with(text, span.style, span.link);
    assert forall|j: int| 0 <= j < next.current.len() implies same_look(
        #[trigger] next.current[j],
        line,
    ) by {
        assert(line[k].style == next.current[j].style && line[k].link == next.current[j].link);
    }
}

proof fn lemma_clusters_look(
    wrapped: Wrapped,
    clusters: Seq<Seq<char>>,
    count: int,
    span: SpanView,
    width: nat,
    line: Seq<SpanView>,
)
    requires
        all_look_like(wrapped, line),
        same_look(span, line),
    ensures
        all_look_like(wrap_clusters(wrapped, clusters, count, span, width), line),
    decreases count,
{
    if count > 0 {
        lemma_clusters_look(wrapped, clusters, count - 1, span, width, line);
        lemma_with_looks(
            wrap_clusters(wrapped, clusters, count - 1, span, width),
            clusters[count - 1],
            span,
            line,
        );
    }
}

proof fn lemma_pieces_look(
    wrapped: Wrapped,
    pieces: Seq<Seq<char>>,
    count: int,
    span: SpanView,
    width: nat,
    line: Seq<SpanView>,
)
    requires
        all_look_like(wrapped, line),
        same_look(span, line),
    ensures
        all_look_like(wrap_pieces(wrapped, pieces, count, span, width), line),
    decreases count,
{
    if count > 0 {
        lemma_pieces_look(wrapped, pieces, count - 1, span, width, line);
        let before = wrap_pieces(wrapped, pieces, count - 1, span, width);
        let piece = pieces[count - 1];
        lemma_with_looks(before, piece, span, line);
        let clusters = grapheme_clusters(piece);
        lemma_clusters_look(before, clusters, clusters.len() as int, span, width, line);
    }
}

proof fn lemma_spans_look(wrapped: Wrapped, spans: Seq<SpanView>, width: nat, line: Seq<SpanView>)
    requires
        all_look_like(wrapped, line),
        forall|i: int| 0 <= i < spans.len() ==> same_look(#[trigger] spans[i], line),
    ensures
        all_look_like(wrap_spans(wrapped, spans, width), line),
    decreases spans.len(),
{
    if spans.len() > 0 {
        let front = spans.drop_last();
        assert forall|i: int| 0 <= i < front.len() implies same_look(#[trigger] front[i], line) by {
            assert(front[i] == spans[i]);
        }
        lemma_spans_look(wrapped, front, width, line);
        assert(same_look(spans[spans.len() - 1], line));
        let pieces = word_pieces(spans.last().text);
        lemma_pieces_look(
            wrap_spans(wrapped, front, width),
            pieces,
            pieces.len() as int,
            spans.last(),
            width,
            line,
        );
    }
}

/// Wrapping invents no style and no link: what stands on the lines that a line wraps to
/// looks as it did on the line.
pub proof fn law_wrapping_keeps_styles_and_links(line: Seq<SpanView>, width: nat)
    ensures
        looks_like(wrap_line(line, width), line),
{
    assert forall|i: int| 0 <= i < line.len() implies same_look(#[trigger] line[i], line) by {
        assert(line[i].style == line[i].style && line[i].link == line[i].link);
    }
    if line.len() == 0 {
        assert forall|i: int, j: int|
            0 <= i < seq![line].len() && 0 <= j < seq![line][i].len() implies same_look(
            #[trigger] seq![line][i][j],
            line,
        ) by {}
    } else {
        let start = Wrapped { done: seq![], current: seq![] };
        lemma_spans_look(start, line, width, line);
        let wrapped = wrap_spans(start, line, width);
        lemma_with_looks(wrapped, seq![], line[0], line);
    }
}

/// The label of a field at the start of a line, with the colon, is bold and cyan, and
/// what follows looks as it did. The text stays the same.
pub proof fn law_labels_are_bold_and_cyan(span: SpanView, label: int)
    requires
        label_range(span.text) == Some((0int, label)),
        0 < label < span.text.len(),
    ensures
        ({
            let line = highlight_label(seq![span]);
            &&& line.len() == 2
            &&& line[0].text == span.text.take(label)
            &&& line[0].style.fg == Some(Color::Cyan) && line[0].style.add_modifier.bold
            &&& line[0].link == span.link
            &&& line[1] == (SpanView { text: span.text.skip(label), ..span })
        }),
{
    let text = span.text;
    let one = seq![span];
    let none = Seq::<SpanView>::empty();
    assert(one.drop_last() =~= none);
    assert(plain(none) =~= seq![]);
    assert(plain(one) =~= text);
    lemma_index_at(text, 0);
    lemma_index_at(text, label);
    lemma_offset_ends(text);
    lemma_offset_mono(text, 0, label);
    lemma_offset_mono(text, label, text.len() as int);
    let end = offset_at(text, label) as int;
    assert(byte_len(Seq::<char>::empty()) == 0);
    lemma_three_parts(text, 0, end);
    assert(slice(text, 0, end) =~= text.take(label));
    assert(tail(text, end) =~= text.skip(label));
    assert(highlight(none, 0, end) =~= none);
    assert(highlight(one, 0, end) =~= highlight_span(span, 0, 0, end));
}

/// A line without a colon has no label.
pub proof fn law_lines_without_a_colon_have_no_label(text: Seq<char>)
    requires
        !text.contains(':'),
        !text.contains('：'),
    ensures
        label_range(text) is None,
{
    let start = indent(text);
    lemma_no_label(text, start, 0, false);
}

proof fn lemma_no_label(text: Seq<char>, index: int, columns: nat, visible: bool)
    requires
        !text.contains(':'),
        !text.contains('：'),
    ensures
        label_end(text, index, columns, visible) is None,
    decreases text.len() - index,
{
    if 0 <= index < text.len() {
        assert(text.contains(text[index]));
        lemma_no_label(
            text,
            index + 1,
            columns + columns_or_none(text[index]),
            visible || !is_white(text[index]),
        );
    }
}

/// Each cell of a link prints the next cluster of its text between the marks that open
/// and close the link, and none reaches beyond the right border. Text that is no link
/// has no such cells.
pub proof fn law_link_cells_print_their_text(
    clusters: Seq<Seq<char>>,
    from: int,
    target: Seq<char>,
    x: int,
    y: int,
    right: int,
    i: int,
)
    requires
        0 <= from <= clusters.len(),
        0 <= i < cluster_links(clusters, from, target, x, y, right).0.len(),
    ensures
        ({
            let cells = cluster_links(clusters, from, target, x, y, right).0;
            &&& from + cells.len() <= clusters.len()
            &&& cells[i].symbol == "\x1b]8;;"@ + target + "\x1b\\"@ + clusters[from + i]
                + "\x1b]8;;\x1b\\"@
            &&& cells[i].y == y
            &&& i == 0 ==> cells[i].x == x
            &&& screen_limit(cells[i].x + cells[i].width) <= right
        }),
    decreases clusters.len() - from,
{
    if from < clusters.len() {
        let width = screen_columns(cluster_width(clusters[from]));
        let next = screen_limit(x + width);
        if next <= right {
            let rest = cluster_links(clusters, from + 1, target, next, y, right);
            let cells = cluster_links(clusters, from, target, x, y, right).0;
            assert(cells =~= seq![
                LinkView { x, y, symbol: linked(target, clusters[from]), width },
            ] + rest.0);
            lemma_cells_bound(clusters, from + 1, target, next, y, right);
            if i > 0 {
                law_link_cells_print_their_text(
                    clusters,
                    from + 1,
                    target,
                    next,
                    y,
                    right,
                    i - 1,
                );
                assert(cells[i] == rest.0[i - 1]);
            }
        }
    }
}

proof fn lemma_cells_bound(
    clusters: Seq<Seq<char>>,
    from: int,
    target: Seq<char>,
    x: int,
    y: int,
    right: int,
)
    requires
        0 <= from <= clusters.len(),
    ensures
        from + cluster_links(clusters, from, target, x, y, right).0.len() <= clusters.len(),
    decreases clusters.len() - from,
{
    if from < clusters.len() {
        let next = screen_limit(x + screen_columns(cluster_width(clusters[from])));
        lemma_cells_bound(clusters, from + 1, target, next, y, right);
    }
}

/// Only links have link cells, and they lead to the span's own target.
pub proof fn law_only_links_have_link_cells(span: SpanView, x: int, y: int, right: int)
    ensures
        span.link is None ==> span_links(span, x, y, right).0.len() == 0,
        span.link matches Some(target) ==> span_links(span, x, y, right) == cluster_links(
            grapheme_clusters(span.text),
            0,
            target,
            x,
            y,
            right,
        ),
{
}

proof fn lemma_shaded_clusters(
    before: (Seq<SpanView>, int),
    span: SpanView,
    count: int,
    start: int,
    end: int,
    background: Color,
)
    requires
        0 <= count <= grapheme_clusters(span.text).len(),
    ensures
        plain(shaded_clusters(before, span, count, start, end, background).0) == plain(before.0)
            + concat(grapheme_clusters(span.text).take(count)),
    decreases count,
{
    let clusters = grapheme_clusters(span.text);
    if count <= 0 {
        assert(clusters.take(count) =~= seq![]);
        assert(plain(before.0) + Seq::<char>::empty() =~= plain(before.0));
    } else {
        lemma_shaded_clusters(before, span, count - 1, start, end, background);
        let (line, column) = shaded_clusters(before, span, count - 1, start, end, background);
        let cluster = clusters[count - 1];
        lemma_plain_add(
            line,
            cluster,
            shade(span.style, column, start, end, background),
            span.link,
        );
        assert(clusters.take(count).drop_last() =~= clusters.take(count - 1));
        assert(plain(before.0) + concat(clusters.take(count - 1)) + cluster =~= plain(before.0) + (
        concat(clusters.take(count - 1)) + cluster));
    }
}

/// The selection shades a line and changes nothing of its text.
pub proof fn law_shading_keeps_the_text(
    line: Seq<SpanView>,
    count: int,
    start: int,
    end: int,
    background: Color,
)
    requires
        0 <= count <= line.len(),
        forall|i: int|
            0 <= i < line.len() ==> concat(grapheme_clusters((#[trigger] line[i]).text))
                == line[i].text,
    ensures
        plain(shaded_spans(line, count, start, end, background).0) == plain(line.take(count)),
    decreases count,
{
    if count <= 0 {
        assert(line.take(count) =~= seq![]);
    } else {
        law_shading_keeps_the_text(line, count - 1, start, end, background);
        let before = shaded_spans(line, count - 1, start, end, background);
        let span = line[count - 1];
        let clusters = grapheme_clusters(span.text);
        lemma_shaded_clusters(before, span, clusters.len() as int, start, end, background);
        assert(clusters.take(clusters.len() as int) =~= clusters);
        assert(line.take(count).drop_last() =~= line.take(count - 1));
        assert(concat(grapheme_clusters(line[count - 1].text)) == line[count - 1].text);
    }
}

proof fn lemma_nearest(stops: Seq<CursorStop>, row: int, column: int)
    ensures
        match nearest_stop(stops, row, column) {
            Some(stop) => stops.contains(stop) && stop.row == row && forall|i: int|
                0 <= i < stops.len() && (#[trigger] stops[i]).row == row ==> column_distance(
                    stop,
                    column,
                ) <= column_distance(stops[i], column),
            None => forall|i: int| 0 <= i < stops.len() ==> (#[trigger] stops[i]).row != row,
        },
    decreases stops.len(),
{
    if stops.len() > 0 {
        let front = stops.drop_last();
        lemma_nearest(front, row, column);
        assert forall|i: int| 0 <= i < front.len() implies #[trigger] stops[i] == front[i] by {}
        assert(stops[stops.len() - 1] == stops.last());
        if let Some(stop) = nearest_stop(front, row, column) {
            let i = choose|i: int| 0 <= i < front.len() && front[i] == stop;
            assert(stops[i] == stop);
        }
    }
}

/// A move by rows puts the cursor at the stop of the row above or below that is nearest
/// to its column, and keeps to that column on further moves. It changes nothing of the
/// text. Where there is no such row, the cursor stays.
pub proof fn law_vertical_moves_keep_the_column(
    c: ComposerView,
    direction: int,
    width: nat,
    prefix: nat,
    current: CursorStop,
)
    requires
        stop_at(c.cursor_stops(width, prefix), c.cursor) == Some(current),
    ensures
        ({
            let stops = c.cursor_stops(width, prefix);
            let after = c.move_vertical(direction, width, prefix);
            let column = match c.vertical_column {
                Some(column) => column as int,
                None => current.column,
            };
            let row = current.row + direction;
            &&& after.text == c.text && after.tokens == c.tokens && after.images == c.images
            &&& (forall|i: int| 0 <= i < stops.len() ==> (#[trigger] stops[i]).row != row) ==> after
                == c
            &&& (exists|i: int| 0 <= i < stops.len() && (#[trigger] stops[i]).row == row) ==> (
            exists|k: int|
                0 <= k < stops.len() && (#[trigger] stops[k]).byte == after.cursor && stops[k].row
                    == row && forall|i: int|
                    0 <= i < stops.len() && (#[trigger] stops[i]).row == row ==> column_distance(
                        stops[k],
                        column,
                    ) <= column_distance(stops[i], column))
            &&& after.cursor != c.cursor ==> after.vertical_column == Some(column as nat)
        }),
{
    let stops = c.cursor_stops(width, prefix);
    let column = match c.vertical_column {
        Some(column) => column as int,
        None => current.column,
    };
    let row = current.row + direction;
    lemma_nearest(stops, row, column);
    if let Some(stop) = nearest_stop(stops, row, column) {
        let k = choose|k: int| 0 <= k < stops.len() && stops[k] == stop;
        assert(stops[k].byte == c.move_vertical(direction, width, prefix).cursor);
    }
}

/// Back from the native interface, the session is selected and its history is asked for
/// anew.
pub proof fn law_attached_sessions_are_read_again(desk: Desk, id: Seq<char>)
    requires
        desk.app.session(id) is Some,
        desk.app.session(id)->0.path is None,
    ensures
        sent_one(desk.out, desk.after_attach(id).out, "thread/read"@, read_params(id)),
        desk.after_attach(id).app.selected_id() == Some(id),
        desk.after_attach(id).app.scroll_back == 0,
        desk.after_attach(id).app.sessions == desk.app.sessions,
{
    reveal(Desk::after_attach);
    reveal(Desk::loading);
    reveal(Desk::reading);
    reveal(Desk::calling);
    reveal(AppView::calling);
    reveal(AppView::selecting);
    reveal(AppView::returned);
    reveal(AppView::at_end);
    reveal(AppView::noting);
    lemma_session_slot(desk.app.sessions, id);
}

/// A key in the open menu: the escape key closes it, a character narrows the search,
/// the tab key turns to the settings, and the keys up and down choose another session.
/// Nothing is typed into the composer, and nothing is sent.
pub proof fn law_keys_of_the_menu(desk: Desk, key: KeyEvent, menu: MenuView, c: char)
    requires
        desk.app.menu == Some(menu),
        menu.tab == MenuTab::Resume,
        !desk.app.help_open,
        is_plain(key),
        key.kind == KeyKind::Press,
    ensures
        ({
            let after = desk.key(key).app;
            &&& key.code == KeyCode::Esc ==> after.menu is None && after.composer
                == desk.app.composer
            &&& key.code == KeyCode::Char(c) ==> after.menu == Some(
                MenuView { query: menu.query.push(c), selected: 0, ..menu },
            ) && after.composer == desk.app.composer
            &&& key.code == KeyCode::Tab ==> after.menu == Some(
                MenuView { tab: MenuTab::Settings, ..menu },
            )
            &&& key.code == KeyCode::Up ==> (after.menu matches Some(shown) && shown.selected == (
            if menu.selected > 0 {
                menu.selected - 1
            } else {
                0
            }))
            &&& key.code == KeyCode::Down ==> (after.menu matches Some(shown) && shown.selected == (
            if menu.selected + 1 < matching_sessions(desk.app.history, menu.query).len() {
                menu.selected + 1
            } else {
                menu.selected
            }))
            &&& key.code != KeyCode::Enter ==> desk.key(key).out == desk.out && after.sessions
                == desk.app.sessions
        }),
{
    reveal(Desk::key);
    reveal(Desk::pressed);
    let app = desk.app.disarmed(key);
    assert(app == (AppView {
        attach_right_armed: app.attach_right_armed,
        menu_left_armed: app.menu_left_armed,
        ctrl_x_armed: app.ctrl_x_armed,
        esc_armed: app.esc_armed,
        ..desk.app
    })) by {
        reveal(AppView::disarmed);
    }
    reveal(Desk::menu_key);
    reveal(AppView::menu_escaped);
    reveal(AppView::showing);
    reveal(AppView::confirming_menu);
    reveal(AppView::noting);
    reveal(AppView::with_menu);
}

/// The enter key in the menu resumes the session that is chosen among those that are
/// offered.
pub proof fn law_the_menu_resumes_the_chosen_session(desk: Desk, key: KeyEvent, menu: MenuView)
    requires
        desk.app.menu == Some(menu),
        menu.tab == MenuTab::Resume,
        !desk.app.help_open,
        is_plain(key),
        key.kind == KeyKind::Press,
        key.code == KeyCode::Enter,
        listed_once(desk.app.sessions),
        0 <= menu.selected < matching_sessions(desk.app.history, menu.query).len(),
    ensures
        ({
            let chosen = matching_sessions(desk.app.history, menu.query)[menu.selected];
            let after = desk.key(key).app;
            &&& after.session(chosen.id) is Some
            &&& after.selected_id() == Some(chosen.id)
            &&& after.lifecycle.adopted.contains(chosen.id)
            &&& after.menu is None
            &&& after.composer_open
            &&& after.composer.target == ComposeTarget::Reply
        }),
{
    let chosen = matching_sessions(desk.app.history, menu.query)[menu.selected];
    let app = desk.app.disarmed(key);
    assert(app == (AppView {
        attach_right_armed: app.attach_right_armed,
        menu_left_armed: app.menu_left_armed,
        ctrl_x_armed: app.ctrl_x_armed,
        esc_armed: app.esc_armed,
        ..desk.app
    })) by {
        reveal(AppView::disarmed);
    }
    let start = desk.on(app);
    let back = start.on(app.brought_back(chosen));
    assert(desk.key(key) == back.ensuring_history()) by {
        reveal(Desk::key);
        reveal(Desk::pressed);
        reveal(Desk::menu_key);
        reveal(Desk::menu_chosen);
        reveal(Desk::resuming);
    }
    law_resumed_sessions_are_ready_for_a_reply(app, chosen);
    lemma_history(back);
}

} // verus!
