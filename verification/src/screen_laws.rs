//! What is on the screen, and what is copied from it.

use vstd::prelude::*;

use crate::composer::ComposeTarget;
use crate::composer_view::{at_least_one, clusters_that_fit, prefix_of, truncated};
use crate::events::markdown_events;
use crate::labels::max_int;
use crate::markdown::document_lines;
use crate::model::{MessageKind, MessageView, PreviewVerbosity, SessionStatus, SessionView, shows};
use crate::paths::file_name;
use crate::rows::{
    gutter, gutter_width, kind_style, message_block, message_body, message_rows, session_row,
};
use crate::segmentation::{cluster_width, display_width, grapheme_clusters};
use crate::selection::{clusters_between, columns_before, in_order, SelectionView, shown_width};
use crate::style::Color;
use crate::terminal_palette::{channel_value, hex_value, mixed};
use crate::text::{begins_with, byte_len, concat};

verus! {

/// The row of a session: a pin only where it is pinned, a green lamp only while it
/// works, its title, and at the right the confirmation that is asked for or else the
/// last part of its directory. A selected row differs in its colour alone.
pub proof fn law_rows_tell_the_state_of_their_sessions(
    session: SessionView,
    pinned: bool,
    selected: bool,
    confirmation: Option<Seq<char>>,
    width: int,
)
    ensures
        ({
            let row = session_row(session, pinned, selected, confirmation, width);
            let other = session_row(session, pinned, !selected, confirmation, width);
            &&& row.spans.len() == 5
            &&& row.spans[0].text == (if pinned {
                "📌 "@
            } else {
                "   "@
            })
            &&& session.status == SessionStatus::Working <==> row.spans[1].text == "● "@
            &&& session.status == SessionStatus::Working ==> row.spans[1].style.fg == Some(
                Color::Green,
            )
            &&& session.status != SessionStatus::Working ==> row.spans[1].text == "  "@
            &&& row.spans[2].text == truncated(
                session.title,
                max_int(
                    width - display_width(row.spans[0].text) - display_width(row.spans[1].text)
                        - display_width(row.spans[4].text) - 1,
                    0,
                ),
            )
            &&& confirmation matches Some(asked) ==> row.spans[4].text == asked
            &&& confirmation is None ==> row.spans[4].text == (match file_name(session.cwd) {
                Some(name) => name,
                None => session.cwd,
            })
            &&& forall|i: int| 0 <= i < 5 ==> (#[trigger] row.spans[i]).text == other.spans[i].text
            &&& row.style.bg is None
            &&& selected ==> row.style.fg == Some(Color::Cyan)
            &&& !selected ==> row.style.fg is None
        }),
{
    reveal_strlit("● ");
    reveal_strlit("  ");
    assert("● "@[0] != "  "@[0]);
}

/// A text that fits is shown whole. One that does not is cut behind as many of its
/// clusters as leave room for an ellipsis, which it ends with.
pub proof fn law_cut_texts_end_with_an_ellipsis(text: Seq<char>, width: int)
    ensures
        width > 0 && display_width(text) <= width ==> truncated(text, width) == text,
        width > 1 && display_width(text) > width ==> is_cut(
            grapheme_clusters(text),
            truncated(text, width),
            width,
        ),
        width == 1 && display_width(text) > width ==> truncated(text, width) == "…"@,
        width <= 0 ==> truncated(text, width).len() == 0,
{
    if width > 1 && display_width(text) > width {
        let clusters = grapheme_clusters(text);
        lemma_fit_bounds(clusters, 0, width);
        let count = clusters_that_fit(clusters, 0, 0, width);
        assert(fills(clusters, count, width));
        assert(truncated(text, width) == concat(clusters.take(count)) + "…"@);
    }
}

/// Whether the first `count` clusters leave room for one more column, and one cluster
/// more would not.
pub open spec fn fills(clusters: Seq<Seq<char>>, count: int, width: int) -> bool {
    &&& 0 <= count <= clusters.len()
    &&& count > 0 ==> columns_before(clusters, count) + 1 <= width
    &&& count < clusters.len() ==> columns_before(clusters, count + 1) + 1 > width
}

/// Whether a text is cut to a width.
pub open spec fn is_cut(clusters: Seq<Seq<char>>, shown: Seq<char>, width: int) -> bool {
    exists|count: int| #[trigger]
        fills(clusters, count, width) && shown == concat(clusters.take(count)) + "…"@
}

proof fn lemma_fit_bounds(clusters: Seq<Seq<char>>, from: int, width: int)
    requires
        0 <= from <= clusters.len(),
        from > 0 ==> columns_before(clusters, from) + 1 <= width,
    ensures
        fills(
            clusters,
            clusters_that_fit(clusters, from, columns_before(clusters, from), width),
            width,
        ),
    decreases clusters.len() - from,
{
    if from < clusters.len() && columns_before(clusters, from) + cluster_width(clusters[from]) + 1
        <= width {
        lemma_fit_bounds(clusters, from + 1, width);
    }
}

/// Each kind of message has a sign of its own.
pub proof fn law_kinds_have_their_signs()
    ensures
        kind_style(MessageKind::User).0 == "🎯 "@,
        kind_style(MessageKind::Thinking).0 == "🧠 "@,
        kind_style(MessageKind::Progress).0 == "💬 "@,
        kind_style(MessageKind::Final).0 == "✅ "@,
        kind_style(MessageKind::Question).0 == "❓ "@,
        kind_style(MessageKind::System).0 == "⚠ "@,
{
}

/// A message is shown behind those before it, where the preview level shows its kind:
/// its lines, the first one with the sign of its kind and the others with a bar, and an
/// empty line. A message whose kind is not shown leaves no trace.
pub proof fn law_messages_are_shown_in_order(
    messages: Seq<MessageView>,
    message: MessageView,
    width: int,
    verbosity: PreviewVerbosity,
    i: int,
)
    requires
        0 <= i < message_body(message, width).len(),
    ensures
        ({
            let before = message_rows(messages, width, verbosity);
            let after = message_rows(messages.push(message), width, verbosity);
            let body = message_body(message, width);
            let hidden = message.kind == MessageKind::Thinking && verbosity
                != PreviewVerbosity::Full || message.kind == MessageKind::Progress && verbosity
                == PreviewVerbosity::Final;
            &&& hidden ==> after == before
            &&& !hidden ==> {
                &&& after.len() == before.len() + body.len() + 1
                &&& after.take(before.len() as int) == before
                &&& after.last().len() == 0
                &&& after[before.len() + i].len() == body[i].len() + 1
                &&& after[before.len() + i].drop_first() == body[i]
                &&& i == 0 ==> after[before.len() as int][0].text == kind_style(message.kind).0
                &&& i > 0 ==> begins_with(after[before.len() + i][0].text, "│"@)
            }
        }),
{
    let all = messages.push(message);
    assert(all.drop_last() =~= messages);
    let before = message_rows(messages, width, verbosity);
    let after = message_rows(all, width, verbosity);
    let body = message_body(message, width);
    let look = kind_style(message.kind);
    let block = message_block(message, width);
    if shows(verbosity, message.kind) {
        assert(after == before + block);
        assert(after.take(before.len() as int) =~= before);
        assert(block[i] == seq![gutter(look.0, look.1, i == 0)] + body[i]);
        assert(after[before.len() + i] == block[i]);
        assert(block[i].drop_first() =~= body[i]);
        if i > 0 {
            let text = block[i][0].text;
            assert(text.take("│"@.len() as int) =~= "│"@);
        }
    }
}

/// The body of a message is its text as Markdown, in the style of its kind.
pub proof fn law_messages_are_shown_as_markdown(message: MessageView, width: int)
    ensures
        exists|columns: nat|
            message_body(message, width) == #[trigger] document_lines(
                markdown_events(message.text),
                kind_style(message.kind).2,
                columns,
            ) && columns >= 1,
{
    reveal(message_body);
    let look = kind_style(message.kind);
    let columns = at_least_one(width - gutter_width(look.0)) as nat;
    assert(message_body(message, width) == document_lines(
        markdown_events(message.text),
        look.2,
        columns,
    ));
}

/// The composer tells what it is for: a new task, a reply, the answer to a question, or
/// a name.
pub proof fn law_the_composer_tells_its_target(pending: bool)
    ensures
        prefix_of(ComposeTarget::NewTask, pending) == "＋ new › "@,
        prefix_of(ComposeTarget::Reply, false) == "↳ reply › "@,
        prefix_of(ComposeTarget::Reply, true) == "？ answer › "@,
        prefix_of(ComposeTarget::Rename, pending) == "✎ rename › "@,
{
}

pub proof fn lemma_columns_grow(clusters: Seq<Seq<char>>, early: int, late: int)
    requires
        0 <= early <= late <= clusters.len(),
    ensures
        columns_before(clusters, early) <= columns_before(clusters, late),
        early < late ==> columns_before(clusters, early) < columns_before(clusters, late),
        columns_before(clusters, early) >= early,
    decreases late,
{
    if early < late {
        lemma_columns_grow(clusters, early, late - 1);
    } else if early > 0 {
        lemma_columns_grow(clusters, early - 1, early - 1);
    }
}

proof fn lemma_all_between(clusters: Seq<Seq<char>>, end: int, count: int)
    requires
        0 <= count <= clusters.len(),
        end == columns_before(clusters, clusters.len() as int),
    ensures
        clusters_between(clusters, 0, end, count) == concat(clusters.take(count)),
    decreases count,
{
    if count <= 0 {
        assert(clusters.take(count) =~= seq![]);
    } else {
        lemma_all_between(clusters, end, count - 1);
        lemma_columns_grow(clusters, count - 1, clusters.len() as int);
        lemma_columns_grow(clusters, count, count);
        assert(clusters.take(count).drop_last() =~= clusters.take(count - 1));
    }
}

/// What is selected: nothing outside of the rows between the two ends, and between them
/// the whole rows.
pub proof fn law_rows_between_the_ends_are_selected_whole(selection: SelectionView, row: int)
    requires
        selection.selection is Some,
        0 <= row < selection.lines.len(),
        selection.lines[row].len() > 0,
        concat(grapheme_clusters(selection.lines[row])) == selection.lines[row],
    ensures
        ({
            let (first, last) = in_order(selection.selection->0);
            &&& row < first.row || row > last.row ==> selection.row_text(row).len() == 0
            &&& first.row < row < last.row ==> selection.row_text(row) == selection.lines[row]
            &&& first.row <= last.row
        }),
{
    let line = selection.lines[row];
    let clusters = grapheme_clusters(line);
    let (first, last) = in_order(selection.selection->0);
    if first.row < row < last.row {
        assert(clusters.len() > 0) by {
            if clusters.len() == 0 {
                assert(concat(clusters) =~= seq![]);
            }
        }
        lemma_columns_grow(clusters, 0, clusters.len() as int);
        lemma_all_between(clusters, shown_width(line), clusters.len() as int);
        assert(clusters.take(clusters.len() as int) =~= clusters);
    }
}

/// A drag selects from where it began to where it is, and what is copied at its end is
/// what it selected.
pub proof fn law_drags_select_from_where_they_began(
    selection: SelectionView,
    column: int,
    row: int,
    end_column: int,
    end_row: int,
)
    requires
        selection.point_at(column, row) is Some,
        selection.point_at(end_column, end_row) is Some,
        selection.point_at(column, row) != selection.point_at(end_column, end_row),
    ensures
        ({
            let from = selection.point_at(column, row)->0;
            let to = selection.point_at(end_column, end_row)->0;
            let dragged = selection.begun(column, row).dragged(end_column, end_row);
            let (ended, copied) = selection.begun(column, row).finished(end_column, end_row);
            &&& from.row == row - selection.area.y && from.column == column - selection.area.x
            &&& dragged.selection == Some((from, to))
            &&& copied matches Some(text) ==> ended.selection == Some((from, to)) && text
                == ended.selected_text() && text.len() > 0
            &&& ended.drag is None
            &&& copied is None ==> ended.selection is None
        }),
{
}

/// A colour channel of two hexadecimal digits is the number that they spell, and the
/// largest value of any number of digits is full colour.
pub proof fn law_channels_are_scaled_to_full_colour(channel: Seq<char>, value: nat)
    requires
        hex_value(channel) == Some(value),
        1 <= byte_len(channel) <= 4,
    ensures
        byte_len(channel) == 2 ==> channel_value(channel) == Some(value),
        value == 0 ==> channel_value(channel) == Some(0nat),
        byte_len(channel) == 1 && value == 15 ==> channel_value(channel) == Some(255nat),
        byte_len(channel) == 4 && value == 65535 ==> channel_value(channel) == Some(255nat),
{
    let digits = byte_len(channel);
    if digits == 1 {
        assert((15nat * 255 + 15nat / 2) / 15 == 255);
        assert((0nat * 255 + 15nat / 2) / 15 == 0);
    } else if digits == 2 {
        assert((value * 255 + 255nat / 2) / 255 == value) by (nonlinear_arith);
    } else if digits == 3 {
        assert((0nat * 255 + 4095nat / 2) / 4095 == 0);
    } else {
        assert((65535nat * 255 + 65535nat / 2) / 65535 == 255);
        assert((0nat * 255 + 65535nat / 2) / 65535 == 0);
    }
}

/// A tint of no part is the colour below, and one of all parts is the colour above.
pub proof fn law_tints_reach_their_colors(base: u8, overlay: u8)
    ensures
        mixed(base, overlay, 0) == base,
        mixed(base, overlay, 100) == overlay,
{
    assert((base * (100 - 0) + overlay * 0 + 50) / 100 == base) by (nonlinear_arith);
    assert((base * (100 - 100) + overlay * 100 + 50) / 100 == overlay) by (nonlinear_arith);
}

} // verus!
