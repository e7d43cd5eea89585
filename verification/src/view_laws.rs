//! What part of the sessions and of a conversation is in view, and smaller rules.

use vstd::prelude::*;

use crate::clipboard::pasted_path;
use crate::composer::{SkillView, TokenView};
use crate::composer_view::{Look, token_at};
use crate::deck::{refreshed, session_slot, without_session};
use crate::desk::Desk;
use crate::json::JsonView;
use crate::key_laws::{at_dashboard, is_plain, lemma_edited, lemma_history};
use crate::keys::{KeyCode, KeyEvent, KeyKind};
use crate::list_laws::lemma_merging;
use crate::model::{SessionView, thread_session};
use crate::paths::file_name;
use crate::screen::{first_session_shown, visible_lines};
use crate::screen_laws::lemma_columns_grow;
use crate::segmentation::grapheme_clusters;
use crate::selection::{
    cluster_at, clusters_between, columns_before, end_column, start_column, text_between,
};
use crate::skills::{Skill, SkillSearch};
use crate::state::AppView;
use crate::style::{Color, Style};
use crate::styled::SpanView;
use crate::terminal_palette::{channel_value, osc_rgb, Rgb};
use crate::text::{
    begins_with, byte_len, concat, first_index, lemma_first_index, lemma_first_index_is,
    replace_all, split_on, trim_end_of,
};
use crate::thread_laws::{
    after_message, lemma_gone, lemma_methods, lemma_notified, listed_once, notifies, others_stay,
    sends_nothing,
};
use crate::views::group_views;

verus! {

broadcast use group_views;

/// The preview shows the last lines of a conversation, and earlier ones by as many as it
/// is scrolled back, but never less than what there is to show. All lines are in view
/// where they fit.
pub proof fn law_the_preview_shows_the_latest_lines(
    lines: Seq<Seq<SpanView>>,
    back: int,
    height: int,
)
    requires
        height > 0,
        back >= 0,
    ensures
        ({
            let shown = visible_lines(lines, back, height);
            let count = lines.len() as int;
            &&& count <= height ==> shown == lines
            &&& count > height ==> shown.len() == height
            &&& count > height && back == 0 ==> shown == lines.skip(count - height)
            &&& count > height && back <= count - height ==> shown == lines.subrange(
                count - height - back,
                count - back,
            )
            &&& count > height && back >= count - height ==> shown == lines.take(height)
        }),
{
    let count = lines.len() as int;
    if count <= height {
        assert(lines.subrange(0, count) =~= lines);
    } else {
        assert(lines.subrange(count - height, count) =~= lines.skip(count - height));
        assert(lines.subrange(0, height) =~= lines.take(height));
    }
}

/// The selected session is always among the rows that are shown.
pub proof fn law_the_selected_session_is_in_view(app: AppView, height: int)
    requires
        height > 0,
        app.sessions.len() > 0,
        app.selected >= 0,
    ensures
        first_session_shown(app, height) <= app.selected_index() < first_session_shown(app, height)
            + height,
        first_session_shown(app, height) >= 0,
{
}

/// A thread that starts is a session of the dashboard, as the app-server tells of it.
pub proof fn law_started_threads_are_shown(
    desk: Desk,
    message: JsonView,
    params: JsonView,
    thread: JsonView,
    session: SessionView,
)
    requires
        listed_once(desk.app.sessions),
        notifies(message, "thread/started"@, params),
        params.get("thread"@) == Some(thread),
        thread_session(thread) == Some(session),
    ensures
        sends_nothing(desk, message),
        ({
            let after = after_message(desk, message);
            &&& after.session(session.id) == Some(
                match desk.app.session(session.id) {
                    Some(existing) => refreshed(existing, session),
                    None => session,
                },
            )
            &&& others_stay(desk.app, after, session.id)
            &&& after.lifecycle.adopted.contains(session.id)
            &&& session_slot(after.history, session.id) is None
            &&& listed_once(after.sessions)
        }),
{
    lemma_methods();
    lemma_notified(desk, message, "thread/started"@, params);
    let app = desk.app;
    let adopted = app.adopting(session.id);
    assert(adopted.sessions == app.sessions && adopted.lifecycle.adopted.contains(session.id)) by {
        reveal(AppView::adopting);
    }
    lemma_merging(adopted, session);
    let merged = adopted.merging(session);
    let after = after_message(desk, message);
    assert(after == (AppView {
        history: without_session(merged.history, session.id),
        ..merged
    })) by {
        reveal(AppView::notified);
        reveal(AppView::thread_started);
        reveal(AppView::unlisted);
    }
    lemma_gone(merged.history, session.id);
    assert(after.session(session.id) == merged.session(session.id));
    assert(adopted.session(session.id) == app.session(session.id));
    assert forall|other: Seq<char>| other != session.id implies #[trigger] after.session(other)
        == app.session(other) by {
        assert(merged.session(other) == adopted.session(other));
        assert(adopted.session(other) == app.session(other));
    }
}

/// Behind the first complete list the registry knows only the threads that the list
/// held; later lists forget none.
pub proof fn law_the_first_list_cleans_the_registry(desk: Desk, x: Seq<char>)
    ensures
        ({
            let after = desk.list_completed().app.lifecycle;
            let before = desk.app.lifecycle;
            &&& !desk.app.initial_load_complete ==> after.initialized && (after.adopted.contains(x)
                <==> before.adopted.contains(x) && desk.app.initial_scan_seen.contains(x)) && (
            after.pinned.contains(x) <==> before.pinned.contains(x)
                && desk.app.initial_scan_seen.contains(x))
            &&& desk.app.initial_load_complete ==> after == before
        }),
{
    reveal(Desk::list_completed);
    let done = if desk.app.initial_load_complete {
        desk.on(desk.app.list_done())
    } else {
        desk.on(desk.app.scanned().list_done())
    };
    assert(done.app.lifecycle == (if desk.app.initial_load_complete {
        desk.app.lifecycle
    } else {
        desk.app.lifecycle.finish_initial_scan(desk.app.initial_scan_seen)
    })) by {
        reveal(AppView::list_done);
        reveal(AppView::scanned);
    }
    lemma_history(done);
    reveal(AppView::first_shown);
    reveal(AppView::noting);
}

/// The tokens of the composer are coloured: skills, images and pasted texts each in a
/// colour of their own, from where they begin to the space behind them.
pub proof fn law_tokens_are_coloured(look: Look, token: TokenView, byte: int)
    requires
        look.tokens == seq![token],
        byte >= 0,
        look.prefix_bytes >= 0,
    ensures
        ({
            let style = look.style_at(look.prefix_bytes + byte);
            let inside = token.start <= byte < token.style_end;
            &&& inside && token.kind is Skill ==> style.fg == Some(Color::Magenta)
            &&& inside && token.kind is Image ==> style.fg == Some(Color::Yellow)
            &&& inside && token.kind is PastedText ==> style.fg == Some(Color::Blue)
            &&& !inside ==> style == Style::plain()
        }),
{
    reveal_with_fuel(token_at, 2);
    assert(look.tokens.drop_first() =~= seq![]);
}

/// A pasted path is read without the quotation marks around it.
pub proof fn law_quoted_paths_are_read_without_quotes(path: Seq<char>)
    requires
        !path.contains('\\'),
        path.len() > 0,
        path[0] != '"',
        path[0] != '\'',
    ensures
        pasted_path(seq!['"'] + path + seq!['"']) == path,
        pasted_path(seq!['\''] + path + seq!['\'']) == path,
        pasted_path(path) == path,
{
    reveal_strlit("\\ ");
    lemma_no_backslash(path);
    assert((seq!['"'] + path + seq!['"']).subrange(1, path.len() as int + 1) =~= path);
    assert((seq!['\''] + path + seq!['\'']).subrange(1, path.len() as int + 1) =~= path);
}

proof fn lemma_no_backslash(text: Seq<char>)
    requires
        !text.contains('\\'),
    ensures
        replace_all(text, "\\ "@, " "@) == text,
    decreases text.len(),
{
    reveal_strlit("\\ ");
    if text.len() > 0 {
        assert(text.contains(text[0]));
        if begins_with(text, "\\ "@) {
            assert(text.take(2)[0] == '\\');
        }
        let rest = text.drop_first();
        assert(!rest.contains('\\')) by {
            if rest.contains('\\') {
                let i = choose|i: int| 0 <= i < rest.len() && rest[i] == '\\';
                assert(text[i + 1] == '\\');
            }
        }
        lemma_no_backslash(rest);
        assert(seq![text[0]] + rest =~= text);
    }
}

proof fn lemma_split_last(front: Seq<char>, name: Seq<char>)
    requires
        !name.contains('/'),
    ensures
        split_on(front + seq!['/'] + name, '/').last() == name,
        split_on(front + seq!['/'] + name, '/').len() > 0,
    decreases front.len(),
{
    let all = front + seq!['/'] + name;
    lemma_first_index(front, '/');
    lemma_first_index(all, '/');
    match first_index(front, '/') {
        Some(i) => {
            assert forall|j: int| 0 <= j < i implies all[j] != '/' by {
                assert(all[j] == front[j]);
            }
            assert(all[i] == '/');
            lemma_first_index_is(all, '/', i);
            assert(all.skip(i + 1) =~= front.skip(i + 1) + seq!['/'] + name);
            lemma_split_last(front.skip(i + 1), name);
        },
        None => {
            let n = front.len() as int;
            assert forall|j: int| 0 <= j < n implies all[j] != '/' by {
                assert(all[j] == front[j]);
            }
            assert(all[n] == '/');
            lemma_first_index_is(all, '/', n);
            assert(all.skip(n + 1) =~= name);
            lemma_first_index(name, '/');
            if let Some(i) = first_index(name, '/') {
                assert(name[i] == '/');
                assert(name.contains('/'));
            }
            assert(split_on(name, '/') == seq![name]);
        },
    }
}

/// The file name of a path is what follows its last slash.
pub proof fn law_file_names_follow_the_last_slash(front: Seq<char>, name: Seq<char>)
    requires
        !name.contains('/'),
        name.len() > 0,
        name != "."@,
        name != ".."@,
    ensures
        file_name(front + seq!['/'] + name) == Some(name),
{
    lemma_split_last(front, name);
}

/// A terminal's answer to a question for a colour gives its three channels.
pub proof fn law_answers_of_the_terminal_give_colours(
    prefix: Seq<char>,
    red: Seq<char>,
    green: Seq<char>,
    blue: Seq<char>,
)
    requires
        channel_value(red) is Some,
        channel_value(green) is Some,
        channel_value(blue) is Some,
        !red.contains('/'),
        !green.contains('/'),
        !blue.contains('/'),
        blue.len() > 0,
        blue.last() != '\x07',
        blue.last() != '\x1b',
    ensures
        osc_rgb(
            prefix + "rgb:"@ + (red + seq!['/'] + (green + seq!['/'] + blue)) + seq!['\x07'],
            prefix,
        ) == Some(
            Rgb {
                r: channel_value(red)->0 as u8,
                g: channel_value(green)->0 as u8,
                b: channel_value(blue)->0 as u8,
            },
        ),
{
    let value = red + seq!['/'] + (green + seq!['/'] + blue);
    let body = prefix + "rgb:"@ + value;
    let all = body + seq!['\x07'];
    let stops = seq!['\x07', '\x1b'];
    assert(stops[0] == '\x07');
    assert(stops.contains('\x07'));
    assert(all.drop_last() =~= body);
    assert(body.last() == blue.last());
    assert(!stops.contains(body.last()));
    assert(trim_end_of(body, stops) == body);
    assert(trim_end_of(all, stops) == body);
    assert(body.take(prefix.len() as int) =~= prefix);
    assert(body.skip(prefix.len() as int) =~= "rgb:"@ + value);
    let rest = "rgb:"@ + value;
    assert(rest.take("rgb:"@.len() as int) =~= "rgb:"@);
    assert(rest.skip("rgb:"@.len() as int) =~= value);
    lemma_split_first(red, green + seq!['/'] + blue);
    lemma_split_first(green, blue);
    lemma_no_split(blue);
    assert(split_on(value, '/') =~= seq![red, green, blue]);
}

proof fn lemma_no_split(text: Seq<char>)
    requires
        !text.contains('/'),
    ensures
        split_on(text, '/') == seq![text],
{
    lemma_first_index(text, '/');
    if let Some(i) = first_index(text, '/') {
        assert(text[i] == '/');
        assert(text.contains('/'));
    }
}

proof fn lemma_split_first(first: Seq<char>, rest: Seq<char>)
    requires
        !first.contains('/'),
    ensures
        split_on(first + seq!['/'] + rest, '/') == seq![first] + split_on(rest, '/'),
{
    let all = first + seq!['/'] + rest;
    let n = first.len() as int;
    assert(all[n] == '/');
    assert forall|j: int| 0 <= j < n implies all[j] != '/' by {
        assert(all[j] == first[j]);
        if all[j] == '/' {
            assert(first.contains('/'));
        }
    }
    lemma_first_index_is(all, '/', n);
    assert(all.take(n) =~= first);
    assert(all.skip(n + 1) =~= rest);
}

/// The part of a line between two of its columns is the clusters from the one that
/// covers the first column to the one that covers the last, and no others.
pub proof fn law_a_row_is_selected_by_whole_clusters(line: Seq<char>, first: int, last: int)
    requires
        0 <= first <= last < grapheme_clusters(line).len(),
    ensures
        ({
            let clusters = grapheme_clusters(line);
            let start = columns_before(clusters, first);
            let end = columns_before(clusters, last + 1);
            &&& text_between(line, start, end) == concat(clusters.subrange(first, last + 1))
            &&& forall|column: int|
                start <= column < columns_before(clusters, first + 1) ==> #[trigger] start_column(
                    line,
                    column,
                ) == start
            &&& forall|column: int|
                columns_before(clusters, last) <= column < end ==> #[trigger] end_column(
                    line,
                    column,
                ) == end
        }),
{
    let clusters = grapheme_clusters(line);
    lemma_between(clusters, first, last, clusters.len() as int);
    assert forall|column: int|
        columns_before(clusters, first) <= column < columns_before(clusters, first + 1) implies
        #[trigger] start_column(line, column) == columns_before(clusters, first) by {
        lemma_cluster_at(clusters, column, first, 0);
    }
    assert forall|column: int|
        columns_before(clusters, last) <= column < columns_before(clusters, last + 1) implies
        #[trigger] end_column(line, column) == columns_before(clusters, last + 1) by {
        lemma_cluster_at(clusters, column, last, 0);
    }
}

proof fn lemma_cluster_at(clusters: Seq<Seq<char>>, column: int, k: int, from: int)
    requires
        0 <= from <= k < clusters.len(),
        columns_before(clusters, k) <= column < columns_before(clusters, k + 1),
    ensures
        cluster_at(clusters, column, from) == k,
    decreases k - from,
{
    if from < k {
        lemma_columns_grow(clusters, from + 1, k);
        lemma_cluster_at(clusters, column, k, from + 1);
    }
}

proof fn lemma_between(clusters: Seq<Seq<char>>, first: int, last: int, count: int)
    requires
        0 <= first <= last < clusters.len(),
        0 <= count <= clusters.len(),
    ensures
        clusters_between(
            clusters,
            columns_before(clusters, first),
            columns_before(clusters, last + 1),
            count,
        ) == (if count <= first {
            Seq::<char>::empty()
        } else if count <= last + 1 {
            concat(clusters.subrange(first, count))
        } else {
            concat(clusters.subrange(first, last + 1))
        }),
    decreases count,
{
    if count > 0 {
        lemma_between(clusters, first, last, count - 1);
        let cluster = clusters[count - 1];
        if count <= first {
            lemma_columns_grow(clusters, count, first);
        } else if count <= last + 1 {
            lemma_columns_grow(clusters, first, count);
            lemma_columns_grow(clusters, count - 1, last + 1);
            let part = clusters.subrange(first, count);
            assert(part.drop_last() =~= clusters.subrange(first, count - 1));
            assert(part.last() == cluster);
            if count - 1 == first {
                assert(clusters.subrange(first, count - 1) =~= seq![]);
                assert(concat(clusters.subrange(first, count - 1)) =~= seq![]);
            }
        } else {
            lemma_columns_grow(clusters, last + 1, count - 1);
        }
    }
}

/// The home and end keys put the cursor at the ends of the text and change nothing of
/// it.
pub proof fn law_home_and_end_go_to_the_ends(desk: Desk, key: KeyEvent)
    requires
        at_dashboard(desk.app),
        is_plain(key),
        key.kind != KeyKind::Release,
        key.code == KeyCode::Home || key.code == KeyCode::End,
    ensures
        ({
            let after = desk.key(key).app.composer;
            &&& after.text == desk.app.composer.text
            &&& after.images == desk.app.composer.images
            &&& key.code == KeyCode::Home ==> after.cursor == 0
            &&& key.code == KeyCode::End ==> after.cursor == byte_len(desk.app.composer.text)
        }),
{
    lemma_edited(desk, key);
    reveal(AppView::edit_key);
    reveal(AppView::with_composer);
}

/// The backspace and delete keys edit the open composer, and do nothing while it is
/// hidden.
pub proof fn law_erasing_keys_edit_the_open_composer(desk: Desk, key: KeyEvent)
    requires
        at_dashboard(desk.app),
        is_plain(key),
        key.kind != KeyKind::Release,
        key.code == KeyCode::Backspace || key.code == KeyCode::Delete,
        desk.app.composer.text.len() > 0,
    ensures
        ({
            let after = desk.key(key).app;
            let before = desk.app.composer;
            &&& !desk.app.composer_open ==> after.composer == before
            &&& desk.app.composer_open && key.code == KeyCode::Backspace ==> after.composer
                == before.backspace()
            &&& desk.app.composer_open && key.code == KeyCode::Delete ==> after.composer
                == before.delete()
            &&& after.composer_open == desk.app.composer_open
        }),
{
    lemma_edited(desk, key);
    reveal(AppView::edit_key);
    reveal(AppView::erasing);
    reveal(AppView::with_composer);
    reveal(AppView::noting);
}

/// The enter and tab keys put the skill that is chosen into the composer, and the keys
/// up and down choose another, while the picker offers some.
pub proof fn law_the_picker_takes_the_chosen_skill(desk: Desk, key: KeyEvent, search: SkillSearch)
    requires
        at_dashboard(desk.app),
        is_plain(key),
        !key.modifiers.shift,
        key.kind != KeyKind::Release,
        key.code == KeyCode::Enter || key.code == KeyCode::Tab || key.code == KeyCode::Up
            || key.code == KeyCode::Down,
        desk.app.picking() == Some(search),
        0 <= desk.app.skill_selected < desk.app.offered_skills(search.query).len(),
    ensures
        ({
            let offered = desk.app.offered_skills(search.query);
            let chosen = offered[desk.app.skill_selected];
            let after = desk.key(key);
            &&& after.out == desk.out
            &&& key.code == KeyCode::Enter || key.code == KeyCode::Tab ==> after.app.composer
                == desk.app.composer.replace_with_skill(
                search.start,
                SkillView { name: chosen.name, path: chosen.path },
            )
            &&& key.code == KeyCode::Down && desk.app.skill_selected + 1 < offered.len()
                ==> after.app.skill_selected == desk.app.skill_selected + 1 && after.app.composer
                == desk.app.composer
            &&& key.code == KeyCode::Up && desk.app.skill_selected > 0 ==> after.app.skill_selected
                == desk.app.skill_selected - 1 && after.app.composer == desk.app.composer
            &&& after.app.sessions == desk.app.sessions
        }),
{
    let app = desk.app.disarmed(key);
    assert(app == (AppView {
        attach_right_armed: app.attach_right_armed,
        menu_left_armed: app.menu_left_armed,
        ctrl_x_armed: app.ctrl_x_armed,
        esc_armed: app.esc_armed,
        ..desk.app
    })) by {
        reveal(AppView::disarmed);
    }
    assert(app.picking() == desk.app.picking());
    assert(app.offered_skills(search.query) == desk.app.offered_skills(search.query));
    assert(desk.key(key) == desk.on(app.pick_key(search, key))) by {
        reveal(Desk::key);
        reveal(Desk::pressed);
        reveal(Desk::open_key);
        reveal(AppView::picker_takes);
    }
    reveal(AppView::pick_key);
    reveal(AppView::choosing);
    reveal(AppView::picked);
    reveal(AppView::unpicked);
    reveal(AppView::with_composer);
}

} // verus!
