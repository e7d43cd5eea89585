//! Which sessions are listed, in which order, and how they come back.

use vstd::prelude::*;

use crate::assoc::{law_put_then_lookup, lookup};
use crate::composer::ComposeTarget;
use crate::deck::{
    lemma_session_slot, matches_query, matching_sessions, mebibytes, preview_heading,
    questions_among, refreshed, session_slot, with_session, without_session,
};
use crate::desk::Desk;
use crate::item_laws::shows_message;
use crate::json::{JsonNumberView, JsonView};
use crate::model::{
    MessageKind, MessageView, PreviewVerbosity, protocol_status, SessionStatus, SessionView,
    thread_session,
};
use crate::order::{goes_before, law_sessions_are_shown_in_order, sessions_in_order, text_less};
use crate::params::{draft_input, list_params};
use crate::prompt_laws::sent_one;
use crate::reply_laws::{
    answers, lemma_answered, lemma_started, prompt_copy, sent_for, sent_params, succeeds,
};
use crate::state::{AppView, CallView, DraftView, MenuTab, MenuView};
use crate::text::{
    contains_text, decimal, first_index, lemma_first_index, lemma_first_index_is, lines_of, lower,
    strip_return, trim,
};
use crate::thread_laws::{
    lemma_gone, lemma_resorted, lemma_session_found, lemma_updated, listed_once, others_stay,
};

verus! {

/// A thread of the protocol is a session with the thread's own identifier, directory,
/// transcript, origin, time and status, and with nothing said in it yet. A thread
/// without an identifier is none.
pub proof fn law_threads_are_sessions(thread: JsonView)
    ensures
        thread.get_str("id"@) is None ==> thread_session(thread) is None,
        thread.get_str("id"@) matches Some(id) ==> (thread_session(thread) matches Some(session)
            && {
            &&& session.id == id
            &&& thread.get_str("cwd"@) matches Some(cwd) ==> session.cwd == cwd
            &&& thread.get_str("preview"@) matches Some(preview) ==> session.preview == preview
            &&& session.path == thread.get_str("path"@)
            &&& session.thread_source == thread.get_str("threadSource"@)
            &&& thread.get("recencyAt"@) matches Some(JsonView::Number(JsonNumberView::Integer(t)))
                ==> (i64::MIN <= t <= i64::MAX ==> session.updated_at == t)
            &&& thread.get("recencyAt"@) is None ==> (thread.get("updatedAt"@) matches Some(
                JsonView::Number(JsonNumberView::Integer(t)),
            ) ==> (i64::MIN <= t <= i64::MAX ==> session.updated_at == t))
            &&& thread.get("source"@) matches Some(JsonView::Text(source)) ==> session.source
                == source
            &&& thread.get("status"@) matches Some(status) ==> session.status == protocol_status(
                status,
            )
            &&& thread.get("status"@) is None ==> session.status == SessionStatus::Completed
            &&& session.active_turn_id is None
            &&& session.messages.len() == 0
            &&& !session.history_loaded
        }),
{
    reveal(thread_session);
    reveal(protocol_status);
}

/// The title of a session is the thread's name, or else the first line of its preview,
/// without the white space around it.
pub proof fn law_titles_come_from_names_or_previews(
    thread: JsonView,
    name: Seq<char>,
    line: Seq<char>,
    rest: Seq<char>,
)
    requires
        thread.get_str("id"@) is Some,
        trim(line).len() > 0,
        !line.contains('\n'),
        !line.contains('\r'),
    ensures
        thread.get_str("name"@) == Some(name) && trim(name).len() > 0 ==> thread_session(
            thread,
        )->0.title == trim(name),
        (thread.get_str("name"@) is None || trim(thread.get_str("name"@)->0).len() == 0)
            && thread.get_str("preview"@) == Some(line + seq!['\n'] + rest) ==> thread_session(
            thread,
        )->0.title == trim(line),
        (thread.get_str("name"@) is None || trim(thread.get_str("name"@)->0).len() == 0)
            && thread.get_str("preview"@) == Some(line) ==> thread_session(thread)->0.title == trim(
            line,
        ),
{
    reveal(thread_session);
    let all = line + seq!['\n'] + rest;
    let n = line.len() as int;
    assert(all[n] == '\n');
    assert forall|j: int| 0 <= j < n implies all[j] != '\n' by {
        assert(all[j] == line[j]);
        if all[j] == '\n' {
            assert(line.contains('\n'));
        }
    }
    lemma_first_index_is(all, '\n', n);
    assert(all.take(n) =~= line);
    assert(strip_return(line) == line) by {
        if line.len() > 0 && line.last() == '\r' {
            assert(line.contains('\r'));
        }
    }
    assert(lines_of(all)[0] == line);
    lemma_first_index(line, '\n');
    if let Some(i) = first_index(line, '\n') {
        assert(line[i] == '\n');
        assert(line.contains('\n'));
    }
    assert(lines_of(line) == seq![line]) by {
        if line.len() == 0 {
            assert(trim(line).len() == 0);
        }
    }
    assert(seq![line][0] == line);
}

/// The order of two sessions: pinned ones first, then those with a turn going on; then
/// those that need an answer, those that work, those that failed and those that are
/// done; then the one that changed last; then the one whose title comes first.
pub proof fn law_what_stands_before(a: SessionView, b: SessionView, pinned: Set<Seq<char>>)
    ensures
        ({
            let first = goes_before(a, b, pinned);
            let live = |s: SessionView|
                s.status == SessionStatus::NeedsInput || s.status == SessionStatus::Working;
            let alike = pinned.contains(a.id) == pinned.contains(b.id);
            &&& pinned.contains(a.id) && !pinned.contains(b.id) ==> first
            &&& !pinned.contains(a.id) && pinned.contains(b.id) ==> !first
            &&& alike && live(a) && !live(b) ==> first
            &&& alike && !live(a) && live(b) ==> !first
            &&& alike && a.status == SessionStatus::NeedsInput && b.status == SessionStatus::Working
                ==> first
            &&& alike && a.status == SessionStatus::Working && b.status == SessionStatus::NeedsInput
                ==> !first
            &&& alike && a.status == SessionStatus::Failed && b.status == SessionStatus::Completed
                ==> first
            &&& alike && a.status == SessionStatus::Completed && b.status == SessionStatus::Failed
                ==> !first
            &&& alike && a.status == b.status && a.updated_at > b.updated_at ==> first
            &&& alike && a.status == b.status && a.updated_at < b.updated_at ==> !first
            &&& alike && a.status == b.status && a.updated_at == b.updated_at ==> first
                == text_less(a.title, b.title)
        }),
{
}

/// Titles are compared character by character, and a shorter one comes first where the
/// other begins with it.
pub proof fn law_titles_are_compared_by_characters(
    front: Seq<char>,
    a: char,
    b: char,
    rest: Seq<char>,
    other: Seq<char>,
)
    ensures
        text_less(front + seq![a] + rest, front + seq![b] + other) == (a < b || (a == b
            && text_less(rest, other))),
        text_less(front, front + seq![a] + rest),
        !text_less(front, front),
    decreases front.len(),
{
    if front.len() > 0 {
        let tail = front.drop_first();
        law_titles_are_compared_by_characters(tail, a, b, rest, other);
        assert((front + seq![a] + rest).drop_first() =~= tail + seq![a] + rest);
        assert((front + seq![b] + other).drop_first() =~= tail + seq![b] + other);
    } else {
        assert((front + seq![a] + rest).drop_first() =~= rest);
        assert((front + seq![b] + other).drop_first() =~= other);
    }
}

proof fn lemma_pushed(app: AppView, session: SessionView)
    requires
        listed_once(app.sessions),
        app.session(session.id) is None,
    ensures
        ({
            let after = AppView { sessions: app.sessions.push(session), ..app };
            &&& listed_once(after.sessions)
            &&& after.session(session.id) == Some(session)
            &&& others_stay(app, after, session.id)
        }),
{
    let after = AppView { sessions: app.sessions.push(session), ..app };
    lemma_session_slot(app.sessions, session.id);
    assert(listed_once(after.sessions)) by {
        reveal(listed_once);
    }
    lemma_session_found(after, app.sessions.len() as int);
    assert forall|other: Seq<char>| other != session.id implies #[trigger] after.session(other)
        == app.session(other) by {
        lemma_session_slot(app.sessions, other);
        lemma_session_slot(after.sessions, other);
        if let Some(k) = session_slot(app.sessions, other) {
            assert(after.sessions[k] == app.sessions[k]);
            lemma_session_found(after, k);
        } else if let Some(k) = session_slot(after.sessions, other) {
            assert(after.sessions[k] == app.sessions[k]);
        }
    }
}

/// What merging a session leads to.
pub open spec fn is_merged(app: AppView, after: AppView, incoming: SessionView) -> bool {
    &&& listed_once(after.sessions)
    &&& others_stay(app, after, incoming.id)
    &&& after.session(incoming.id) == Some(
        match app.session(incoming.id) {
            Some(existing) => refreshed(existing, incoming),
            None => incoming,
        },
    )
    &&& after == (AppView { sessions: after.sessions, selected: after.selected, ..app })
}

proof fn lemma_merging_known(app: AppView, incoming: SessionView, i: int)
    requires
        listed_once(app.sessions),
        session_slot(app.sessions, incoming.id) == Some(i),
    ensures
        is_merged(app, app.merging(incoming), incoming),
{
    lemma_session_slot(app.sessions, incoming.id);
    let changed = refreshed(app.sessions[i], incoming);
    lemma_updated(app, i, changed);
    lemma_resorted(app.updating(i, changed));
    assert(app.merging(incoming) == app.updating(i, changed).resorted()) by {
        reveal(AppView::merging);
    }
}

proof fn lemma_merging_new(app: AppView, incoming: SessionView)
    requires
        listed_once(app.sessions),
        session_slot(app.sessions, incoming.id) is None,
    ensures
        is_merged(app, app.merging(incoming), incoming),
{
    let merged = AppView { sessions: app.sessions.push(incoming), ..app };
    lemma_pushed(app, incoming);
    lemma_resorted(merged);
    assert(app.merging(incoming) == merged.resorted()) by {
        reveal(AppView::merging);
    }
}

/// A session of the list that the app-server tells of anew.
pub proof fn lemma_merging(app: AppView, incoming: SessionView)
    requires
        listed_once(app.sessions),
    ensures
        is_merged(app, app.merging(incoming), incoming),
{
    match session_slot(app.sessions, incoming.id) {
        Some(i) => lemma_merging_known(app, incoming, i),
        None => lemma_merging_new(app, incoming),
    }
}

/// A session that is told of anew keeps its messages, its turn and its loaded history,
/// and takes everything else from the app-server.
pub proof fn law_told_sessions_keep_their_messages(existing: SessionView, incoming: SessionView)
    requires
        existing.id == incoming.id,
    ensures
        refreshed(existing, incoming) == (SessionView {
            messages: existing.messages,
            active_turn_id: existing.active_turn_id,
            history_loaded: existing.history_loaded,
            ..incoming
        }),
{
}

/// Whether a session belongs to the dashboard: it is in the registry, it has a turn
/// going on, or it is the dashboard's own while the registry is new.
pub open spec fn belongs(app: AppView, session: SessionView) -> bool {
    ||| app.lifecycle.adopted.contains(session.id)
    ||| session.status == SessionStatus::NeedsInput
    ||| session.status == SessionStatus::Working
    ||| !app.lifecycle.initialized && session.thread_source == Some("codex-deck"@)
}

/// A thread of the list is shown where it belongs to the dashboard, and then it is in
/// the registry; any other can be resumed from the menu. With all sessions shown, every
/// thread is.
pub proof fn law_listed_threads_are_shown_or_offered(app: AppView, thread: JsonView)
    requires
        listed_once(app.sessions),
        thread_session(thread) is Some,
    ensures
        ({
            let session = thread_session(thread)->0;
            let after = app.listing(thread);
            &&& belongs(app, session) ==> after.lifecycle == app.lifecycle.track(session.id)
                && after.lifecycle.adopted.contains(session.id)
            &&& !belongs(app, session) ==> after.lifecycle == app.lifecycle
            &&& belongs(app, session) || app.show_all ==> {
                &&& after.session(session.id) == Some(
                    match app.session(session.id) {
                        Some(existing) => refreshed(existing, session),
                        None => session,
                    },
                )
                &&& session_slot(after.history, session.id) is None
            }
            &&& !belongs(app, session) && !app.show_all ==> after.history.contains(session)
                && after.sessions == app.sessions
            &&& others_stay(app, after, session.id)
            &&& listed_once(after.sessions)
            &&& after.initial_scan_seen.contains(session.id)
        }),
{
    let session = thread_session(thread)->0;
    let seen = AppView { initial_scan_seen: app.initial_scan_seen.insert(session.id), ..app };
    assert(seen.should_track(session) == belongs(app, session)) by {
        reveal(AppView::should_track);
    }
    if belongs(app, session) {
        let known = AppView { lifecycle: seen.lifecycle.track(session.id), ..seen };
        assert(app.listing(thread) == known.placing(session)) by {
            reveal(AppView::listing);
        }
        assert(known.should_include(session)) by {
            reveal(AppView::should_include);
            reveal(AppView::should_track);
        }
        lemma_placed(known, session);
        lemma_same_sessions(app, known, known.placing(session), session.id);
    } else {
        assert(app.listing(thread) == seen.placing(session)) by {
            reveal(AppView::listing);
        }
        assert(seen.should_include(session) == app.show_all) by {
            reveal(AppView::should_include);
        }
        lemma_placed(seen, session);
        lemma_same_sessions(app, seen, seen.placing(session), session.id);
    }
}

proof fn lemma_same_sessions(app: AppView, same: AppView, after: AppView, id: Seq<char>)
    requires
        same.sessions == app.sessions,
        others_stay(same, after, id),
    ensures
        others_stay(app, after, id),
        same.session(id) == app.session(id),
{
    assert forall|other: Seq<char>| other != id implies #[trigger] after.session(other)
        == app.session(other) by {
        assert(same.session(other) == app.session(other));
    }
}

proof fn lemma_placed(app: AppView, session: SessionView)
    requires
        listed_once(app.sessions),
    ensures
        ({
            let after = app.placing(session);
            &&& after.lifecycle == app.lifecycle
            &&& after.initial_scan_seen == app.initial_scan_seen
            &&& listed_once(after.sessions)
            &&& others_stay(app, after, session.id)
            &&& app.should_include(session) ==> after.session(session.id) == Some(
                match app.session(session.id) {
                    Some(existing) => refreshed(existing, session),
                    None => session,
                },
            ) && session_slot(after.history, session.id) is None
            &&& !app.should_include(session) ==> after.history.contains(session) && after.sessions
                == app.sessions
        }),
{
    let after = app.placing(session);
    if app.should_include(session) {
        lemma_merging(app, session);
        let merged = app.merging(session);
        lemma_gone(merged.history, session.id);
        assert(after == (AppView {
            history: without_session(merged.history, session.id),
            ..merged
        })) by {
            reveal(AppView::placing);
            reveal(AppView::unlisted);
        }
        assert forall|x: Seq<char>| #[trigger] after.session(x) == merged.session(x) by {}
        lemma_same_after(app, merged, after, session.id);
    } else {
        assert(after == (AppView { history: with_session(app.history, session), ..app })) by {
            reveal(AppView::placing);
        }
        lemma_session_slot(app.history, session.id);
        let history = with_session(app.history, session);
        match session_slot(app.history, session.id) {
            Some(i) => {
                assert(history[i] == session);
            },
            None => {
                assert(history[app.history.len() as int] == session);
            },
        }
        assert forall|x: Seq<char>| #[trigger] after.session(x) == app.session(x) by {}
    }
}

proof fn lemma_same_after(app: AppView, merged: AppView, after: AppView, id: Seq<char>)
    requires
        after.sessions == merged.sessions,
        others_stay(app, merged, id),
    ensures
        others_stay(app, after, id),
{
    assert forall|other: Seq<char>| other != id implies #[trigger] after.session(other)
        == app.session(other) by {
        assert(merged.session(other) == app.session(other));
    }
}

proof fn lemma_listing_all(app: AppView, threads: Seq<JsonView>, k: int)
    requires
        listed_once(app.sessions),
        0 <= k < threads.len(),
        thread_session(threads[k]) matches Some(session) && (session.status
            == SessionStatus::Working || session.status == SessionStatus::NeedsInput),
    ensures
        ({
            let after = app.listing_all(threads);
            let id = thread_session(threads[k])->0.id;
            &&& listed_once(after.sessions)
            &&& after.session(id) is Some
            &&& after.lifecycle.adopted.contains(id)
        }),
    decreases threads.len(),
{
    reveal_with_fuel(AppView::listing_all, 2);
    let front = threads.drop_last();
    let before = app.listing_all(front);
    let last = threads.last();
    lemma_listing_once(app, front);
    let id = thread_session(threads[k])->0.id;
    if k < front.len() {
        assert(front[k] == threads[k]);
        lemma_listing_all(app, front, k);
    }
    match thread_session(last) {
        Some(session) => {
            law_listed_threads_are_shown_or_offered(before, last);
            lemma_listing_keeps(before, last, id);
        },
        None => {
            reveal(AppView::listing);
        },
    }
}

proof fn lemma_listing_keeps(app: AppView, thread: JsonView, id: Seq<char>)
    requires
        listed_once(app.sessions),
        thread_session(thread) is Some,
    ensures
        app.session(id) is Some ==> app.listing(thread).session(id) is Some,
        app.lifecycle.adopted.contains(id) ==> app.listing(thread).lifecycle.adopted.contains(id),
{
    let session = thread_session(thread)->0;
    law_listed_threads_are_shown_or_offered(app, thread);
    let after = app.listing(thread);
    if id != session.id {
        assert(after.session(id) == app.session(id));
    }
}

proof fn lemma_listing_once(app: AppView, threads: Seq<JsonView>)
    requires
        listed_once(app.sessions),
    ensures
        listed_once(app.listing_all(threads).sessions),
    decreases threads.len(),
{
    reveal_with_fuel(AppView::listing_all, 2);
    if threads.len() > 0 {
        let front = threads.drop_last();
        lemma_listing_once(app, front);
        let before = app.listing_all(front);
        match thread_session(threads.last()) {
            Some(session) => {
                law_listed_threads_are_shown_or_offered(before, threads.last());
            },
            None => {
                reveal(AppView::listing);
            },
        }
    }
}

/// Every thread of a list that works or waits is shown and in the registry, wherever in
/// the list it stands.
pub proof fn law_active_threads_of_a_list_are_shown(
    app: AppView,
    result: JsonView,
    threads: Seq<JsonView>,
    k: int,
)
    requires
        listed_once(app.sessions),
        result.get("data"@) == Some(JsonView::Array(threads)),
        0 <= k < threads.len(),
        thread_session(threads[k]) matches Some(session) && (session.status
            == SessionStatus::Working || session.status == SessionStatus::NeedsInput),
    ensures
        ({
            let after = app.merging_list(result);
            let id = thread_session(threads[k])->0.id;
            &&& after.session(id) is Some
            &&& after.lifecycle.adopted.contains(id)
        }),
{
    lemma_listing_all(app, threads, k);
    let listed = app.listing_all(threads);
    let id = thread_session(threads[k])->0.id;
    reveal(AppView::merging_list);
    assert(listed.sorted().session(id) is Some && listed.sorted().lifecycle == listed.lifecycle) by {
        broadcast use vstd::seq_lib::group_to_multiset_ensures;

        reveal(AppView::sorted);
        law_sessions_are_shown_in_order(listed.sessions, listed.lifecycle.pinned);
        let sorted = sessions_in_order(listed.sessions, listed.lifecycle.pinned);
        lemma_session_slot(listed.sessions, id);
        lemma_session_slot(sorted, id);
        let i = session_slot(listed.sessions, id)->0;
        assert(listed.sessions.contains(listed.sessions[i]));
        assert(listed.sessions.to_multiset().count(listed.sessions[i]) > 0);
        assert(sorted.contains(listed.sessions[i]));
        let j = choose|j: int| 0 <= j < sorted.len() && sorted[j] == listed.sessions[i];
        assert(sorted[j].id == id);
    }
    reveal(AppView::selecting);
}

/// While the first list is read, each page that names a next one is followed by a
/// request for that one; the last page ends the list.
pub proof fn law_pages_follow_each_other(
    desk: Desk,
    message: JsonView,
    number: u64,
    paginate: bool,
    result: JsonView,
)
    requires
        answers(desk, message, number, CallView::ThreadList { paginate }),
        succeeds(message, result),
    ensures
        desk.received(message) matches Ok(after) && {
            let next = result.get_str("nextCursor"@);
            &&& paginate && next is Some ==> sent_one(
                desk.out,
                after.out,
                "thread/list"@,
                list_params(next),
            ) && lookup(after.app.pending_calls, desk.out.next_id) == Some(
                CallView::ThreadList { paginate: true },
            ) && after.app.initial_load_complete == desk.app.initial_load_complete
            &&& !paginate || next is None ==> after.app.initial_load_complete
                && !after.app.list_inflight
        },
{
    let call = CallView::ThreadList { paginate };
    lemma_answered(desk, message, number, call, result);
    reveal(Desk::answered);
    reveal(Desk::listed);
    let rest = desk.on(desk.app.settled(number));
    let merged = rest.on(rest.app.merging_list(result));
    lemma_list_keeps(rest.app, result);
    match (paginate, result.get_str("nextCursor"@)) {
        (true, Some(cursor)) => {
            let text = "Loading "@ + decimal(merged.app.sessions.len()) + " sessions…"@;
            let noted = merged.on(merged.app.noting(text));
            assert(noted.app == (AppView { notice: text, ..merged.app })) by {
                reveal(AppView::noting);
            }
            reveal(Desk::listing);
            reveal(Desk::calling);
            reveal(AppView::calling);
            reveal(AppView::list_sent);
            law_put_then_lookup(
                noted.app.pending_calls,
                desk.out.next_id,
                CallView::ThreadList { paginate: true },
                desk.out.next_id,
            );
        },
        _ => {
            lemma_list_completed(merged);
        },
    }
}

proof fn lemma_list_completed(desk: Desk)
    ensures
        desk.list_completed().app.initial_load_complete,
        !desk.list_completed().app.list_inflight,
{
    reveal(Desk::list_completed);
    let done = if desk.app.initial_load_complete {
        desk.on(desk.app.list_done())
    } else {
        desk.on(desk.app.scanned().list_done())
    };
    assert(done.app.initial_load_complete && !done.app.list_inflight) by {
        reveal(AppView::list_done);
        reveal(AppView::scanned);
    }
    let ensured = done.ensuring_history();
    assert(ensured.app.initial_load_complete && !ensured.app.list_inflight) by {
        reveal(Desk::ensuring_history);
        reveal(Desk::loading);
        reveal(Desk::reading);
        reveal(Desk::calling);
        reveal(AppView::calling);
        reveal(AppView::wanting_history);
    }
    reveal(AppView::first_shown);
    reveal(AppView::noting);
}

proof fn lemma_list_keeps(app: AppView, result: JsonView)
    ensures
        app.merging_list(result).initial_load_complete == app.initial_load_complete,
{
    reveal(AppView::merging_list);
    lemma_listing_all_keeps(app, result.get_items("data"@));
    reveal(AppView::sorted);
    reveal(AppView::selecting);
}

proof fn lemma_listing_all_keeps(app: AppView, threads: Seq<JsonView>)
    ensures
        app.listing_all(threads).initial_load_complete == app.initial_load_complete,
    decreases threads.len(),
{
    reveal_with_fuel(AppView::listing_all, 2);
    if threads.len() > 0 {
        lemma_listing_all_keeps(app, threads.drop_last());
        let before = app.listing_all(threads.drop_last());
        reveal(AppView::listing);
        reveal(AppView::placing);
        reveal(AppView::unlisted);
        reveal(AppView::merging);
        reveal(AppView::resorted);
        reveal(AppView::sorted);
        reveal(AppView::selecting);
    }
}

/// A new task whose thread has started is a session of the dashboard: it is selected,
/// and its first turn is started with the prompt that was written.
pub proof fn law_started_tasks_begin_their_turn(
    desk: Desk,
    message: JsonView,
    number: u64,
    draft: DraftView,
    result: JsonView,
    thread: JsonView,
    session: SessionView,
)
    requires
        listed_once(desk.app.sessions),
        answers(desk, message, number, CallView::ThreadStart { draft }),
        succeeds(message, result),
        result.get("thread"@) == Some(thread),
        thread_session(thread) == Some(session),
    ensures
        desk.received(message) matches Ok(after) && {
            &&& sent_for(desk.out, after.out, "turn/start"@, session.id)
            &&& sent_params(after.out).get("input"@) == Some(JsonView::Array(draft_input(draft)))
            &&& after.app.session(session.id) matches Some(shown) && shown.status
                == SessionStatus::Working && shows_message(
                shown.messages,
                prompt_copy(desk.out.next_id, draft),
            )
            &&& after.app.lifecycle.adopted.contains(session.id)
            &&& others_stay(desk.app, after.app, session.id)
            &&& after.app.composer.target == ComposeTarget::Reply
        },
{
    let call = CallView::ThreadStart { draft };
    lemma_answered(desk, message, number, call, result);
    reveal(Desk::answered);
    reveal(Desk::task_started);
    let rest = desk.on(desk.app.settled(number));
    lemma_task_shown(rest.app, session);
    let shown = rest.on(rest.app.task_shown(session));
    lemma_started(shown, session.id, draft);
    let after = shown.starting_turn(session.id, draft);
    assert forall|other: Seq<char>| other != session.id implies #[trigger] after.app.session(other)
        == desk.app.session(other) by {
        assert(shown.app.session(other) == rest.app.session(other));
        assert(rest.app.session(other) == desk.app.session(other));
    }
}

proof fn lemma_task_shown(app: AppView, session: SessionView)
    requires
        listed_once(app.sessions),
    ensures
        ({
            let after = app.task_shown(session);
            &&& listed_once(after.sessions)
            &&& after.session(session.id) is Some
            &&& others_stay(app, after, session.id)
            &&& after.lifecycle.adopted.contains(session.id)
            &&& after.composer.target == ComposeTarget::Reply
        }),
{
    reveal(AppView::task_shown);
    let adopted = app.adopting(session.id);
    assert(adopted.sessions == app.sessions && adopted.lifecycle.adopted.contains(session.id)) by {
        reveal(AppView::adopting);
    }
    lemma_merging(adopted, session);
    let merged = adopted.merging(session);
    let cached = merged.caching_draft();
    assert(cached.sessions == merged.sessions && cached.lifecycle == merged.lifecycle) by {
        reveal(AppView::caching_draft);
    }
    let chosen = cached.selecting(session.id);
    assert(chosen.sessions == cached.sessions && chosen.lifecycle == cached.lifecycle) by {
        reveal(AppView::selecting);
    }
    reveal(AppView::with_reply_draft);
    let after = app.task_shown(session);
    assert forall|other: Seq<char>| other != session.id implies #[trigger] after.session(other)
        == app.session(other) by {
        assert(merged.session(other) == adopted.session(other));
        assert(adopted.session(other) == app.session(other));
    }
}

/// The menu offers the sessions of its history whose title or directory holds what is
/// searched for, whatever the case, and no others.
pub proof fn law_the_menu_offers_what_is_searched_for(
    history: Seq<SessionView>,
    query: Seq<char>,
    session: SessionView,
)
    ensures
        matching_sessions(history, query).contains(session) <==> history.contains(session) && (
        contains_text(lower(session.title), lower(query)) || contains_text(
            lower(session.cwd),
            lower(query),
        )),
    decreases history.len(),
{
    if history.len() > 0 {
        let front = history.drop_last();
        law_the_menu_offers_what_is_searched_for(front, query, session);
        let before = matching_sessions(front, query);
        let all = matching_sessions(history, query);
        assert(history[history.len() - 1] == history.last());
        if history.contains(session) {
            let i = choose|i: int| 0 <= i < history.len() && history[i] == session;
            if i < front.len() {
                assert(front[i] == session);
            }
        }
        if front.contains(session) {
            let i = choose|i: int| 0 <= i < front.len() && front[i] == session;
            assert(history[i] == session);
        }
        if before.contains(session) {
            let i = choose|i: int| 0 <= i < before.len() && before[i] == session;
            assert(all[i] == session);
        }
        if matches_query(history.last(), query) {
            assert(all[before.len() as int] == history.last());
        }
        if all.contains(session) {
            let i = choose|i: int| 0 <= i < all.len() && all[i] == session;
            if i < before.len() {
                assert(before[i] == session);
            }
        }
    }
}

/// A session that is resumed from the menu is listed and selected, in the registry and
/// no longer in the menu. The menu gives way to the composer, open on the reply to it.
pub proof fn law_resumed_sessions_are_ready_for_a_reply(app: AppView, session: SessionView)
    requires
        listed_once(app.sessions),
    ensures
        ({
            let after = app.brought_back(session);
            &&& after.session(session.id) is Some
            &&& after.selected_id() == Some(session.id)
            &&& after.lifecycle.adopted.contains(session.id)
            &&& session_slot(after.history, session.id) is None
            &&& after.menu is None
            &&& after.composer_open
            &&& after.composer.target == ComposeTarget::Reply
            &&& after.notice == "Added "@ + session.title
            &&& others_stay(app, after, session.id)
        }),
{
    reveal(AppView::brought_back);
    let rested = app.at_rest().caching_draft();
    assert(rested.sessions == app.sessions && rested.history == app.history) by {
        reveal(AppView::at_rest);
        reveal(AppView::without_rename);
        reveal(AppView::caching_draft);
    }
    let adopted = rested.adopting(session.id);
    assert(adopted.sessions == app.sessions && adopted.history == app.history
        && adopted.lifecycle.adopted.contains(session.id)) by {
        reveal(AppView::adopting);
    }
    lemma_merging(adopted, session);
    let merged = adopted.merging(session);
    let unlisted = merged.unlisted(session.id);
    assert(unlisted == (AppView {
        history: without_session(merged.history, session.id),
        ..merged
    })) by {
        reveal(AppView::unlisted);
    }
    lemma_gone(merged.history, session.id);
    let chosen = unlisted.selecting(session.id);
    lemma_session_slot(unlisted.sessions, session.id);
    assert(chosen.selected_id() == Some(session.id) && chosen == (AppView {
        selected: chosen.selected,
        ..unlisted
    })) by {
        assert(unlisted.session(session.id) == merged.session(session.id));
        reveal(AppView::selecting);
    }
    reveal(AppView::with_reply_draft);
    reveal(AppView::menu_left);
    reveal(AppView::noting);
    let after = app.brought_back(session);
    assert(after.sessions == chosen.sessions && after.selected == chosen.selected);
    assert(after.session(session.id) == merged.session(session.id));
    assert forall|other: Seq<char>| other != session.id implies #[trigger] after.session(other)
        == app.session(other) by {
        assert(merged.session(other) == adopted.session(other));
        assert(adopted.session(other) == app.session(other));
    }
}

/// The preview level that is chosen in the menu is the one in use from then on, and the
/// menu is closed.
pub proof fn law_chosen_levels_are_used(desk: Desk, menu: MenuView)
    requires
        menu.tab == MenuTab::Settings,
    ensures
        desk.menu_chosen(menu).app.lifecycle.verbosity == menu.verbosity,
        desk.menu_chosen(menu).app.menu is None,
        desk.menu_chosen(menu).out == desk.out,
        desk.menu_chosen(menu).app.sessions == desk.app.sessions,
        menu.above().verbosity == (match menu.verbosity {
            PreviewVerbosity::Final => PreviewVerbosity::Progress,
            _ => PreviewVerbosity::Full,
        }),
        forall|count: nat| (#[trigger] menu.below(count)).verbosity == (match menu.verbosity {
            PreviewVerbosity::Full => PreviewVerbosity::Progress,
            _ => PreviewVerbosity::Final,
        }),
        menu.other_tab().tab == MenuTab::Resume,
        menu.other_tab().other_tab() == menu,
{
    reveal(Desk::menu_chosen);
    reveal(AppView::with_level);
    reveal(AppView::noting);
}

/// The end of a large transcript is shown below a heading with its size, and above the
/// questions that the session showed.
pub proof fn law_previews_keep_open_questions(
    app: AppView,
    id: Seq<char>,
    bytes: nat,
    messages: Seq<MessageView>,
)
    requires
        listed_once(app.sessions),
        app.session(id) is Some,
    ensures
        app.preview_shown(id, bytes, messages).session(id) matches Some(session) && {
            let count = messages.len() as int;
            let before = app.session(id)->0.messages;
            &&& session.messages.len() > count
            &&& session.messages[0].kind == MessageKind::System
            &&& session.messages.subrange(1, count + 1) == messages
            &&& session.messages.skip(count + 1) == questions_among(before)
            &&& session.history_loaded
        },
        app.preview_shown(id, bytes, messages).notice == "Large session: bounded preview"@,
        others_stay(app, app.preview_shown(id, bytes, messages), id),
{
    reveal(AppView::preview_shown);
    reveal(AppView::with_messages);
    reveal(AppView::at_end);
    reveal(AppView::noting);
    lemma_session_slot(app.sessions, id);
    let k = session_slot(app.sessions, id)->0;
    let all = seq![preview_heading(bytes)] + messages + app.questions_of(id);
    let changed = SessionView { messages: all, history_loaded: true, ..app.sessions[k] };
    lemma_updated(app, k, changed);
    assert(all.subrange(1, messages.len() as int + 1) =~= messages);
    assert(all.skip(messages.len() as int + 1) =~= questions_among(app.sessions[k].messages));
    let after = app.preview_shown(id, bytes, messages);
    assert(forall|x: Seq<char>| #[trigger]
        after.session(x) == app.updating(k, changed).session(x));
}

/// The questions among some messages are those of the kind of a question, in order.
pub proof fn law_questions_are_kept_in_order(messages: Seq<MessageView>, message: MessageView)
    ensures
        message.kind == MessageKind::Question ==> questions_among(messages.push(message))
            == questions_among(messages).push(message),
        message.kind != MessageKind::Question ==> questions_among(messages.push(message))
            == questions_among(messages),
        questions_among(seq![]).len() == 0,
{
    assert(messages.push(message).drop_last() =~= messages);
}

/// A size is told in mebibytes to the nearest tenth.
pub proof fn law_sizes_are_told_to_the_nearest_tenth(bytes: nat)
    ensures
        exists|tenths: nat|
            mebibytes(bytes) == #[trigger] decimal(tenths / 10) + "."@ + decimal(tenths % 10)
                && -524288 <= bytes * 10 - tenths * 1048576 <= 524288,
{
    let scaled = bytes * 10;
    let tenths = scaled / 1048576;
    let rest = scaled % 1048576;
    let rounded = if rest > 524288 || (rest == 524288 && tenths % 2 == 1) {
        tenths + 1
    } else {
        tenths
    };
    assert(mebibytes(bytes) == decimal(rounded / 10) + "."@ + decimal(rounded % 10));
    assert(scaled == tenths * 1048576 + rest);
}

} // verus!
