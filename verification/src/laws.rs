//! What the dashboard keeps to, whatever its state.

use vstd::prelude::*;

use crate::assoc::{law_put_then_lookup, law_what_is_taken_away_is_gone, lookup, put};
use crate::composer::{ComposerView, ComposeTarget};
use crate::deck::{
    lemma_session_slot, local_answer, member_or_null, request_slot, restored, session_slot,
    with_session, without_session,
};
use crate::desk::{answered_number, Desk};
use crate::json::JsonView;
use crate::keys::{KeyCode, KeyEvent, KeyKind};
use crate::model::{or_empty, protocol_status, SessionView, status_is_live};
use crate::order::{law_sessions_are_shown_in_order, sessions_in_order};
use crate::params::{answer_value, skills_params, start_params};
use crate::protocol::RequestKindView;
use crate::rpc::OutgoingView;
use crate::state::{AppError, AppView, CallView};
use crate::text::{lemma_index_at, lemma_offset_ends, lemma_trimmed_twice};

verus! {

/// A reply draft is kept under its session, and no other draft changes: it is
/// found again when the session is selected again.
pub proof fn law_reply_drafts_stay_with_their_sessions(
    app: AppView,
    id: Seq<char>,
    other: Seq<char>,
)
    requires
        app.composer.target == ComposeTarget::Reply,
        app.selected_id() == Some(id),
        other != id,
    ensures
        app.caching_draft().with_reply_draft(id).composer == app.composer,
        lookup(app.caching_draft().reply_drafts, other) == lookup(app.reply_drafts, other),
        app.caching_draft().new_draft == app.new_draft,
{
    reveal(AppView::caching_draft);
    reveal(AppView::with_reply_draft);
    law_put_then_lookup(app.reply_drafts, id, app.composer, other);
}

/// What loading a history leaves alone.
proof fn lemma_ensuring_history(desk: Desk)
    ensures
        ({
            let done = desk.ensuring_history().app;
            &&& done.sessions == desk.app.sessions
            &&& done.selected == desk.app.selected
            &&& done.composer == desk.app.composer
            &&& done.new_draft == desk.app.new_draft
            &&& done.reply_drafts == desk.app.reply_drafts
        }),
{
    reveal(Desk::ensuring_history);
    reveal(Desk::loading);
    reveal(Desk::reading);
    reveal(Desk::calling);
    reveal(AppView::calling);
    reveal(AppView::wanting_history);
}

/// The draft of a reply to a session: the one that was kept, or an empty one.
pub open spec fn kept_reply(app: AppView, id: Seq<char>) -> ComposerView {
    match lookup(app.reply_drafts, id) {
        Some(draft) => ComposerView { target: ComposeTarget::Reply, ..draft },
        None => ComposerView::empty(ComposeTarget::Reply),
    }
}

/// One step of the selection while a reply is written: the next session is
/// selected with its own draft, and the draft of the one before is kept.
proof fn lemma_reply_step(desk: Desk, delta: int)
    requires
        desk.app.composer.target == ComposeTarget::Reply,
        delta == 1 || delta == -1,
        0 <= desk.app.selected < desk.app.sessions.len() <= usize::MAX,
        0 <= desk.app.selected + delta < desk.app.sessions.len(),
    ensures
        ({
            let id = desk.app.sessions[desk.app.selected].id;
            let there = desk.moving_selection(delta).app;
            let kept = put(desk.app.reply_drafts, id, desk.app.composer);
            &&& there.sessions == desk.app.sessions
            &&& there.selected == desk.app.selected + delta
            &&& there.reply_drafts == kept
            &&& there.new_draft == desk.app.new_draft
            &&& there.composer == kept_reply(there, there.sessions[there.selected].id)
        }),
{
    reveal(Desk::moving_selection);
    reveal(AppView::at_rest);
    reveal(AppView::moved);
    reveal(AppView::caching_draft);
    reveal(AppView::stepped);
    reveal(AppView::with_selected_draft);
    reveal(AppView::with_reply_draft);
    reveal(AppView::at_end);
    lemma_ensuring_history(desk.on(desk.app.moved(delta)));
}

/// Moving the selection to a neighbour and back restores the reply draft, whatever
/// is written to the neighbour in between; going there once more brings that back.
/// A session that was never replied to starts with an empty draft.
pub proof fn law_there_and_back_restores_the_reply_draft(
    desk: Desk,
    delta: int,
    written: ComposerView,
)
    requires
        desk.app.composer.target == ComposeTarget::Reply,
        delta == 1 || delta == -1,
        0 <= desk.app.selected < desk.app.sessions.len() <= usize::MAX,
        0 <= desk.app.selected + delta < desk.app.sessions.len(),
        desk.app.sessions[desk.app.selected].id != desk.app.sessions[desk.app.selected + delta].id,
        written.target == ComposeTarget::Reply,
    ensures
        ({
            let neighbour = desk.app.sessions[desk.app.selected + delta].id;
            let there = desk.moving_selection(delta);
            let back = there.on(there.app.with_composer(written)).moving_selection(-delta);
            let again = back.moving_selection(delta);
            &&& there.app.selected_id() == Some(neighbour)
            &&& there.app.composer == kept_reply(desk.app, neighbour)
            &&& back.app.selected_id() == desk.app.selected_id()
            &&& back.app.composer == desk.app.composer
            &&& again.app.selected_id() == Some(neighbour)
            &&& again.app.composer == written
        }),
{
    let id = desk.app.sessions[desk.app.selected].id;
    let neighbour = desk.app.sessions[desk.app.selected + delta].id;
    let there = desk.moving_selection(delta);
    let writing = there.on(there.app.with_composer(written));
    let back = writing.moving_selection(-delta);
    lemma_reply_step(desk, delta);
    law_put_then_lookup(desk.app.reply_drafts, id, desk.app.composer, neighbour);
    reveal(AppView::with_composer);
    lemma_reply_step(writing, -delta);
    law_put_then_lookup(writing.app.reply_drafts, neighbour, written, id);
    lemma_reply_step(back, delta);
    law_put_then_lookup(back.app.reply_drafts, id, back.app.composer, neighbour);
}

/// The draft of a new task is kept apart from the replies, and is found again.
pub proof fn law_the_new_draft_is_kept_apart(app: AppView)
    requires
        app.composer.target == ComposeTarget::NewTask,
    ensures
        app.caching_draft().with_new_draft().composer == app.composer,
        app.caching_draft().reply_drafts == app.reply_drafts,
{
    reveal(AppView::caching_draft);
    reveal(AppView::with_new_draft);
}

/// The tab key twice leads back to the same draft.
pub proof fn law_tab_twice_restores_the_draft(app: AppView)
    requires
        app.composer.target != ComposeTarget::Rename,
        app.sessions.len() > 0,
    ensures
        app.toggling_target().toggling_target().composer == app.composer,
{
    reveal(AppView::toggling_target);
    reveal(AppView::switching_to_new);
    let cached = app.caching_draft();
    lemma_caching(app);
    if app.composer.target == ComposeTarget::NewTask {
        let first = cached.with_selected_draft();
        lemma_selected_draft(cached);
        lemma_caching(first);
        lemma_new_draft(first.caching_draft());
    } else {
        let id = app.selected_id()->0;
        let first = cached.with_new_draft();
        law_put_then_lookup(app.reply_drafts, id, app.composer, id);
        lemma_new_draft(cached);
        lemma_caching(first);
        lemma_selected_draft(first.caching_draft());
    }
}

proof fn lemma_caching(app: AppView)
    ensures
        ({
            let cached = app.caching_draft();
            &&& cached.composer == app.composer
            &&& cached.sessions == app.sessions
            &&& cached.selected == app.selected
            &&& cached.new_draft == (if app.composer.target == ComposeTarget::NewTask {
                app.composer
            } else {
                app.new_draft
            })
            &&& cached.reply_drafts == (match app.selected_id() {
                Some(id) => if app.composer.target == ComposeTarget::Reply {
                    put(app.reply_drafts, id, app.composer)
                } else {
                    app.reply_drafts
                },
                None => app.reply_drafts,
            })
        }),
{
    reveal(AppView::caching_draft);
}

proof fn lemma_new_draft(app: AppView)
    ensures
        ({
            let turned = app.with_new_draft();
            &&& turned.composer == (ComposerView {
                target: ComposeTarget::NewTask,
                ..app.new_draft
            })
            &&& turned.sessions == app.sessions
            &&& turned.selected == app.selected
            &&& turned.reply_drafts == app.reply_drafts
        }),
{
    reveal(AppView::with_new_draft);
}

proof fn lemma_selected_draft(app: AppView)
    requires
        app.sessions.len() > 0,
    ensures
        ({
            let turned = app.with_selected_draft();
            &&& turned.composer.target == ComposeTarget::Reply
            &&& lookup(app.reply_drafts, app.selected_id()->0) matches Some(draft)
                ==> turned.composer == (ComposerView { target: ComposeTarget::Reply, ..draft })
            &&& turned.new_draft == app.new_draft
        }),
{
    reveal(AppView::with_selected_draft);
    reveal(AppView::with_reply_draft);
}

/// The escape key closes the composer and keeps its draft, cursor and images.
pub proof fn law_escape_keeps_the_draft(app: AppView, key: KeyEvent)
    requires
        app.composer_open,
        app.composer.target != ComposeTarget::Rename,
    ensures
        app.escaping(key) == (AppView { composer_open: false, esc_armed: false, ..app }),
{
    reveal(AppView::escaping);
}

/// A rename that is given up leaves the draft as it was, and the composer open or
/// hidden as it was.
pub proof fn law_a_cancelled_rename_restores_the_composer(app: AppView)
    requires
        app.composer.target != ComposeTarget::Rename,
        app.sessions.len() > 0,
    ensures
        app.renaming().without_rename().composer == app.composer,
        app.renaming().without_rename().composer_open == app.composer_open,
        app.renaming().without_rename().reply_drafts == app.reply_drafts,
        app.renaming().without_rename().new_draft == app.new_draft,
{
    reveal(AppView::renaming);
    reveal(AppView::without_rename);
    reveal(AppView::noting);
}

/// Attaching takes two presses: the first asks for nothing, and the second asks for
/// the selected session.
pub proof fn law_attaching_takes_two_presses(app: AppView)
    requires
        !app.attach_right_armed,
        app.sessions.len() > 0,
    ensures
        app.confirming_attach().attach_requested == app.attach_requested,
        app.confirming_attach().confirming_attach().attach_requested matches Some(request)
            && Some(request.thread_id) == app.selected_id(),
{
    reveal(AppView::confirming_attach);
    reveal(AppView::attaching);
    reveal(AppView::adopting);
    reveal(AppView::noting);
}

/// Holding the right key down confirms nothing: a repeated key changes nothing.
pub proof fn law_a_held_key_attaches_nothing(app: AppView, key: KeyEvent)
    requires
        app.arrows_are_free(key),
        key.kind != KeyKind::Press,
    ensures
        app.right_key(key) == app,
        app.left_key(key) == app,
{
    reveal(AppView::right_key);
    reveal(AppView::left_key);
}

/// Stopping or removing a session takes two presses: the first sends nothing and
/// leaves the sessions alone.
pub proof fn law_stopping_takes_two_presses(desk: Desk, key: KeyEvent)
    requires
        desk.app.selected_id() is Some,
        desk.app.ctrl_x_armed != desk.app.selected_id(),
        key.kind == KeyKind::Press,
    ensures
        desk.confirming_stop(key) == desk.on(
            AppView { ctrl_x_armed: desk.app.selected_id(), ..desk.app },
        ),
        desk.confirming_stop(key).confirming_stop(key) == desk.on(
            AppView { ctrl_x_armed: None, ..desk.app },
        ).stopping(),
{
    reveal(Desk::confirming_stop);
    reveal(AppView::arming_stop);
}

/// Holding the key down stops and removes nothing.
pub proof fn law_a_held_key_stops_nothing(desk: Desk, key: KeyEvent)
    requires
        key.kind != KeyKind::Press,
    ensures
        desk.confirming_stop(key) == desk,
{
    reveal(Desk::confirming_stop);
}

/// Any other key in between takes back the first press.
pub proof fn law_another_key_takes_back_the_first_press(app: AppView, key: KeyEvent)
    ensures
        key.code != KeyCode::Char('x') ==> app.disarmed(key).ctrl_x_armed is None,
        key.code != KeyCode::Right ==> !app.disarmed(key).attach_right_armed,
        key.code != KeyCode::Left ==> !app.disarmed(key).menu_left_armed,
        key.code != KeyCode::Esc ==> !app.disarmed(key).esc_armed,
{
    reveal(AppView::disarmed);
}

/// The menu opens and closes at the second press, and neither saves anything.
pub proof fn law_the_menu_opens_and_closes_without_saving(app: AppView)
    requires
        !app.menu_left_armed,
    ensures
        app.confirming_menu().menu == app.menu,
        app.confirming_menu().confirming_menu().menu is Some == (app.menu is None),
        app.confirming_menu().confirming_menu().lifecycle == app.lifecycle,
{
    reveal(AppView::confirming_menu);
    reveal(AppView::with_menu);
    reveal(AppView::noting);
}

/// While the composer is open, the keys up and down never select another session.
pub proof fn law_rows_of_an_open_composer_keep_the_selection(desk: Desk, delta: int)
    requires
        desk.app.composer_open,
    ensures
        desk.row_key(delta).app.selected == desk.app.selected,
        desk.row_key(delta).app.sessions == desk.app.sessions,
        desk.row_key(delta).out == desk.out,
{
    reveal(Desk::row_key);
    reveal(AppView::with_composer);
}

/// While the composer is hidden, no character reaches a draft.
pub proof fn law_hidden_composers_take_no_text(app: AppView, c: char)
    requires
        !app.composer_open,
        c != ' ',
    ensures
        app.typing(c).composer == app.composer,
        app.typing(c).reply_drafts == app.reply_drafts,
        app.typing(c).new_draft == app.new_draft,
{
    reveal(AppView::typing);
}

/// Scrolling moves the preview and nothing else, and what is scrolled back can be
/// scrolled forth.
pub proof fn law_scrolling_moves_only_the_preview(app: AppView, lines: int)
    requires
        0 <= app.scroll_back,
        0 <= lines,
        app.scroll_back + lines <= usize::MAX,
    ensures
        app.scrolled(lines) == (AppView {
            scroll_back: app.scrolled(lines).scroll_back,
            ..app
        }),
        app.scrolled(lines).scrolled(-lines) == app,
{
    reveal(AppView::scrolled);
}

proof fn lemma_found_session(sessions: Seq<SessionView>, id: Seq<char>, k: int)
    requires
        0 <= k < sessions.len(),
        sessions[k].id == id,
    ensures
        session_slot(sessions, id) matches Some(i) && 0 <= i < sessions.len() && sessions[i].id
            == id,
{
    lemma_session_slot(sessions, id);
}

/// Sorting keeps the same session selected.
pub proof fn law_sorting_keeps_the_selection(app: AppView)
    requires
        app.selected >= 0,
    ensures
        app.resorted().selected_id() == app.selected_id(),
{
    broadcast use vstd::seq_lib::group_to_multiset_ensures;

    reveal(AppView::resorted);
    reveal(AppView::sorted);
    reveal(AppView::selecting);
    let ordered = sessions_in_order(app.sessions, app.lifecycle.pinned);
    law_sessions_are_shown_in_order(app.sessions, app.lifecycle.pinned);
    if app.sessions.len() > 0 {
        let session = app.sessions[app.selected_index()];
        assert(app.sessions.contains(session));
        assert(app.sessions.to_multiset().count(session) > 0);
        assert(ordered.to_multiset().count(session) > 0);
        assert(ordered.contains(session));
        let k = choose|k: int| 0 <= k < ordered.len() && ordered[k] == session;
        lemma_found_session(ordered, session.id, k);
    }
}

proof fn lemma_without_session(sessions: Seq<SessionView>, id: Seq<char>)
    ensures
        forall|i: int|
            0 <= i < without_session(sessions, id).len() ==> (#[trigger] without_session(
                sessions,
                id,
            )[i]).id != id,
    decreases sessions.len(),
{
    if sessions.len() > 0 {
        lemma_without_session(sessions.drop_last(), id);
    }
}

/// A session that is taken out of the dashboard leaves the list and the registry,
/// and can be resumed from the menu.
pub proof fn law_removed_sessions_can_be_resumed(app: AppView, session: SessionView)
    ensures
        session_slot(app.removing(session).sessions, session.id) is None,
        !app.removing(session).lifecycle.adopted.contains(session.id),
        app.removing(session).history.contains(session),
{
    reveal(AppView::removing);
    reveal(AppView::dropping);
    reveal(AppView::unasked);
    reveal(AppView::relisted);
    reveal(AppView::discarding_draft);
    reveal(AppView::with_selected_draft);
    reveal(AppView::with_reply_draft);
    reveal(AppView::with_new_draft);
    reveal(AppView::without_rename);
    reveal(AppView::at_end);
    reveal(AppView::noting);
    let kept = without_session(app.sessions, session.id);
    lemma_without_session(app.sessions, session.id);
    lemma_session_slot(kept, session.id);
    lemma_session_slot(app.history, session.id);
    let history = with_session(app.history, session);
    match session_slot(app.history, session.id) {
        Some(i) => {
            assert(history[i] == session);
        },
        None => {
            assert(history[app.history.len() as int] == session);
        },
    }
}

/// A session that becomes active belongs to the dashboard, though it was removed
/// before.
pub proof fn law_active_sessions_are_adopted(app: AppView, params: JsonView, id: Seq<char>)
    requires
        params.get_str("threadId"@) == Some(id),
        params.get("status"@) matches Some(status) && status_is_live(protocol_status(status)),
    ensures
        app.status_changed(params).lifecycle.adopted.contains(id),
{
    reveal(AppView::status_changed);
    reveal(AppView::adopting);
    reveal(AppView::with_status);
    reveal(AppView::resorted);
    reveal(AppView::sorted);
    reveal(AppView::selecting);
}

/// A request that no session can take is answered with a refusal of its own
/// number, and changes no session.
pub proof fn law_requests_without_a_session_are_refused(desk: Desk, message: JsonView)
    requires
        or_empty(member_or_null(message, "params"@).get_str("threadId"@)).len() == 0,
    ensures
        desk.asked(message).out.messages == desk.out.messages.push(
            OutgoingView::Error {
                id: member_or_null(message, "id"@),
                code: (-32601) as i64,
                message: "codex-deck cannot route this request"@,
            },
        ),
        desk.asked(message).app.sessions == desk.app.sessions,
        desk.asked(message).app.pending_requests == desk.app.pending_requests,
{
    reveal(Desk::asked);
    reveal(Desk::unroutable);
    reveal(AppView::noting);
}

proof fn lemma_resorted_keeps(app: AppView)
    ensures
        app.resorted().pending_requests == app.pending_requests,
        app.resorted().pending_calls == app.pending_calls,
        app.resorted().queued_replies == app.queued_replies,
        app.resorted().composer == app.composer,
        app.resorted().composer_open == app.composer_open,
        app.resorted().lifecycle == app.lifecycle,
{
    reveal(AppView::resorted);
    reveal(AppView::sorted);
    reveal(AppView::selecting);
}

/// Every request that is taken up is answered once, with its own number: with the
/// user's answer, or with a refusal where the request is not supported. It waits
/// no longer.
pub proof fn law_taken_requests_are_answered_once(
    desk: Desk,
    id: Seq<char>,
    text: Seq<char>,
    slot: int,
)
    requires
        request_slot(desk.app.pending_requests, id) == Some(slot),
    ensures
        ({
            let request = desk.app.pending_requests[slot];
            let after = desk.answering(id, text);
            &&& after.app.pending_requests == desk.app.pending_requests.remove(slot)
            &&& after.out.messages.len() == desk.out.messages.len() + 1
            &&& after.out.messages.drop_last() == desk.out.messages
            &&& match request.kind {
                RequestKindView::Unsupported(method) => after.out.messages.last()
                    == (OutgoingView::Error {
                    id: request.id,
                    code: (-32601) as i64,
                    message: "codex-deck does not support "@ + method,
                }),
                kind => answer_value(kind, text) matches Some(answer)
                    && after.out.messages.last() == (OutgoingView::Response {
                    id: request.id,
                    result: answer,
                }),
            }
        }),
{
    reveal(Desk::answering);
    reveal(Desk::replying);
    reveal(Desk::rejecting);
    reveal(AppView::without_request);
    reveal(AppView::noting);
    reveal(answer_value);
    let request = desk.app.pending_requests[slot];
    let rest = desk.app.without_request(slot);
    lemma_answer_shown_keeps(rest, id, text);
    let after = desk.answering(id, text);
    assert(after.out.messages.drop_last() =~= desk.out.messages);
}

proof fn lemma_answer_shown_keeps(app: AppView, id: Seq<char>, text: Seq<char>)
    ensures
        app.answer_shown(id, text).pending_requests == app.pending_requests,
{
    reveal(AppView::answer_shown);
    reveal(AppView::working_on);
    reveal(AppView::noting);
    lemma_resorted_keeps(
        app.working_on(id, local_answer(app.pending_requests.len(), text)).noting(
            "Response sent; session resumed"@,
        ),
    );
}

/// An answer to no request of the dashboard changes nothing.
pub proof fn law_unexpected_answers_change_nothing(desk: Desk, message: JsonView)
    requires
        answered_number(message) matches Some(number) ==> lookup(
            desk.app.pending_calls,
            number,
        ) is None,
    ensures
        desk.response(message) == Ok::<Desk, AppError>(desk),
{
    reveal(Desk::response);
}

/// A prompt for a new task is sent as one request. The composer is empty and
/// hidden then, and its draft is gone.
pub proof fn law_a_new_task_is_sent_once(desk: Desk)
    requires
        desk.app.composer.target == ComposeTarget::NewTask,
        desk.app.prompt().text.len() > 0 || desk.app.prompt().images.len() > 0,
    ensures
        desk.submitting().out == desk.out.request("thread/start"@, start_params(desk.app.cwd)),
        desk.submitting().app.composer == ComposerView::empty(ComposeTarget::NewTask),
        desk.submitting().app.new_draft == ComposerView::empty(ComposeTarget::NewTask),
        !desk.submitting().app.composer_open,
        lookup(desk.submitting().app.pending_calls, desk.out.next_id) == Some(
            CallView::ThreadStart { draft: desk.app.prompt() },
        ),
{
    reveal(Desk::submitting);
    reveal(Desk::submitting_prompt);
    reveal(Desk::starting_task);
    reveal(Desk::calling_out);
    reveal(Desk::calling);
    reveal(AppView::prompt_taken);
    reveal(AppView::emptied);
    reveal(AppView::with_composer);
    reveal(AppView::caching_draft);
    reveal(AppView::at_end);
    reveal(AppView::closed);
    reveal(AppView::calling);
    reveal(AppView::noting);
    law_put_then_lookup(
        desk.app.pending_calls,
        desk.out.next_id,
        CallView::ThreadStart { draft: desk.app.prompt() },
        desk.out.next_id,
    );
}

/// An empty composer sends nothing.
pub proof fn law_an_empty_composer_sends_nothing(desk: Desk)
    requires
        desk.app.composer.target != ComposeTarget::Rename,
        desk.app.waiting_session() is None,
        desk.app.prompt().text.len() == 0,
        desk.app.prompt().images.len() == 0,
    ensures
        desk.submitting() == desk,
{
    reveal(Desk::submitting);
}

/// A released key does nothing.
pub proof fn law_released_keys_do_nothing(desk: Desk, key: KeyEvent)
    requires
        key.kind == KeyKind::Release,
    ensures
        desk.key(key) == desk,
{
    reveal(Desk::key);
}

/// Skills that have changed are asked for again while one is searched for.
pub proof fn law_changed_skills_are_asked_for_again(desk: Desk)
    requires
        desk.app.picking() is Some,
    ensures
        desk.on(desk.app.without_skills()).ensuring_skills().out == desk.out.request(
            "skills/list"@,
            skills_params(desk.app.active_directory()),
        ),
{
    reveal(AppView::without_skills);
    reveal(Desk::ensuring_skills);
    reveal(Desk::calling);
}

/// Skills that are known or on their way are not asked for again.
pub proof fn law_skills_are_asked_for_once(desk: Desk)
    requires
        desk.app.skills_cwd == desk.app.active_directory(),
        desk.app.skills is Some || desk.app.skills_loading,
    ensures
        desk.ensuring_skills() == desk,
{
    reveal(Desk::ensuring_skills);
}

/// A prompt for a session that is not there is not lost: nothing is sent, the prompt
/// is a new task now, and the composer holds it with the cursor behind it.
pub proof fn law_a_prompt_without_a_session_is_given_back(desk: Desk)
    requires
        desk.app.composer.target == ComposeTarget::Reply,
        desk.app.sessions.len() == 0,
        desk.app.prompt().text.len() > 0 || desk.app.prompt().images.len() > 0,
    ensures
        desk.submitting().out == desk.out,
        desk.submitting().app.composer == restored(desk.app.prompt()),
        desk.submitting().app.new_draft == restored(desk.app.prompt()),
        desk.submitting().app.prompt() == desk.app.prompt(),
{
    reveal(Desk::submitting);
    reveal(Desk::submitting_prompt);
    reveal(Desk::submitting_reply);
    reveal(AppView::prompt_taken);
    reveal(AppView::emptied);
    reveal(AppView::with_composer);
    reveal(AppView::caching_draft);
    reveal(AppView::at_end);
    reveal(AppView::given_back);
    reveal(AppView::noting);
    let text = desk.app.prompt().text;
    lemma_trimmed_twice(desk.app.composer.prompt_text());
    lemma_offset_ends(text);
    lemma_index_at(text, 0);
    assert(text.skip(0) =~= text);
}

/// A request that was answered is waited for no more, and the others still are.
pub proof fn law_answered_requests_are_settled(app: AppView, number: u64, other: u64)
    requires
        app.wf(),
        other != number,
    ensures
        lookup(app.settled(number).pending_calls, number) is None,
        lookup(app.settled(number).pending_calls, other) == lookup(app.pending_calls, other),
{
    reveal(AppView::wf);
    reveal(AppView::settled);
    law_what_is_taken_away_is_gone(app.pending_calls, number, other);
}

/// The draft of a session that is gone is gone with it, and the others stay.
pub proof fn law_discarded_drafts_are_gone(
    app: AppView,
    id: Seq<char>,
    other: Seq<char>,
    was_selected: bool,
)
    requires
        app.wf(),
        other != id,
    ensures
        ({
            let after = app.discarding_draft(id, was_selected);
            &&& lookup(after.reply_drafts, id) is None
            &&& lookup(after.reply_drafts, other) == lookup(app.reply_drafts, other)
        }),
{
    reveal(AppView::wf);
    reveal(AppView::discarding_draft);
    reveal(AppView::without_rename);
    reveal(AppView::with_selected_draft);
    reveal(AppView::with_reply_draft);
    reveal(AppView::with_new_draft);
    law_what_is_taken_away_is_gone(app.reply_drafts, id, other);
}

/// A queued reply is sent once: when it is taken it is gone, and the others stay.
pub proof fn law_queued_replies_are_taken_once(app: AppView, id: Seq<char>, other: Seq<char>)
    requires
        app.wf(),
        other != id,
    ensures
        lookup(app.unqueued(id).queued_replies, id) is None,
        lookup(app.unqueued(id).queued_replies, other) == lookup(app.queued_replies, other),
{
    reveal(AppView::wf);
    reveal(AppView::unqueued);
    law_what_is_taken_away_is_gone(app.queued_replies, id, other);
}

} // verus!
