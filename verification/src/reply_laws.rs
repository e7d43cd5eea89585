//! What the answers of the app-server lead to.

use vstd::prelude::*;

use crate::assoc::{law_put_then_lookup, lookup};
use crate::deck::{lemma_session_slot, member_or_null, request_slot, session_slot};
use crate::desk::Desk;
use crate::item_laws::shows_message;
use crate::json::{JsonNumberView, JsonView, member_index};
use crate::laws::law_taken_requests_are_answered_once;
use crate::model::{
    law_upsert_keeps_other_messages, lemma_message_index, message_index, MessageKind, MessageView,
    SessionStatus, SessionView, upsert,
};
use crate::params::{draft_input, draft_shown, local_prompt, steer_params, turn_params};
use crate::protocol::{running_turn_id, thread_messages};
use crate::rpc::{OutboxView, OutgoingView};
use crate::state::{AppView, CallView, DraftView};
use crate::text::decimal;
use crate::thread_laws::{
    law_what_a_status_stands_for, lemma_resorted, lemma_session_found, lemma_updated, listed_once,
    others_stay, says_waiting,
};

verus! {

/// Whether a message answers a request that the dashboard waits for.
pub open spec fn answers(desk: Desk, message: JsonView, number: u64, call: CallView) -> bool {
    &&& message.get_str("method"@) is None
    &&& message.get("id"@) == Some(JsonView::Number(JsonNumberView::Integer(number as int)))
    &&& lookup(desk.app.pending_calls, number) == Some(call)
}

/// Whether an answer is a success with a result.
pub open spec fn succeeds(message: JsonView, result: JsonView) -> bool {
    message.get("error"@) is None && message.get("result"@) == Some(result)
}

/// Whether exactly one request was sent: with a method, for a thread.
pub open spec fn sent_for(
    before: OutboxView,
    after: OutboxView,
    method: Seq<char>,
    id: Seq<char>,
) -> bool {
    &&& after.messages.len() == before.messages.len() + 1
    &&& after.messages.drop_last() == before.messages
    &&& after.messages.last() matches OutgoingView::Request { number, method: sent, params } && {
        &&& number == before.next_id
        &&& sent == method
        &&& params.get_str("threadId"@) == Some(id)
    }
}

/// The parameters of the request that was sent last.
pub open spec fn sent_params(out: OutboxView) -> JsonView {
    out.messages.last()->Request_params
}

/// The copy of a prompt that is shown when it is sent.
pub open spec fn prompt_copy(number: u64, draft: DraftView) -> MessageView {
    MessageView {
        id: "local-user-"@ + decimal(number as nat),
        kind: MessageKind::User,
        text: draft_shown(draft),
    }
}

/// Whether a thread, as an answer tells of it, is at rest: its status is absent, or
/// any but an active one.
pub open spec fn is_at_rest(result: JsonView) -> bool {
    match result.get("thread"@) {
        Some(thread) => match thread.get("status"@) {
            Some(status) => status.get_str("type"@) != Some("active"@),
            None => true,
        },
        None => true,
    }
}

/// Whether a thread, as an answer tells of it, is active, and waits for the user or
/// does not.
pub open spec fn is_active(result: JsonView, waiting: bool) -> bool {
    result.get("thread"@) matches Some(thread) && (thread.get("status"@) matches Some(status)
        && status.get_str("type"@) == Some("active"@) && waiting == (exists|i: int|
        0 <= i < status.get_items("activeFlags"@).len() && says_waiting(
            #[trigger] status.get_items("activeFlags"@)[i],
        )))
}

pub proof fn lemma_param_words()
    ensures
        "threadId"@ != "input"@,
        "threadId"@ != "summary"@,
        "threadId"@ != "expectedTurnId"@,
        "input"@ != "summary"@,
        "input"@ != "expectedTurnId"@,
        "summary"@ != "expectedTurnId"@,
{
    reveal_strlit("threadId");
    reveal_strlit("input");
    reveal_strlit("summary");
    reveal_strlit("expectedTurnId");
    assert("threadId"@.len() != "input"@.len());
    assert("threadId"@.len() != "summary"@.len());
    assert("threadId"@.len() != "expectedTurnId"@.len());
    assert("input"@.len() != "summary"@.len());
    assert("input"@.len() != "expectedTurnId"@.len());
    assert("summary"@.len() != "expectedTurnId"@.len());
}

pub proof fn lemma_answered(desk: Desk, message: JsonView, number: u64, call: CallView, result: JsonView)
    requires
        answers(desk, message, number, call),
        succeeds(message, result),
    ensures
        desk.received(message) == desk.on(desk.app.settled(number)).answered(call, result),
        desk.app.settled(number) == (AppView {
            pending_calls: desk.app.settled(number).pending_calls,
            ..desk.app
        }),
{
    reveal(Desk::received);
    reveal(Desk::response);
    reveal(AppView::settled);
}

/// A prompt that starts a turn.
pub proof fn lemma_started(desk: Desk, id: Seq<char>, draft: DraftView)
    requires
        listed_once(desk.app.sessions),
    ensures
        ({
            let after = desk.starting_turn(id, draft);
            &&& sent_for(desk.out, after.out, "turn/start"@, id)
            &&& sent_params(after.out).get("input"@) == Some(JsonView::Array(draft_input(draft)))
            &&& lookup(after.app.pending_calls, desk.out.next_id) == Some(
                CallView::TurnStart { thread_id: id },
            )
            &&& after.out.next_id == desk.out.request("turn/start"@, JsonView::Null).next_id
            &&& listed_once(after.app.sessions)
            &&& others_stay(desk.app, after.app, id)
            &&& desk.app.session(id) matches Some(before) ==> (after.app.session(id) matches Some(
                session,
            ) && session == (SessionView {
                status: SessionStatus::Working,
                messages: session.messages,
                ..before
            }) && shows_message(session.messages, prompt_copy(desk.out.next_id, draft)))
            &&& desk.app.session(id) is None ==> after.app.session(id) is None
            &&& after.app.composer == desk.app.composer
            &&& after.app.composer_open == desk.app.composer_open
            &&& after.app.queued_replies == desk.app.queued_replies
            &&& after.app.pending_requests == desk.app.pending_requests
            &&& after.app.lifecycle == desk.app.lifecycle
        }),
{
    lemma_param_words();
    reveal(Desk::starting_turn);
    reveal(Desk::calling);
    reveal(AppView::calling);
    reveal(AppView::working_on);
    reveal(turn_params);
    reveal(local_prompt);
    reveal_with_fuel(member_index, 4);
    let after = desk.starting_turn(id, draft);
    assert(after.out.messages.drop_last() =~= desk.out.messages);
    let called = desk.calling(
        "turn/start"@,
        turn_params(id, draft),
        CallView::TurnStart { thread_id: id },
    );
    law_put_then_lookup(
        desk.app.pending_calls,
        desk.out.next_id,
        CallView::TurnStart { thread_id: id },
        desk.out.next_id,
    );
    let entry = local_prompt(desk.out.next_id, draft);
    lemma_session_slot(desk.app.sessions, id);
    if let Some(k) = session_slot(desk.app.sessions, id) {
        let session = desk.app.sessions[k];
        let messages = upsert(session.messages, entry);
        law_upsert_keeps_other_messages(session.messages, entry);
        lemma_message_index(messages, entry.id);
        let i = message_index(messages, entry.id)->0;
        assert(messages[i] == entry);
        lemma_updated(
            called.app,
            k,
            SessionView { status: SessionStatus::Working, messages, ..session },
        );
    }
    lemma_resorted(called.app.working_on(id, entry));
    assert forall|other: Seq<char>| other != id implies #[trigger] after.app.session(other)
        == desk.app.session(other) by {
        assert(called.app.session(other) == desk.app.session(other));
        assert(called.app.working_on(id, entry).session(other) == desk.app.session(other));
    }
}

/// A prompt that goes into a turn.
pub proof fn lemma_steered(desk: Desk, id: Seq<char>, turn: Seq<char>, draft: DraftView)
    requires
        listed_once(desk.app.sessions),
    ensures
        ({
            let after = desk.steering(id, turn, draft);
            &&& sent_for(desk.out, after.out, "turn/steer"@, id)
            &&& sent_params(after.out).get_str("expectedTurnId"@) == Some(turn)
            &&& sent_params(after.out).get("input"@) == Some(JsonView::Array(draft_input(draft)))
            &&& lookup(after.app.pending_calls, desk.out.next_id) == Some(
                CallView::TurnSteer { thread_id: id },
            )
            &&& listed_once(after.app.sessions)
            &&& others_stay(desk.app, after.app, id)
            &&& desk.app.session(id) matches Some(before) ==> (after.app.session(id) matches Some(
                session,
            ) && session == (SessionView { messages: session.messages, ..before })
                && shows_message(session.messages, prompt_copy(desk.out.next_id, draft)))
            &&& after.app.composer == desk.app.composer
            &&& after.app.composer_open == desk.app.composer_open
        }),
{
    lemma_param_words();
    reveal(Desk::steering);
    reveal(Desk::calling);
    reveal(AppView::calling);
    reveal(AppView::prompted);
    reveal(AppView::noting);
    reveal(steer_params);
    reveal(local_prompt);
    reveal_with_fuel(member_index, 4);
    let after = desk.steering(id, turn, draft);
    assert(after.out.messages.drop_last() =~= desk.out.messages);
    let called = desk.calling(
        "turn/steer"@,
        steer_params(id, turn, draft),
        CallView::TurnSteer { thread_id: id },
    );
    law_put_then_lookup(
        desk.app.pending_calls,
        desk.out.next_id,
        CallView::TurnSteer { thread_id: id },
        desk.out.next_id,
    );
    let entry = local_prompt(desk.out.next_id, draft);
    lemma_session_slot(desk.app.sessions, id);
    if let Some(k) = session_slot(desk.app.sessions, id) {
        let session = desk.app.sessions[k];
        let messages = upsert(session.messages, entry);
        law_upsert_keeps_other_messages(session.messages, entry);
        lemma_message_index(messages, entry.id);
        let i = message_index(messages, entry.id)->0;
        assert(messages[i] == entry);
        lemma_updated(called.app, k, SessionView { messages, ..session });
    }
    assert forall|other: Seq<char>| other != id implies #[trigger] after.app.session(other)
        == desk.app.session(other) by {
        assert(called.app.session(other) == desk.app.session(other));
        assert(called.app.prompted(id, entry).session(other) == desk.app.session(other));
    }
}

proof fn lemma_with_resumed(app: AppView, id: Seq<char>, thread: JsonView)
    requires
        listed_once(app.sessions),
    ensures
        ({
            let after = app.with_resumed(id, thread);
            &&& listed_once(after.sessions)
            &&& others_stay(app, after, id)
            &&& (app.session(id) is Some <==> after.session(id) is Some)
            &&& after == (AppView { sessions: after.sessions, ..app })
        }),
{
    reveal(AppView::with_resumed);
    lemma_session_slot(app.sessions, id);
    if let Some(k) = session_slot(app.sessions, id) {
        let changed = app.with_resumed(id, thread).sessions[k];
        assert(app.with_resumed(id, thread) == app.updating(k, changed));
        lemma_updated(app, k, changed);
    }
}

/// A reply to a session at rest starts a turn as soon as the session is resumed:
/// exactly one request is sent, for that thread and with the prompt that was
/// submitted. The session works then and shows the prompt. No other session changes.
pub proof fn law_resumed_sessions_take_the_reply(
    desk: Desk,
    message: JsonView,
    number: u64,
    id: Seq<char>,
    draft: DraftView,
    result: JsonView,
)
    requires
        listed_once(desk.app.sessions),
        answers(
            desk,
            message,
            number,
            CallView::ThreadResumeForReply { thread_id: id, draft },
        ),
        succeeds(message, result),
        is_at_rest(result),
    ensures
        desk.received(message) matches Ok(after) && {
            &&& sent_for(desk.out, after.out, "turn/start"@, id)
            &&& sent_params(after.out).get("input"@) == Some(JsonView::Array(draft_input(draft)))
            &&& lookup(after.app.pending_calls, desk.out.next_id) == Some(
                CallView::TurnStart { thread_id: id },
            )
            &&& desk.app.session(id) is Some ==> (after.app.session(id) matches Some(session)
                && session.status == SessionStatus::Working && shows_message(
                session.messages,
                prompt_copy(desk.out.next_id, draft),
            ))
            &&& others_stay(desk.app, after.app, id)
            &&& listed_once(after.app.sessions)
        },
{
    let call = CallView::ThreadResumeForReply { thread_id: id, draft };
    lemma_answered(desk, message, number, call, result);
    reveal(Desk::answered);
    reveal(Desk::resumed);
    let thread = member_or_null(result, "thread"@);
    if let Some(status) = thread.get("status"@) {
        law_what_a_status_stands_for(status);
    }
    let rest = desk.on(desk.app.settled(number));
    lemma_with_resumed(rest.app, id, thread);
    let current = rest.on(rest.app.with_resumed(id, thread));
    lemma_started(current, id, draft);
    let after = current.starting_turn(id, draft);
    assert forall|other: Seq<char>| other != id implies #[trigger] after.app.session(other)
        == desk.app.session(other) by {
        assert(current.app.session(other) == rest.app.session(other));
        assert(rest.app.session(other) == desk.app.session(other));
    }
    assert(rest.app.session(id) == desk.app.session(id));
}

/// A reply to a session that turns out to work goes into the turn that is going on.
/// Where that turn is not known, nothing is sent.
pub proof fn law_working_sessions_are_steered(
    desk: Desk,
    message: JsonView,
    number: u64,
    id: Seq<char>,
    draft: DraftView,
    result: JsonView,
)
    requires
        listed_once(desk.app.sessions),
        answers(
            desk,
            message,
            number,
            CallView::ThreadResumeForReply { thread_id: id, draft },
        ),
        succeeds(message, result),
        is_active(result, false),
    ensures
        desk.received(message) matches Ok(after) && match running_turn_id(result.get("thread"@)->0) {
            Some(turn) => {
                &&& sent_for(desk.out, after.out, "turn/steer"@, id)
                &&& sent_params(after.out).get_str("expectedTurnId"@) == Some(turn)
                &&& sent_params(after.out).get("input"@) == Some(
                    JsonView::Array(draft_input(draft)),
                )
                &&& desk.app.session(id) is Some ==> (after.app.session(id) matches Some(session)
                    && session.status == SessionStatus::Working && session.active_turn_id == Some(
                    turn,
                ) && shows_message(session.messages, prompt_copy(desk.out.next_id, draft)))
            },
            None => after.out == desk.out && after.app.notice
                == "Session is active; waiting for turn state"@,
        },
{
    let call = CallView::ThreadResumeForReply { thread_id: id, draft };
    lemma_answered(desk, message, number, call, result);
    reveal(Desk::answered);
    reveal(Desk::resumed);
    let thread = result.get("thread"@)->0;
    law_what_a_status_stands_for(thread.get("status"@)->0);
    let rest = desk.on(desk.app.settled(number));
    lemma_with_resumed(rest.app, id, thread);
    let current = rest.on(rest.app.with_resumed(id, thread));
    match running_turn_id(thread) {
        Some(turn) => {
            lemma_steered(current, id, turn, draft);
            assert(rest.app.session(id) == desk.app.session(id));
            if desk.app.session(id) is Some {
                reveal(AppView::with_resumed);
                lemma_session_slot(rest.app.sessions, id);
                let k = session_slot(rest.app.sessions, id)->0;
                lemma_session_found(current.app, k);
            }
        },
        None => {
            reveal(AppView::noting);
        },
    }
}

/// The turn that is going on in a thread is the last one in progress.
pub proof fn law_the_running_turn_is_the_last_in_progress(
    thread: JsonView,
    turns: Seq<JsonView>,
    turn: JsonView,
)
    requires
        thread.get("turns"@) == Some(JsonView::Array(turns.push(turn))),
    ensures
        turn.get_str("status"@) == Some("inProgress"@) ==> running_turn_id(thread) == turn.get_str(
            "id"@,
        ),
        turn.get_str("status"@) != Some("inProgress"@) ==> running_turn_id(thread) == running_turn_id(
            JsonView::Object(seq![("turns"@, JsonView::Array(turns))]),
        ),
        thread.get_items("turns"@).len() > 0,
        running_turn_id(JsonView::Null) is None,
{
    reveal(running_turn_id);
    assert(turns.push(turn).drop_last() =~= turns);
    let other = JsonView::Object(seq![("turns"@, JsonView::Array(turns))]);
    assert(other.get_items("turns"@) == turns);
}

/// A reply to a session that turns out to wait for the user is not lost: it answers
/// the request that waits, or it is queued for the request to come. Without a text it
/// goes back into the composer with its images.
pub proof fn law_waiting_sessions_keep_the_reply(
    desk: Desk,
    message: JsonView,
    number: u64,
    id: Seq<char>,
    draft: DraftView,
    result: JsonView,
)
    requires
        answers(
            desk,
            message,
            number,
            CallView::ThreadResumeForReply { thread_id: id, draft },
        ),
        succeeds(message, result),
        is_active(result, true),
    ensures
        desk.received(message) matches Ok(after) && {
            let waits = request_slot(desk.app.pending_requests, id);
            &&& draft.text.len() == 0 ==> after.out == desk.out && after.app.notice
                == "Session needs a text answer; attached images were kept"@
            &&& draft.text.len() > 0 && waits is None ==> after.out == desk.out && lookup(
                after.app.queued_replies,
                id,
            ) == Some(draft.text) && after.app.notice == "Waiting for Codex question details…"@
            &&& draft.text.len() > 0 && waits is Some ==> after.out.messages.len()
                == desk.out.messages.len() + 1 && after.app.pending_requests
                == desk.app.pending_requests.remove(waits->0)
            &&& draft.images.len() > 0 && !(draft.text.len() > 0 && waits is Some)
                ==> after.app.composer == desk.app.composer.attach_images(draft.images)
        },
{
    let call = CallView::ThreadResumeForReply { thread_id: id, draft };
    lemma_answered(desk, message, number, call, result);
    reveal(Desk::answered);
    reveal(Desk::resumed);
    reveal(Desk::resumed_asking);
    reveal(AppView::images_kept);
    reveal(AppView::with_images);
    reveal(AppView::noting);
    reveal(AppView::queued);
    let thread = result.get("thread"@)->0;
    law_what_a_status_stands_for(thread.get("status"@)->0);
    let rest = desk.on(desk.app.settled(number));
    let current = rest.on(rest.app.with_resumed(id, thread));
    assert(current.app == (AppView { sessions: current.app.sessions, ..rest.app })) by {
        reveal(AppView::with_resumed);
    }
    let kept = current.on(current.app.images_kept(draft.images));
    law_put_then_lookup(kept.app.queued_replies, id, draft.text, id);
    if let Some(slot) = request_slot(kept.app.pending_requests, id) {
        law_taken_requests_are_answered_once(kept, id, draft.text, slot);
    }
}

/// A refused request is told with the app-server's own words, and sends nothing. A
/// list that failed can be asked for again, and a rename that failed is over.
pub proof fn law_refusals_are_told(
    desk: Desk,
    message: JsonView,
    number: u64,
    call: CallView,
    error: JsonView,
)
    requires
        answers(desk, message, number, call),
        message.get("error"@) == Some(error),
    ensures
        desk.received(message) matches Ok(after) && {
            &&& after.out == desk.out
            &&& after.app.notice == (match error.get_str("message"@) {
                Some(text) => text,
                None => "Codex request failed"@,
            })
            &&& after.app.sessions == desk.app.sessions
            &&& call is ThreadList ==> !after.app.list_inflight
            &&& call is ThreadNameSet ==> after.app.rename_thread_id is None
        },
{
    reveal(Desk::received);
    reveal(Desk::response);
    reveal(AppView::settled);
    reveal(AppView::refusal_shown);
    reveal(AppView::refused);
    reveal(AppView::without_rename);
    reveal(AppView::with_skills);
    reveal(AppView::noting);
}

/// Once a turn is under way its session works on it.
pub proof fn law_turns_under_way_are_known(
    desk: Desk,
    message: JsonView,
    number: u64,
    id: Seq<char>,
    result: JsonView,
    turn: Seq<char>,
)
    requires
        listed_once(desk.app.sessions),
        answers(desk, message, number, CallView::TurnStart { thread_id: id }),
        succeeds(message, result),
        result.get("turn"@) matches Some(value) && value.get_str("id"@) == Some(turn),
        desk.app.session(id) is Some,
    ensures
        desk.received(message) matches Ok(after) && {
            &&& after.out == desk.out
            &&& after.app.session(id) == Some(
                SessionView {
                    status: SessionStatus::Working,
                    active_turn_id: Some(turn),
                    ..desk.app.session(id)->0
                },
            )
            &&& others_stay(desk.app, after.app, id)
            &&& after.app.notice == "Working in background"@
        },
{
    let call = CallView::TurnStart { thread_id: id };
    lemma_answered(desk, message, number, call, result);
    reveal(Desk::answered);
    reveal(AppView::turn_under_way);
    reveal(AppView::turn_known);
    reveal(AppView::noting);
    let rest = desk.app.settled(number);
    lemma_session_slot(rest.sessions, id);
    let k = session_slot(rest.sessions, id)->0;
    let changed = SessionView {
        status: SessionStatus::Working,
        active_turn_id: Some(turn),
        ..rest.sessions[k]
    };
    lemma_updated(rest, k, changed);
    let told = rest.turn_known(id, Some(turn)).noting("Working in background"@);
    assert(forall|x: Seq<char>| #[trigger]
        told.session(x) == rest.turn_known(id, Some(turn)).session(x));
    lemma_resorted(told);
    assert forall|other: Seq<char>| other != id implies #[trigger] told.resorted().session(other)
        == desk.app.session(other) by {
        assert(rest.session(other) == desk.app.session(other));
        assert(rest.turn_known(id, Some(turn)).session(other) == rest.session(other));
    }
}

/// A name that was set is the session's title, and the rename is over.
pub proof fn law_set_names_are_shown(
    desk: Desk,
    message: JsonView,
    number: u64,
    id: Seq<char>,
    name: Seq<char>,
    result: JsonView,
)
    requires
        listed_once(desk.app.sessions),
        answers(desk, message, number, CallView::ThreadNameSet { thread_id: id, name }),
        succeeds(message, result),
        desk.app.session(id) is Some,
    ensures
        desk.received(message) matches Ok(after) && {
            &&& after.out == desk.out
            &&& after.app.session(id) == Some(
                SessionView { title: name, ..desk.app.session(id)->0 },
            )
            &&& others_stay(desk.app, after.app, id)
            &&& after.app.rename_thread_id is None
            &&& desk.app.rename_previous matches Some(previous) ==> after.app.composer == previous
            &&& after.app.notice == "Renamed session to "@ + name
        },
{
    let call = CallView::ThreadNameSet { thread_id: id, name };
    lemma_answered(desk, message, number, call, result);
    reveal(Desk::answered);
    reveal(AppView::name_set);
    reveal(AppView::named);
    reveal(AppView::without_rename);
    reveal(AppView::noting);
    let rest = desk.app.settled(number);
    lemma_session_slot(rest.sessions, id);
    let k = session_slot(rest.sessions, id)->0;
    let changed = SessionView { title: name, ..rest.sessions[k] };
    lemma_updated(rest, k, changed);
    let named = rest.named(id, name);
    let told = named.without_rename().noting("Renamed session to "@ + name);
    assert(forall|x: Seq<char>| #[trigger] told.session(x) == named.session(x));
    lemma_resorted(told);
    assert forall|other: Seq<char>| other != id implies #[trigger] told.resorted().session(other)
        == desk.app.session(other) by {
        assert(rest.session(other) == desk.app.session(other));
        assert(named.session(other) == rest.session(other));
    }
}

/// The history that was asked for is shown: the messages of the thread, where it has
/// any, and the turn that is going on. Other sessions stay as they are.
pub proof fn law_histories_are_shown(
    desk: Desk,
    message: JsonView,
    number: u64,
    id: Seq<char>,
    result: JsonView,
    thread: JsonView,
)
    requires
        listed_once(desk.app.sessions),
        answers(desk, message, number, CallView::ThreadRead { thread_id: id }),
        succeeds(message, result),
        result.get("thread"@) == Some(thread),
        desk.app.session(id) is Some,
    ensures
        desk.received(message) matches Ok(after) && {
            let before = desk.app.session(id)->0;
            &&& after.out == desk.out
            &&& after.app.session(id) == Some(
                SessionView {
                    messages: if thread_messages(thread).len() > 0 {
                        thread_messages(thread)
                    } else {
                        before.messages
                    },
                    history_loaded: true,
                    active_turn_id: match running_turn_id(thread) {
                        Some(turn) => Some(turn),
                        None => before.active_turn_id,
                    },
                    ..before
                },
            )
            &&& others_stay(desk.app, after.app, id)
            &&& after.app.scroll_back == 0
        },
{
    let call = CallView::ThreadRead { thread_id: id };
    lemma_answered(desk, message, number, call, result);
    reveal(Desk::answered);
    reveal(AppView::history_come);
    reveal(AppView::with_history);
    let rest = desk.app.settled(number);
    lemma_session_slot(rest.sessions, id);
    let k = session_slot(rest.sessions, id)->0;
    let changed = rest.with_history(id, thread).sessions[k];
    lemma_updated(rest, k, changed);
    assert forall|other: Seq<char>| other != id implies #[trigger] rest.with_history(
        id,
        thread,
    ).session(other) == desk.app.session(other) by {
        assert(rest.session(other) == desk.app.session(other));
        assert(rest.updating(k, changed).session(other) == rest.session(other));
    }
    assert(rest.updating(k, changed).session(id) == Some(changed));
}

/// The first answer of the app-server is followed by the notification that the
/// dashboard is there, and by a request for the list of threads.
pub proof fn law_the_list_is_asked_for_first(
    desk: Desk,
    message: JsonView,
    number: u64,
    result: JsonView,
)
    requires
        answers(desk, message, number, CallView::Initialize),
        succeeds(message, result),
    ensures
        desk.received(message) matches Ok(after) && {
            let count = desk.out.messages.len() as int;
            &&& after.out.messages.len() == count + 2
            &&& after.out.messages.take(count) == desk.out.messages
            &&& after.out.messages[count] matches OutgoingView::Notification { method, .. }
                && method == "initialized"@
            &&& after.out.messages[count + 1] matches OutgoingView::Request { method, .. }
                && method == "thread/list"@
            &&& after.app.initialized
            &&& after.app.list_inflight
            &&& after.app.sessions == desk.app.sessions
        },
{
    lemma_answered(desk, message, number, CallView::Initialize, result);
    reveal(Desk::answered);
    reveal(Desk::connected);
    reveal(Desk::listing_first);
    reveal(Desk::listing);
    reveal(Desk::calling);
    reveal(AppView::calling);
    reveal(AppView::list_sent);
    reveal(AppView::connected);
    reveal(AppView::noting);
    let after = desk.received(message)->Ok_0;
    assert(after.out.messages.take(desk.out.messages.len() as int) =~= desk.out.messages);
}

} // verus!
