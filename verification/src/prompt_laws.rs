//! What becomes of what the user writes, and of what the app-server asks.

use vstd::prelude::*;

use crate::assoc::{law_put_then_lookup, lookup, put};
use crate::composer::{ComposerView, ComposeTarget};
use crate::deck::{lemma_session_slot, local_answer, request_slot, session_slot};
use crate::desk::Desk;
use crate::item_laws::shows_message;
use crate::json::JsonView;
use crate::laws::law_taken_requests_are_answered_once;
use crate::model::{
    law_upsert_keeps_other_messages, lemma_message_index, message_index, MessageKind, MessageView,
    SessionStatus, SessionView, upsert,
};
use crate::params::{
    answer_value, draft_input, name_params, request_kind, start_params, thread_params,
};
use crate::protocol::{id_label, request_shown};
use crate::reply_laws::{lemma_steered, prompt_copy, sent_for, sent_params};
use crate::rpc::{OutboxView, OutgoingView};
use crate::state::{AppView, CallView, DraftView, RequestView};
use crate::text::trim;
use crate::thread_laws::{
    lemma_resorted, lemma_session_found, lemma_updated, listed_once, others_stay,
};

verus! {

/// The prompt that is in the composer: its text with the pastes written out and
/// without white space around it, its images and its skills.
pub open spec fn written_prompt(app: AppView) -> DraftView {
    DraftView {
        text: trim(app.composer.prompt_text()),
        images: app.composer.images,
        skills: app.composer.skills,
    }
}

/// Whether there is something in a prompt to send.
pub open spec fn has_content(draft: DraftView) -> bool {
    draft.text.len() > 0 || draft.images.len() > 0
}

/// Whether exactly one request was sent: with a method and parameters.
pub open spec fn sent_one(
    before: OutboxView,
    after: OutboxView,
    method: Seq<char>,
    params: JsonView,
) -> bool {
    &&& after.messages == before.messages.push(
        OutgoingView::Request { number: before.next_id, method, params },
    )
    &&& before.next_id < u64::MAX ==> after.next_id == before.next_id + 1
}

proof fn lemma_prompt_taken(app: AppView)
    ensures
        ({
            let after = app.prompt_taken();
            let empty = ComposerView::empty(app.composer.target);
            &&& after.composer == empty
            &&& after.cwd == app.cwd
            &&& after.sessions == app.sessions
            &&& after.selected == app.selected
            &&& after.pending_calls == app.pending_calls
            &&& after.pending_requests == app.pending_requests
            &&& after.scroll_back == 0
            &&& app.composer.target == ComposeTarget::NewTask ==> after.new_draft == empty
                && after.reply_drafts == app.reply_drafts
            &&& app.composer.target == ComposeTarget::Reply ==> (app.selected_id() matches Some(id)
                ==> after.reply_drafts == put(app.reply_drafts, id, empty)) && after.new_draft
                == app.new_draft
        }),
{
    reveal(AppView::prompt_taken);
    reveal(AppView::emptied);
    reveal(AppView::with_composer);
    reveal(AppView::caching_draft);
    reveal(AppView::at_end);
}

/// A new task starts a thread in the dashboard's directory, and the prompt that was
/// written waits for it. The composer is empty and hidden then.
pub proof fn law_new_tasks_start_threads(desk: Desk)
    requires
        desk.app.composer.target == ComposeTarget::NewTask,
        has_content(written_prompt(desk.app)),
    ensures
        ({
            let after = desk.submitting();
            &&& sent_one(desk.out, after.out, "thread/start"@, start_params(desk.app.cwd))
            &&& lookup(after.app.pending_calls, desk.out.next_id) == Some(
                CallView::ThreadStart { draft: written_prompt(desk.app) },
            )
            &&& after.app.composer == ComposerView::empty(ComposeTarget::NewTask)
            &&& !after.app.composer_open
            &&& after.app.sessions == desk.app.sessions
            &&& after.app.reply_drafts == desk.app.reply_drafts
            &&& after.app.notice == "Starting background session…"@
        }),
{
    reveal(Desk::submitting);
    reveal(Desk::submitting_prompt);
    reveal(Desk::starting_task);
    reveal(Desk::calling_out);
    reveal(Desk::calling);
    reveal(AppView::closed);
    reveal(AppView::calling);
    reveal(AppView::noting);
    lemma_prompt_taken(desk.app);
    law_put_then_lookup(
        desk.app.pending_calls,
        desk.out.next_id,
        CallView::ThreadStart { draft: written_prompt(desk.app) },
        desk.out.next_id,
    );
}

/// A reply goes into the turn of a working session, where that turn is known, and
/// resumes any other session. Either way the prompt that was written is what is sent
/// or what waits, the session belongs to the dashboard, and the composer is empty and
/// hidden.
pub proof fn law_replies_steer_or_resume(desk: Desk, session: SessionView)
    requires
        listed_once(desk.app.sessions),
        desk.app.composer.target == ComposeTarget::Reply,
        desk.app.selected_session() == Some(session),
        0 <= desk.app.selected,
        request_slot(desk.app.pending_requests, session.id) is None,
        has_content(written_prompt(desk.app)),
    ensures
        ({
            let after = desk.submitting();
            let draft = written_prompt(desk.app);
            &&& session.status == SessionStatus::Working && session.active_turn_id is Some ==> {
                &&& sent_for(desk.out, after.out, "turn/steer"@, session.id)
                &&& sent_params(after.out).get_str("expectedTurnId"@) == session.active_turn_id
                &&& sent_params(after.out).get("input"@) == Some(
                    JsonView::Array(draft_input(draft)),
                )
                &&& after.app.session(session.id) matches Some(shown) && shows_message(
                    shown.messages,
                    prompt_copy(desk.out.next_id, draft),
                )
            }
            &&& session.status != SessionStatus::Working || session.active_turn_id is None ==> {
                &&& sent_one(desk.out, after.out, "thread/resume"@, thread_params(session.id))
                &&& lookup(after.app.pending_calls, desk.out.next_id) == Some(
                    CallView::ThreadResumeForReply { thread_id: session.id, draft },
                )
                &&& after.app.sessions == desk.app.sessions
            }
            &&& after.app.composer == ComposerView::empty(ComposeTarget::Reply)
            &&& !after.app.composer_open
            &&& after.app.lifecycle.adopted.contains(session.id)
        }),
{
    reveal(Desk::submitting);
    reveal(Desk::submitting_prompt);
    reveal(Desk::submitting_reply);
    reveal(Desk::sending_reply);
    reveal(AppView::closed);
    lemma_prompt_taken(desk.app);
    let draft = written_prompt(desk.app);
    let ready = desk.on(desk.app.prompt_taken());
    assert(ready.app.selected_session() == Some(session));
    let adopted = ready.app.adopting(session.id);
    assert(adopted == (AppView {
        lifecycle: adopted.lifecycle,
        initial_scan_seen: adopted.initial_scan_seen,
        ..ready.app
    }) && adopted.lifecycle.adopted.contains(session.id)) by {
        reveal(AppView::adopting);
    }
    let closed = ready.on(adopted.closed());
    let k = desk.app.selected_index();
    lemma_session_found(closed.app, k);
    if session.status == SessionStatus::Working && session.active_turn_id is Some {
        let turn = session.active_turn_id->0;
        lemma_steered(closed, session.id, turn, draft);
        assert(closed.steering(session.id, turn, draft).app.lifecycle == closed.app.lifecycle) by {
            reveal(Desk::steering);
            reveal(Desk::calling);
            reveal(AppView::calling);
            reveal(AppView::prompted);
            reveal(AppView::noting);
        }
    } else {
        reveal(Desk::calling_out);
        reveal(Desk::calling);
        reveal(AppView::calling);
        reveal(AppView::noting);
        law_put_then_lookup(
            desk.app.pending_calls,
            desk.out.next_id,
            CallView::ThreadResumeForReply { thread_id: session.id, draft },
            desk.out.next_id,
        );
    }
}

/// While a session waits for an answer, a reply to it is the answer: one response is
/// sent, and the session works on. The images stay in the composer. Without a text
/// nothing is sent and nothing is lost.
pub proof fn law_replies_answer_waiting_requests(desk: Desk, session: SessionView, slot: int)
    requires
        desk.app.composer.target == ComposeTarget::Reply,
        desk.app.selected_session() == Some(session),
        request_slot(desk.app.pending_requests, session.id) == Some(slot),
    ensures
        ({
            let after = desk.submitting();
            let text = trim(desk.app.composer.prompt_text());
            let request = desk.app.pending_requests[slot];
            &&& text.len() == 0 ==> after.out == desk.out && after.app == (AppView {
                notice: "This request needs a text answer; attached images were kept"@,
                ..desk.app
            })
            &&& text.len() > 0 ==> {
                &&& after.app.pending_requests == desk.app.pending_requests.remove(slot)
                &&& after.out.messages.len() == desk.out.messages.len() + 1
                &&& after.out.messages.drop_last() == desk.out.messages
                &&& !(request.kind is Unsupported) ==> (answer_value(request.kind, text)
                    matches Some(answer) && after.out.messages.last() == (OutgoingView::Response {
                    id: request.id,
                    result: answer,
                }))
            }
        }),
{
    reveal(Desk::submitting);
    reveal(Desk::submitting_answer);
    reveal(AppView::noting);
    let text = trim(desk.app.composer.prompt_text());
    if text.len() > 0 {
        let taken = desk.on(desk.app.answer_taken());
        assert(taken.app.pending_requests == desk.app.pending_requests) by {
            reveal(AppView::answer_taken);
            reveal(AppView::with_composer);
            reveal(AppView::closed);
            reveal(AppView::caching_draft);
        }
        law_taken_requests_are_answered_once(taken, session.id, text, slot);
    }
}

/// A new name is sent for the session that is being renamed, without the white space
/// around it. A blank one is not sent.
pub proof fn law_names_are_sent(desk: Desk, id: Seq<char>)
    requires
        desk.app.composer.target == ComposeTarget::Rename,
        desk.app.rename_thread_id == Some(id),
    ensures
        ({
            let after = desk.submitting();
            let name = trim(desk.app.composer.text);
            &&& name.len() == 0 ==> after == desk
            &&& name.len() > 0 ==> sent_one(
                desk.out,
                after.out,
                "thread/name/set"@,
                name_params(id, name),
            ) && lookup(after.app.pending_calls, desk.out.next_id) == Some(
                CallView::ThreadNameSet { thread_id: id, name },
            ) && after.app.sessions == desk.app.sessions
        }),
{
    reveal(Desk::submitting);
    reveal(Desk::submitting_name);
    reveal(Desk::sending_name);
    reveal(Desk::calling_out);
    reveal(Desk::calling);
    reveal(AppView::name_taken);
    reveal(AppView::emptied);
    reveal(AppView::with_composer);
    reveal(AppView::closed);
    reveal(AppView::calling);
    reveal(AppView::noting);
    law_put_then_lookup(
        desk.app.pending_calls,
        desk.out.next_id,
        CallView::ThreadNameSet { thread_id: id, name: trim(desk.app.composer.text) },
        desk.out.next_id,
    );
}

/// Whether a message is a request of the app-server about a thread.
pub open spec fn asks(
    message: JsonView,
    value: JsonView,
    method: Seq<char>,
    params: JsonView,
    id: Seq<char>,
) -> bool {
    &&& message.get("id"@) == Some(value)
    &&& message.get_str("method"@) == Some(method)
    &&& message.get("params"@) == Some(params)
    &&& params.get_str("threadId"@) == Some(id)
    &&& id.len() > 0
}

proof fn lemma_question_asked(app: AppView, request: RequestView, params: JsonView)
    requires
        listed_once(app.sessions),
    ensures
        ({
            let after = app.question_asked(request, params);
            let entry = MessageView {
                id: "request-"@ + id_label(request.id),
                kind: MessageKind::Question,
                text: request_shown(request.kind, params),
            };
            &&& after.pending_requests == app.pending_requests.push(request)
            &&& after.queued_replies == app.queued_replies
            &&& after.lifecycle.adopted.contains(request.thread_id)
            &&& after.notice == "Selected session needs input"@
            &&& listed_once(after.sessions)
            &&& others_stay(app, after, request.thread_id)
            &&& app.session(request.thread_id) matches Some(before) ==> (after.session(
                request.thread_id,
            ) matches Some(session) && session == (SessionView {
                status: SessionStatus::NeedsInput,
                messages: session.messages,
                ..before
            }) && shows_message(session.messages, entry))
        }),
{
    reveal(AppView::question_asked);
    reveal(AppView::question_shown);
    reveal(AppView::noting);
    let id = request.thread_id;
    let entry = MessageView {
        id: "request-"@ + id_label(request.id),
        kind: MessageKind::Question,
        text: request_shown(request.kind, params),
    };
    let adopted = app.adopting(id);
    assert(adopted == (AppView {
        lifecycle: adopted.lifecycle,
        initial_scan_seen: adopted.initial_scan_seen,
        ..app
    }) && adopted.lifecycle.adopted.contains(id)) by {
        reveal(AppView::adopting);
    }
    let shown = adopted.question_shown(request, params);
    lemma_session_slot(app.sessions, id);
    if let Some(k) = session_slot(app.sessions, id) {
        let session = app.sessions[k];
        let messages = upsert(session.messages, entry);
        law_upsert_keeps_other_messages(session.messages, entry);
        lemma_message_index(messages, entry.id);
        let i = message_index(messages, entry.id)->0;
        assert(messages[i] == entry);
        lemma_updated(
            adopted,
            k,
            SessionView { status: SessionStatus::NeedsInput, messages, ..session },
        );
    }
    let waiting = AppView {
        pending_requests: shown.pending_requests.push(request),
        ..shown
    };
    assert(forall|x: Seq<char>| #[trigger] waiting.session(x) == shown.session(x));
    lemma_resorted(waiting);
    let after = app.question_asked(request, params);
    assert forall|other: Seq<char>| other != id implies #[trigger] after.session(other)
        == app.session(other) by {
        assert(waiting.resorted().session(other) == waiting.session(other));
        assert(shown.session(other) == app.session(other)) by {
            assert(adopted.session(other) == app.session(other));
        }
    }
    assert(waiting.resorted().session(id) == waiting.session(id));
}

/// A request of the app-server makes its session wait for the user: the session needs
/// an answer and shows the question, and the request is kept until it is answered.
/// Other sessions stay as they are. Nothing is sent yet, unless a reply was queued for
/// the request, which is its answer then.
pub proof fn law_questions_wait_for_the_user(
    desk: Desk,
    message: JsonView,
    value: JsonView,
    method: Seq<char>,
    params: JsonView,
    id: Seq<char>,
)
    requires
        listed_once(desk.app.sessions),
        asks(message, value, method, params, id),
    ensures
        desk.received(message) matches Ok(after) && {
            let request = RequestView {
                id: value,
                thread_id: id,
                kind: request_kind(method, params),
            };
            let entry = MessageView {
                id: "request-"@ + id_label(value),
                kind: MessageKind::Question,
                text: request_shown(request.kind, params),
            };
            &&& lookup(desk.app.queued_replies, id) is None ==> {
                &&& after.out == desk.out
                &&& after.app.pending_requests == desk.app.pending_requests.push(request)
                &&& desk.app.session(id) is Some ==> (after.app.session(id) matches Some(session)
                    && session.status == SessionStatus::NeedsInput && shows_message(
                    session.messages,
                    entry,
                ))
                &&& others_stay(desk.app, after.app, id)
                &&& after.app.lifecycle.adopted.contains(id)
            }
            &&& lookup(desk.app.queued_replies, id) is Some ==> {
                &&& after.out.messages.len() == desk.out.messages.len() + 1
                &&& after.app.pending_requests.len() == desk.app.pending_requests.len()
            }
        },
{
    reveal(Desk::received);
    reveal(Desk::asked);
    reveal(Desk::questioned);
    reveal(AppView::unqueued);
    let request = RequestView { id: value, thread_id: id, kind: request_kind(method, params) };
    lemma_question_asked(desk.app, request, params);
    let asked = desk.on(desk.app.question_asked(request, params));
    if let Some(reply) = lookup(desk.app.queued_replies, id) {
        let ready = asked.on(asked.app.unqueued(id));
        let requests = ready.app.pending_requests;
        assert(requests.last().thread_id == id);
        lemma_request_found(requests, id, requests.len() - 1);
        law_taken_requests_are_answered_once(
            ready,
            id,
            reply,
            request_slot(requests, id)->0,
        );
    }
}

/// A reply that waits for a question is its answer when the question comes, where no
/// other question of the session waits.
pub proof fn law_queued_replies_answer_their_questions(
    desk: Desk,
    message: JsonView,
    value: JsonView,
    method: Seq<char>,
    params: JsonView,
    id: Seq<char>,
    reply: Seq<char>,
    answer: JsonView,
)
    requires
        listed_once(desk.app.sessions),
        asks(message, value, method, params, id),
        lookup(desk.app.queued_replies, id) == Some(reply),
        request_slot(desk.app.pending_requests, id) is None,
        answer_value(request_kind(method, params), reply) == Some(answer),
    ensures
        desk.received(message) matches Ok(after) && after.out.messages == desk.out.messages.push(
            OutgoingView::Response { id: value, result: answer },
        ) && after.app.pending_requests == desk.app.pending_requests,
{
    reveal(Desk::received);
    reveal(Desk::asked);
    reveal(Desk::questioned);
    reveal(AppView::unqueued);
    let request = RequestView { id: value, thread_id: id, kind: request_kind(method, params) };
    lemma_question_asked(desk.app, request, params);
    let asked = desk.on(desk.app.question_asked(request, params));
    let ready = asked.on(asked.app.unqueued(id));
    let requests = ready.app.pending_requests;
    lemma_only_request(desk.app.pending_requests, request);
    let slot = desk.app.pending_requests.len() as int;
    law_taken_requests_are_answered_once(ready, id, reply, slot);
    let after = ready.answering(id, reply);
    assert(requests.remove(slot) =~= desk.app.pending_requests);
    assert(!(request.kind is Unsupported)) by {
        reveal(answer_value);
    }
    assert(after.out.messages =~= desk.out.messages.push(
        OutgoingView::Response { id: value, result: answer },
    ));
}

proof fn lemma_only_request(requests: Seq<RequestView>, request: RequestView)
    requires
        request_slot(requests, request.thread_id) is None,
    ensures
        request_slot(requests.push(request), request.thread_id) == Some(requests.len() as int),
    decreases requests.len(),
{
    let all = requests.push(request);
    if requests.len() > 0 {
        assert(all.drop_first() =~= requests.drop_first().push(request));
        lemma_only_request(requests.drop_first(), request);
    }
}

proof fn lemma_request_found(requests: Seq<RequestView>, id: Seq<char>, k: int)
    requires
        0 <= k < requests.len(),
        requests[k].thread_id == id,
    ensures
        request_slot(requests, id) matches Some(i) && 0 <= i < requests.len(),
    decreases requests.len(),
{
    if k > 0 && requests[0].thread_id != id {
        let rest = requests.drop_first();
        assert(rest[k - 1] == requests[k]);
        lemma_request_found(rest, id, k - 1);
    }
}

/// Whether the user says a text in some messages.
pub open spec fn user_said(messages: Seq<MessageView>, text: Seq<char>) -> bool {
    exists|i: int|
        0 <= i < messages.len() && (#[trigger] messages[i]).kind == MessageKind::User
            && messages[i].text == text
}

/// The session of an answer works on and shows what the user answered.
pub proof fn law_answered_sessions_work_on(desk: Desk, id: Seq<char>, text: Seq<char>, slot: int)
    requires
        listed_once(desk.app.sessions),
        request_slot(desk.app.pending_requests, id) == Some(slot),
        !(desk.app.pending_requests[slot].kind is Unsupported),
        desk.app.session(id) is Some,
    ensures
        desk.answering(id, text).app.session(id) matches Some(session) && session.status
            == SessionStatus::Working && user_said(session.messages, text),
        others_stay(desk.app, desk.answering(id, text).app, id),
{
    reveal(Desk::answering);
    reveal(Desk::replying);
    reveal(AppView::without_request);
    reveal(AppView::answer_shown);
    reveal(AppView::working_on);
    reveal(AppView::noting);
    reveal(answer_value);
    let rest = desk.app.without_request(slot);
    let entry = local_answer(rest.pending_requests.len(), text);
    lemma_session_slot(rest.sessions, id);
    let k = session_slot(rest.sessions, id)->0;
    let session = rest.sessions[k];
    let messages = upsert(session.messages, entry);
    law_upsert_keeps_other_messages(session.messages, entry);
    lemma_message_index(messages, entry.id);
    let i = message_index(messages, entry.id)->0;
    assert(messages[i] == entry);
    lemma_updated(rest, k, SessionView { status: SessionStatus::Working, messages, ..session });
    let working = rest.working_on(id, entry);
    let told = working.noting("Response sent; session resumed"@);
    assert(forall|x: Seq<char>| #[trigger] told.session(x) == working.session(x));
    lemma_resorted(told);
    let after = desk.answering(id, text).app;
    assert(after == told.resorted());
    assert(after.session(id) == told.session(id));
    assert(after.session(id) == Some(
        SessionView { status: SessionStatus::Working, messages, ..session },
    ));
    assert(0 <= i < messages.len() && messages[i].kind == MessageKind::User);
    assert(user_said(messages, text));
    assert forall|other: Seq<char>| other != id implies #[trigger] after.session(other)
        == desk.app.session(other) by {
        assert(rest.session(other) == desk.app.session(other));
        assert(working.session(other) == rest.session(other));
    }
}

} // verus!
