//! What the app-server answers and asks.

use vstd::prelude::*;

use crate::assoc::{law_keys_stay_distinct, lookup};
use crate::deck::member_or_null;
use crate::desk::{answered_number, came, Desk, desk, resumed_status};
use crate::json::{Json, object0};
use crate::lifecycle::id_set;
use crate::model::{MessageEntry, MessageKind, or_empty, Session, SessionStatus};
use crate::params::request_kind_of;
use crate::protocol::{active_turn_id, pending_request_display, rpc_id_label};
use crate::rpc::RpcOutbox;
use crate::skills::parse_skills;
use crate::slots::{
    find_call, find_reply, find_request, find_session, put_reply, take_call, take_reply,
};
use crate::state::{
    App, AppError, AppView, call_views, CallView, option_view, PendingCall, PendingRequest,
    PromptDraft, reply_views,
};
use crate::text::{
    concat_text, copy_texts, decimal_text, option_text, own_option, text_is_empty, texts,
};
use crate::views::group_views;

verus! {

broadcast use group_views;

fn owned_member(value: &Json, key: &str) -> (member: Json)
    ensures
        member@ == member_or_null(value@, key@),
{
    match value.get(key) {
        Some(member) => member.duplicate(),
        None => Json::Null,
    }
}

fn owned_text(text: Option<&str>) -> (owned: String)
    ensures
        owned@ == or_empty(
            match text {
                Some(text) => Some(text@),
                None => None,
            },
        ),
{
    match text {
        Some(text) => text.to_owned(),
        None => String::new(),
    }
}

fn resumed_status_of(thread: &Json) -> (status: SessionStatus)
    ensures
        status == resumed_status(thread@),
{
    match thread.get("status") {
        Some(status) => SessionStatus::from_protocol(status),
        None => SessionStatus::Completed,
    }
}

fn answered_number_of(message: &Json) -> (number: Option<u64>)
    ensures
        number == answered_number(message@),
{
    match message.get("id") {
        Some(id) => id.as_u64(),
        None => None,
    }
}

impl App {
    fn finish_scan(&mut self)
        requires
            old(self)@.wf(),
        ensures
            final(self)@ == old(self)@.scanned(),
            final(self)@.wf(),
    {
        reveal(AppView::scanned);
        let all = self.initial_scan_seen();
        let seen = copy_texts(all);
        proof {
            reveal(id_set);
            assert(id_set(seen@) =~= id_set(all@));
        }
        self.lifecycle_mut().finish_initial_scan(&seen);
    }

    fn mark_list_done(&mut self)
        requires
            old(self)@.wf(),
        ensures
            final(self)@ == old(self)@.list_done(),
            final(self)@.wf(),
    {
        reveal(AppView::list_done);
        self.put_list_inflight(false);
        self.put_initial_load_complete(true);
    }

    fn keep_first_notice(&mut self)
        requires
            old(self)@.wf(),
        ensures
            final(self)@ == old(self)@.first_shown(),
            final(self)@.wf(),
    {
        reveal(AppView::first_shown);
        let empty = self.sessions().len() == 0;
        if let Some(request) = self.swap_history_requested() {
            let mut request = request;
            request.keep_notice = true;
            self.put_history_requested(Some(request));
        }
        let notice = if empty {
            "Type a task and press Enter".to_owned()
        } else {
            String::new()
        };
        self.put_notice(notice);
    }

    fn complete_list(&mut self, sender: &mut RpcOutbox)
        requires
            old(self)@.wf(),
        ensures
            desk(final(self)@, final(sender)@) == desk(
                old(self)@,
                old(sender)@,
            ).list_completed(),
            final(self)@.wf(),
    {
        reveal(Desk::list_completed);
        if self.initial_load_complete() {
            self.mark_list_done();
            self.ensure_selected_history(sender);
        } else {
            self.finish_scan();
            self.mark_list_done();
            self.ensure_selected_history(sender);
            self.keep_first_notice();
        }
    }

    fn take_list(&mut self, paginate: bool, result: &Json, sender: &mut RpcOutbox)
        requires
            old(self)@.wf(),
        ensures
            desk(final(self)@, final(sender)@) == desk(old(self)@, old(sender)@).listed(
                paginate,
                result@,
            ),
            final(self)@.wf(),
    {
        reveal(Desk::listed);
        self.merge_thread_list(result);
        let next = if paginate {
            result.get_str("nextCursor")
        } else {
            None
        };
        match next {
            Some(cursor) => {
                let count: usize = self.sessions().len();
                let mut notice = concat_text("Loading ", decimal_text(count as u64).as_str());
                notice.append(" sessions…");
                self.put_notice(notice);
                self.request_thread_list_page(Some(cursor), true, sender);
            },
            None => self.complete_list(sender),
        }
    }

    fn keep_images_of(&mut self, images: &Vec<String>)
        requires
            old(self)@.wf(),
        ensures
            final(self)@ == old(self)@.images_kept(texts(images@)),
            final(self)@.wf(),
    {
        reveal(AppView::images_kept);
        if images.len() > 0 {
            self.add_images(images);
        }
    }

    fn queue_reply(&mut self, id: &str, text: &str)
        requires
            old(self)@.wf(),
        ensures
            final(self)@ == old(self)@.queued(id@, text@),
            final(self)@.wf(),
    {
        reveal(AppView::queued);
        let replies = self.queued_replies_mut();
        proof {
            law_keys_stay_distinct(reply_views(replies@), id@, text@);
        }
        put_reply(replies, id, text);
        self.note("Waiting for Codex question details…");
    }

    fn resume_asking(&mut self, id: &str, draft: &PromptDraft, sender: &mut RpcOutbox)
        requires
            old(self)@.wf(),
        ensures
            desk(final(self)@, final(sender)@) == desk(old(self)@, old(sender)@).resumed_asking(
                id@,
                draft@,
            ),
            final(self)@.wf(),
    {
        reveal(Desk::resumed_asking);
        self.keep_images_of(&draft.images);
        if text_is_empty(draft.text.as_str()) {
            self.note("Session needs a text answer; attached images were kept");
            return;
        }
        if find_request(self.pending_requests(), id).is_some() {
            self.answer_pending_request(id, draft.text.as_str(), sender);
        } else {
            self.queue_reply(id, draft.text.as_str());
        }
    }

    fn take_resumed(
        &mut self,
        id: &str,
        draft: &PromptDraft,
        result: &Json,
        sender: &mut RpcOutbox,
    )
        requires
            old(self)@.wf(),
        ensures
            desk(final(self)@, final(sender)@) == desk(old(self)@, old(sender)@).resumed(
                id@,
                draft@,
                result@,
            ),
            final(self)@.wf(),
    {
        reveal(Desk::resumed);
        let thread = owned_member(result, "thread");
        self.apply_resumed_thread(id, &thread);
        match resumed_status_of(&thread) {
            SessionStatus::NeedsInput => self.resume_asking(id, draft, sender),
            SessionStatus::Working => match active_turn_id(&thread) {
                Some(turn) => self.steer_turn(id, turn.as_str(), draft, sender),
                None => self.note("Session is active; waiting for turn state"),
            },
            _ => self.start_turn(id, draft, sender),
        }
    }

    fn undo_call(&mut self, call: &PendingCall)
        requires
            old(self)@.wf(),
        ensures
            final(self)@ == old(self)@.refused(call@),
            final(self)@.wf(),
    {
        reveal(AppView::refused);
        match call {
            PendingCall::ThreadList { .. } => self.put_list_inflight(false),
            PendingCall::ThreadNameSet { .. } => self.cancel_rename(),
            PendingCall::SkillsList { cwd } => self.take_skills(cwd.as_str(), Vec::new()),
            _ => {},
        }
    }

    fn take_refusal(&mut self, call: &PendingCall, error: &Json)
        requires
            old(self)@.wf(),
        ensures
            final(self)@ == old(self)@.refusal_shown(call@, error@),
            final(self)@.wf(),
    {
        reveal(AppView::refusal_shown);
        self.undo_call(call);
        match error.get_str("message") {
            Some(message) => self.note(message),
            None => self.note("Codex request failed"),
        }
    }

    fn mark_connected(&mut self)
        requires
            old(self)@.wf(),
        ensures
            final(self)@ == old(self)@.connected(),
            final(self)@.wf(),
    {
        reveal(AppView::connected);
        self.put_initialized(true);
        self.note("Connected");
    }

    fn take_initialized(&mut self, sender: &mut RpcOutbox)
        requires
            old(self)@.wf(),
        ensures
            desk(final(self)@, final(sender)@) == desk(old(self)@, old(sender)@).connected(),
            final(self)@.wf(),
    {
        reveal(Desk::connected);
        sender.notify("initialized", object0());
        self.mark_connected();
        self.request_thread_list(sender);
    }

    fn show_task(&mut self, session: Session)
        requires
            old(self)@.wf(),
        ensures
            final(self)@ == old(self)@.task_shown(session@),
            final(self)@.wf(),
    {
        reveal(AppView::task_shown);
        let id = session.id.clone();
        self.track_session(id.as_str());
        self.merge_session(session);
        self.cache_current_draft();
        self.select_session(id.as_str());
        self.load_reply_draft(id.as_str());
    }

    fn take_task(&mut self, draft: &PromptDraft, result: &Json, sender: &mut RpcOutbox) -> (done:
        Result<(), AppError>)
        requires
            old(self)@.wf(),
        ensures
            came(
                desk(old(self)@, old(sender)@),
                desk(old(self)@, old(sender)@).task_started(draft@, result@),
                desk(final(self)@, final(sender)@),
                done,
            ),
            final(self)@.wf(),
    {
        reveal(Desk::task_started);
        match result.get("thread") {
            Some(thread) => match Session::from_thread(thread) {
                Some(session) => {
                    let id = session.id.clone();
                    self.show_task(session);
                    self.start_turn(id.as_str(), draft, sender);
                    Ok(())
                },
                None => Err(AppError::InvalidThread),
            },
            None => Err(AppError::MissingThread),
        }
    }

    fn take_history(&mut self, id: &str, result: &Json)
        requires
            old(self)@.wf(),
        ensures
            final(self)@ == old(self)@.history_come(id@, result@),
            final(self)@.wf(),
    {
        reveal(AppView::history_come);
        if let Some(thread) = result.get("thread") {
            self.apply_thread_history(id, thread);
        }
    }

    fn set_turn(&mut self, id: &str, turn: Option<String>)
        requires
            old(self)@.wf(),
        ensures
            final(self)@ == old(self)@.turn_known(id@, option_text(turn)),
            final(self)@.wf(),
    {
        reveal(AppView::turn_known);
        if turn.is_some() {
            if let Some(i) = find_session(self.sessions(), id) {
                let sessions = self.sessions_mut();
                let session = &mut sessions[i];
                session.active_turn_id = turn;
                session.status = SessionStatus::Working;
            }
        }
    }

    fn take_turn(&mut self, id: &str, result: &Json)
        requires
            old(self)@.wf(),
        ensures
            final(self)@ == old(self)@.turn_under_way(id@, result@),
            final(self)@.wf(),
    {
        reveal(AppView::turn_under_way);
        let turn = match result.get("turn") {
            Some(turn) => own_option(turn.get_str("id")),
            None => None,
        };
        self.set_turn(id, turn);
        self.note("Working in background");
        self.sort_sessions_preserving_selection();
    }

    fn take_steered(&mut self, id: &str)
        requires
            old(self)@.wf(),
        ensures
            final(self)@ == old(self)@.steered(id@),
            final(self)@.wf(),
    {
        reveal(AppView::steered);
        let title = self.session_title(id);
        self.put_notice(concat_text("Sent follow-up to ", title.as_str()));
    }

    fn take_interrupted(&mut self, id: &str)
        requires
            old(self)@.wf(),
        ensures
            final(self)@ == old(self)@.interrupted(id@),
            final(self)@.wf(),
    {
        reveal(AppView::interrupted);
        let title = self.session_title(id);
        let mut notice = concat_text("Stopping ", title.as_str());
        notice.append(" · press Ctrl+X again after it completes to remove it");
        self.put_notice(notice);
    }

    fn name_session(&mut self, id: &str, name: &str)
        requires
            old(self)@.wf(),
        ensures
            final(self)@ == old(self)@.named(id@, name@),
            final(self)@.wf(),
    {
        reveal(AppView::named);
        if let Some(i) = find_session(self.sessions(), id) {
            let sessions = self.sessions_mut();
            let session = &mut sessions[i];
            session.title = name.to_owned();
        }
    }

    fn take_named(&mut self, id: &str, name: &str)
        requires
            old(self)@.wf(),
        ensures
            final(self)@ == old(self)@.name_set(id@, name@),
            final(self)@.wf(),
    {
        reveal(AppView::name_set);
        self.name_session(id, name);
        self.cancel_rename();
        self.put_notice(concat_text("Renamed session to ", name));
        self.sort_sessions_preserving_selection();
    }

    fn take_answer_to(&mut self, call: &PendingCall, result: &Json, sender: &mut RpcOutbox) -> (done:
        Result<(), AppError>)
        requires
            old(self)@.wf(),
        ensures
            came(
                desk(old(self)@, old(sender)@),
                desk(old(self)@, old(sender)@).answered(call@, result@),
                desk(final(self)@, final(sender)@),
                done,
            ),
            final(self)@.wf(),
    {
        reveal(Desk::answered);
        match call {
            PendingCall::Initialize => self.take_initialized(sender),
            PendingCall::ThreadList { paginate } => self.take_list(*paginate, result, sender),
            PendingCall::ThreadRead { thread_id } => self.take_history(
                
                thread_id.as_str(),
                result,
            ),
            PendingCall::ThreadStart { draft } => return self.take_task(draft, result, sender),
            PendingCall::ThreadResumeForReply { thread_id, draft } => self.take_resumed(
                thread_id.as_str(),
                draft,
                result,
                sender,
            ),
            PendingCall::TurnStart { thread_id } => self.take_turn(
                
                thread_id.as_str(),
                result,
            ),
            PendingCall::TurnSteer { thread_id } => self.take_steered(
                
                thread_id.as_str(),
            ),
            PendingCall::TurnInterrupt { thread_id } => self.take_interrupted(
                
                thread_id.as_str(),
            ),
            PendingCall::ThreadNameSet { thread_id, name } => self.take_named(
                
                thread_id.as_str(),
                name.as_str(),
            ),
            PendingCall::SkillsList { cwd } => self.take_skills(
                cwd.as_str(),
                parse_skills(result),
            ),
        }
        Ok(())
    }

    fn settle(&mut self, number: u64) -> (call: Option<PendingCall>)
        requires
            old(self)@.wf(),
        ensures
            option_view(call) == lookup(old(self)@.pending_calls, number),
            final(self)@ == old(self)@.settled(number),
            final(self)@.wf(),
    {
        reveal(AppView::settled);
        let calls = self.pending_calls_mut();
        proof {
            law_keys_stay_distinct(call_views(calls@), number, CallView::Initialize);
        }
        take_call(calls, number)
    }

    /// Takes the answer to a request.
    pub fn handle_response(&mut self, message: &Json, sender: &mut RpcOutbox) -> (done: Result<
        (),
        AppError,
    >)
        requires
            old(self)@.wf(),
        ensures
            came(
                desk(old(self)@, old(sender)@).settled_first(message@),
                desk(old(self)@, old(sender)@).response(message@),
                desk(final(self)@, final(sender)@),
                done,
            ),
            final(self)@.wf(),
    {
        reveal(Desk::response);
        let number: u64 = match answered_number_of(message) {
            Some(number) => number,
            None => return Ok(()),
        };
        if find_call(self.pending_calls(), number).is_none() {
            return Ok(());
        }
        match self.settle(number) {
            Some(call) => match message.get("error") {
                Some(error) => {
                    self.take_refusal(&call, error);
                    Ok(())
                },
                None => {
                    let result = owned_member(message, "result");
                    self.take_answer_to(&call, &result, sender)
                },
            },
            None => Ok(()),
        }
    }

    fn refuse_unroutable(&mut self, id: Json, method: &str, sender: &mut RpcOutbox)
        requires
            old(self)@.wf(),
        ensures
            desk(final(self)@, final(sender)@) == desk(old(self)@, old(sender)@).unroutable(
                id@,
                method@,
            ),
            final(self)@.wf(),
    {
        reveal(Desk::unroutable);
        sender.respond_error(id, -32601, "codex-deck cannot route this request");
        self.put_notice(concat_text("Unsupported app-server request: ", method));
    }

    fn show_question(&mut self, request: &PendingRequest, params: &Json)
        requires
            old(self)@.wf(),
        ensures
            final(self)@ == old(self)@.question_shown(request@, params@),
            final(self)@.wf(),
    {
        reveal(AppView::question_shown);
        if let Some(i) = find_session(self.sessions(), request.thread_id.as_str()) {
            let entry = MessageEntry {
                id: concat_text("request-", rpc_id_label(&request.id).as_str()),
                kind: MessageKind::Question,
                text: pending_request_display(&request.kind, params),
            };
            let sessions = self.sessions_mut();
            let session = &mut sessions[i];
            session.status = SessionStatus::NeedsInput;
            session.upsert_message(entry);
        }
    }

    fn ask(&mut self, request: PendingRequest, params: &Json)
        requires
            old(self)@.wf(),
        ensures
            final(self)@ == old(self)@.question_asked(request@, params@),
            final(self)@.wf(),
    {
        reveal(AppView::question_asked);
        self.track_session(request.thread_id.as_str());
        self.show_question(&request, params);
        self.pending_requests_mut().push(request);
        self.sort_sessions_preserving_selection();
        self.note("Selected session needs input");
    }

    fn unqueue(&mut self, id: &str) -> (reply: Option<String>)
        requires
            old(self)@.wf(),
        ensures
            option_text(reply) == lookup(old(self)@.queued_replies, id@),
            reply is Some ==> final(self)@ == old(self)@.unqueued(id@),
            reply is None ==> final(self)@ == old(self)@,
            final(self)@.wf(),
    {
        reveal(AppView::unqueued);
        if find_reply(self.queued_replies(), id).is_none() {
            return None;
        }
        let replies = self.queued_replies_mut();
        proof {
            law_keys_stay_distinct(reply_views(replies@), id@, seq![]);
        }
        take_reply(replies, id)
    }

    fn question(&mut self, request: PendingRequest, params: &Json, sender: &mut RpcOutbox)
        requires
            old(self)@.wf(),
        ensures
            desk(final(self)@, final(sender)@) == desk(old(self)@, old(sender)@).questioned(
                request@,
                params@,
            ),
            final(self)@.wf(),
    {
        reveal(Desk::questioned);
        let id = request.thread_id.clone();
        self.ask(request, params);
        if let Some(reply) = self.unqueue(id.as_str()) {
            self.answer_pending_request(id.as_str(), reply.as_str(), sender);
        }
    }

    /// Takes a request of the app-server.
    pub fn handle_server_request(&mut self, message: &Json, sender: &mut RpcOutbox)
        requires
            old(self)@.wf(),
        ensures
            desk(final(self)@, final(sender)@) == desk(old(self)@, old(sender)@).asked(message@),
            final(self)@.wf(),
    {
        reveal(Desk::asked);
        let id = owned_member(message, "id");
        let method = owned_text(message.get_str("method"));
        let params = owned_member(message, "params");
        let thread_id = owned_text(params.get_str("threadId"));
        if text_is_empty(thread_id.as_str()) {
            self.refuse_unroutable(id, method.as_str(), sender);
        } else {
            let kind = request_kind_of(method.as_str(), &params);
            self.question(PendingRequest { id, thread_id, kind }, &params, sender);
        }
    }

    /// Takes a message of the app-server.
    pub fn handle_protocol_message(&mut self, message: &Json, sender: &mut RpcOutbox) -> (done:
        Result<(), AppError>)
        requires
            old(self)@.wf(),
        ensures
            came(
                desk(old(self)@, old(sender)@).settled_first(message@),
                desk(old(self)@, old(sender)@).received(message@),
                desk(final(self)@, final(sender)@),
                done,
            ),
            final(self)@.wf(),
    {
        reveal(Desk::received);
        let identified = message.get("id").is_some();
        match message.get_str("method") {
            Some(method) => {
                if identified {
                    self.handle_server_request(message, sender);
                } else {
                    let params = owned_member(message, "params");
                    self.handle_notification(method, &params);
                }
                Ok(())
            },
            None => {
                if identified {
                    self.handle_response(message, sender)
                } else {
                    Ok(())
                }
            },
        }
    }

    /// Takes an event of the connection.
    pub fn handle_client_event(&mut self, event: ClientEvent, sender: &mut RpcOutbox) -> (done:
        Result<(), AppError>)
        requires
            old(self)@.wf(),
        ensures
            match event {
                ClientEvent::Message(message) => came(
                    desk(old(self)@, old(sender)@).settled_first(message@),
                    desk(old(self)@, old(sender)@).received(message@),
                    desk(final(self)@, final(sender)@),
                    done,
                ),
                ClientEvent::Warning(text) => done is Ok && final(self)@ == old(self)@.noting(
                    text@,
                ) && final(sender)@ == old(sender)@,
                ClientEvent::Disconnected(text) => done is Ok && final(self)@
                    == old(self)@.noting("Disconnected: "@ + text@) && final(sender)@
                    == old(sender)@,
            },
            final(self)@.wf(),
    {
        match event {
            ClientEvent::Message(message) => self.handle_protocol_message(&message, sender),
            ClientEvent::Warning(text) => {
                self.put_notice(text);
                Ok(())
            },
            ClientEvent::Disconnected(text) => {
                self.put_notice(concat_text("Disconnected: ", text.as_str()));
                Ok(())
            },
        }
    }
}

/// An event of the connection to the app-server.
#[derive(Debug)]
pub enum ClientEvent {
    Message(Json),
    Warning(String),
    Disconnected(String),
}

} // verus!
