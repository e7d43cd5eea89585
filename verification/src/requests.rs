//! Requests to the app-server: lists, histories, turns and answers.

use vstd::prelude::*;

use crate::assoc::law_keys_stay_distinct;
use crate::deck::{
    local_answer, mebibytes, preview_error, preview_heading, questions_among, REFRESH_INTERVAL_MS,
};
use crate::desk::{Desk, desk, OutcomeView};
use crate::json::Json;
use crate::model::{MessageEntry, MessageKind, SessionStatus};
use crate::params::{
    answer_json, initialize_params_json, list_params_json, local_prompt_entry, read_params_json,
    steer_params_json, turn_params_json,
};
use crate::protocol::PendingRequestKind;
use crate::rpc::RpcOutbox;
use crate::slots::{find_request, find_session, is_reading_thread, put_call};
use crate::state::{
    App, AppView, AttachRequest, call_views, HistoryRequest, option_view, PendingCall,
    PendingRequest, PromptDraft, TranscriptOutcome,
};
use crate::text::{
    concat_text, copy_option, decimal_text, option_text, same_text, wide_decimal_text,
};
use crate::views::{group_views, views};

verus! {

broadcast use group_views;

/// The mathematical form of what the look at a transcript gave.
pub open spec fn outcome_view(outcome: TranscriptOutcome) -> OutcomeView {
    match outcome {
        TranscriptOutcome::Small => OutcomeView::Small,
        TranscriptOutcome::Preview(preview) => OutcomeView::Preview {
            file_bytes: preview.file_bytes as nat,
            messages: views(preview.messages@),
        },
        TranscriptOutcome::Unavailable => OutcomeView::Unavailable,
    }
}

/// The messages among some that are questions.
fn question_messages(messages: &Vec<MessageEntry>) -> (questions: Vec<MessageEntry>)
    ensures
        views(questions@) == questions_among(views(messages@)),
{
    let ghost all = views(messages@);
    let mut questions: Vec<MessageEntry> = Vec::new();
    let mut i: usize = 0;
    assert(all.take(0) =~= seq![]);
    while i < messages.len()
        invariant
            i <= messages.len(),
            all == views(messages@),
            views(questions@) == questions_among(all.take(i as int)),
        decreases messages.len() - i,
    {
        proof {
            assert(all.take(i + 1).drop_last() =~= all.take(i as int));
            assert(all.take(i + 1).last() == messages@[i as int]@);
        }
        if messages[i].kind == MessageKind::Question {
            questions.push(messages[i].clone());
        }
        i += 1;
    }
    assert(all.take(all.len() as int) =~= all);
    questions
}

/// A number of bytes in mebibytes, with one decimal.
fn mebibytes_text(bytes: u64) -> (text: String)
    ensures
        text@ == mebibytes(bytes as nat),
{
    let scaled: u128 = bytes as u128 * 10;
    let tenths: u128 = scaled / 1048576;
    let rest: u128 = scaled % 1048576;
    let rounded: u128 = if rest > 524288 || (rest == 524288 && tenths % 2 == 1) {
        tenths + 1
    } else {
        tenths
    };
    let mut text = wide_decimal_text(rounded / 10);
    text.append(".");
    text.append(wide_decimal_text(rounded % 10).as_str());
    text
}

/// The heading above the end of a large transcript.
fn preview_heading_text(file_bytes: u64) -> (text: String)
    ensures
        text@ == preview_heading(file_bytes as nat).text,
{
    let mut text = concat_text("Large session (", mebibytes_text(file_bytes).as_str());
    text.append(" MiB) · showing the latest 64 MiB · attach for full history");
    text
}

impl App {
    pub(crate) fn call(
        &mut self,
        method: &str,
        params: Json,
        call: PendingCall,
        sender: &mut RpcOutbox,
    )
        requires
            old(self)@.wf(),
        ensures
            desk(final(self)@, final(sender)@) == desk(old(self)@, old(sender)@).calling(
                method@,
                params@,
                call@,
            ),
            final(self)@.wf(),
    {
        reveal(Desk::calling);
        reveal(AppView::calling);
        let number: u64 = sender.request(method, params);
        let calls = self.pending_calls_mut();
        proof {
            law_keys_stay_distinct(call_views(calls@), number, call@);
        }
        put_call(calls, number, call);
    }

    pub(crate) fn call_out(
        &mut self,
        method: &str,
        params: Json,
        call: PendingCall,
        notice: &str,
        sender: &mut RpcOutbox,
    )
        requires
            old(self)@.wf(),
        ensures
            desk(final(self)@, final(sender)@) == desk(old(self)@, old(sender)@).calling_out(
                method@,
                params@,
                call@,
                notice@,
            ),
            final(self)@.wf(),
    {
        reveal(Desk::calling_out);
        self.call(method, params, call, sender);
        self.note(notice);
    }

    /// Sends the first request.
    pub fn begin(&mut self, sender: &mut RpcOutbox)
        requires
            old(self)@.wf(),
        ensures
            desk(final(self)@, final(sender)@) == desk(old(self)@, old(sender)@).begun(),
            final(self)@.wf(),
    {
        reveal(Desk::begun);
        self.call("initialize", initialize_params_json(), PendingCall::Initialize, sender);
    }

    fn mark_list_sent(&mut self)
        requires
            old(self)@.wf(),
        ensures
            final(self)@ == old(self)@.list_sent(),
            final(self)@.wf(),
    {
        reveal(AppView::list_sent);
        let now: u64 = self.clock();
        self.put_list_inflight(true);
        self.put_last_refresh(now);
    }

    pub(crate) fn request_thread_list_page(
        &mut self,
        cursor: Option<&str>,
        paginate: bool,
        sender: &mut RpcOutbox,
    )
        requires
            old(self)@.wf(),
        ensures
            desk(final(self)@, final(sender)@) == desk(old(self)@, old(sender)@).listing(
                match cursor {
                    Some(cursor) => Some(cursor@),
                    None => None,
                },
                paginate,
            ),
            final(self)@.wf(),
    {
        reveal(Desk::listing);
        self.call(
            "thread/list",
            list_params_json(cursor),
            PendingCall::ThreadList { paginate },
            sender,
        );
        self.mark_list_sent();
    }

    pub(crate) fn request_thread_list(&mut self, sender: &mut RpcOutbox)
        requires
            old(self)@.wf(),
        ensures
            desk(final(self)@, final(sender)@) == desk(old(self)@, old(sender)@).listing_first(),
            final(self)@.wf(),
    {
        reveal(Desk::listing_first);
        let paginate = !self.initial_load_complete();
        self.request_thread_list_page(None, paginate, sender);
    }

    /// Asks for the list of threads again when it is time.
    pub fn tick(&mut self, sender: &mut RpcOutbox)
        requires
            old(self)@.wf(),
        ensures
            desk(final(self)@, final(sender)@) == desk(old(self)@, old(sender)@).ticked(),
            final(self)@.wf(),
    {
        reveal(Desk::ticked);
        if self.initialized() && !self.list_inflight() && self.clock() >= self.last_refresh()
            && self.clock() - self.last_refresh() >= REFRESH_INTERVAL_MS {
            self.request_thread_list(sender);
        }
    }

    fn read_thread(&mut self, id: &str, sender: &mut RpcOutbox)
        requires
            old(self)@.wf(),
        ensures
            desk(final(self)@, final(sender)@) == desk(old(self)@, old(sender)@).reading(id@),
            final(self)@.wf(),
    {
        reveal(Desk::reading);
        self.call(
            "thread/read",
            read_params_json(id),
            PendingCall::ThreadRead { thread_id: id.to_owned() },
            sender,
        );
    }

    fn transcript_of(&self, id: &str) -> (path: Option<String>)
        ensures
            option_text(path) == self@.transcript_of(id@),
    {
        match self.session(id) {
            Some(session) => copy_option(&session.path),
            None => None,
        }
    }

    fn want_history(&mut self, request: HistoryRequest)
        requires
            old(self)@.wf(),
        ensures
            final(self)@ == old(self)@.wanting_history(request@),
            final(self)@.wf(),
    {
        reveal(AppView::wanting_history);
        self.put_history_requested(Some(request));
    }

    pub(crate) fn load_history(
        &mut self,
        id: &str,
        after_attach: bool,
        sender: &mut RpcOutbox,
    )
        requires
            old(self)@.wf(),
        ensures
            desk(final(self)@, final(sender)@) == desk(old(self)@, old(sender)@).loading(
                id@,
                after_attach,
            ),
            final(self)@.wf(),
    {
        reveal(Desk::loading);
        match self.transcript_of(id) {
            Some(path) => self.want_history(
                HistoryRequest {
                    thread_id: id.to_owned(),
                    path,
                    after_attach,
                    keep_notice: false,
                },
            ),
            None => self.read_thread(id, sender),
        }
    }

    pub(crate) fn ensure_selected_history(&mut self, sender: &mut RpcOutbox)
        requires
            old(self)@.wf(),
        ensures
            desk(final(self)@, final(sender)@) == desk(
                old(self)@,
                old(sender)@,
            ).ensuring_history(),
            final(self)@.wf(),
    {
        reveal(Desk::ensuring_history);
        if let Some(session) = self.selected_session() {
            if !session.history_loaded {
                let id = session.id.clone();
                if !is_reading_thread(self.pending_calls(), id.as_str()) {
                    self.load_history(id.as_str(), false, sender);
                }
            }
        }
    }

    pub(crate) fn show_end(&mut self)
        requires
            old(self)@.wf(),
        ensures
            final(self)@ == old(self)@.at_end(),
            final(self)@.wf(),
    {
        reveal(AppView::at_end);
        self.put_scroll_back(0);
    }

    fn replace_messages(&mut self, id: &str, messages: Vec<MessageEntry>)
        requires
            old(self)@.wf(),
        ensures
            final(self)@ == old(self)@.with_messages(id@, views(messages@)),
            final(self)@.wf(),
    {
        reveal(AppView::with_messages);
        if let Some(i) = find_session(self.sessions(), id) {
            let sessions = self.sessions_mut();
            let session = &mut sessions[i];
            session.messages = messages;
            session.history_loaded = true;
        }
    }

    fn show_preview_error(&mut self, id: &str)
        requires
            old(self)@.wf(),
        ensures
            final(self)@ == old(self)@.preview_lost(id@),
            final(self)@.wf(),
    {
        reveal(AppView::preview_lost);
        let mut messages: Vec<MessageEntry> = Vec::new();
        messages.push(
            MessageEntry {
                id: "bounded-preview-error".to_owned(),
                kind: MessageKind::System,
                text: "Transcript preview is unavailable · attach to view the full history".to_owned(),
            },
        );
        assert(views(messages@) =~= seq![preview_error()]);
        self.replace_messages(id, messages);
        self.note("Transcript preview unavailable");
    }

    fn questions_of(&self, id: &str) -> (questions: Vec<MessageEntry>)
        ensures
            views(questions@) == self@.questions_of(id@),
    {
        match self.session(id) {
            Some(session) => question_messages(&session.messages),
            None => {
                let none: Vec<MessageEntry> = Vec::new();
                assert(views(none@) =~= seq![]);
                none
            },
        }
    }

    fn show_preview(&mut self, id: &str, file_bytes: u64, preview: Vec<MessageEntry>)
        requires
            old(self)@.wf(),
        ensures
            final(self)@ == old(self)@.preview_shown(id@, file_bytes as nat, views(preview@)),
            final(self)@.wf(),
    {
        reveal(AppView::preview_shown);
        let mut questions = self.questions_of(id);
        let mut preview = preview;
        let ghost given = views(preview@);
        let ghost asked = views(questions@);
        let mut messages: Vec<MessageEntry> = Vec::new();
        messages.push(
            MessageEntry {
                id: "bounded-preview".to_owned(),
                kind: MessageKind::System,
                text: preview_heading_text(file_bytes),
            },
        );
        assert(views(messages@) =~= seq![preview_heading(file_bytes as nat)]);
        messages.append(&mut preview);
        messages.append(&mut questions);
        assert(views(messages@) =~= seq![preview_heading(file_bytes as nat)] + given + asked);
        self.replace_messages(id, messages);
        self.show_end();
        self.note("Large session: bounded preview");
    }

    fn show_return(&mut self)
        requires
            old(self)@.wf(),
        ensures
            final(self)@ == old(self)@.returned(),
            final(self)@.wf(),
    {
        reveal(AppView::returned);
        let kept = same_text(self.notice(), "Large session: bounded preview") || same_text(
            self.notice(),
            "Transcript preview unavailable",
        );
        self.show_end();
        if !kept {
            self.note("Returned from attached session");
        }
    }

    fn show_outcome(&mut self, id: &str, outcome: TranscriptOutcome, sender: &mut RpcOutbox)
        requires
            old(self)@.wf(),
        ensures
            desk(final(self)@, final(sender)@) == desk(old(self)@, old(sender)@).outcome_shown(
                id@,
                outcome_view(outcome),
            ),
            final(self)@.wf(),
    {
        reveal(Desk::outcome_shown);
        match outcome {
            TranscriptOutcome::Small => self.read_thread(id, sender),
            TranscriptOutcome::Unavailable => self.show_preview_error(id),
            TranscriptOutcome::Preview(preview) => self.show_preview(
                id,
                preview.file_bytes,
                preview.messages,
            ),
        }
    }

    /// Takes what the look at a transcript gave.
    pub fn handle_transcript(
        &mut self,
        request: HistoryRequest,
        outcome: TranscriptOutcome,
        sender: &mut RpcOutbox,
    )
        requires
            old(self)@.wf(),
        ensures
            desk(final(self)@, final(sender)@) == desk(old(self)@, old(sender)@).history_read(
                request@,
                outcome_view(outcome),
            ),
            final(self)@.wf(),
    {
        reveal(Desk::history_read);
        let notice = self.notice().to_owned();
        self.show_outcome(request.thread_id.as_str(), outcome, sender);
        if request.after_attach {
            self.show_return();
        } else if request.keep_notice {
            self.put_notice(notice);
        }
    }

    /// Hands over the transcript that should be read.
    pub fn take_history_request(&mut self) -> (request: Option<HistoryRequest>)
        requires
            old(self)@.wf(),
        ensures
            option_view(request) == old(self)@.history_requested,
            final(self)@ == (AppView { history_requested: None, ..old(self)@ }),
            final(self)@.wf(),
    {
        self.swap_history_requested()
    }

    /// Hands over the session to attach to.
    pub fn take_attach_request(&mut self) -> (request: Option<AttachRequest>)
        requires
            old(self)@.wf(),
        ensures
            option_view(request) == old(self)@.attach_requested,
            final(self)@ == (AppView { attach_requested: None, ..old(self)@ }),
            final(self)@.wf(),
    {
        self.swap_attach_requested()
    }

    /// Loads the session again after the return from the native interface.
    pub fn refresh_after_attach(&mut self, id: &str, sender: &mut RpcOutbox)
        requires
            old(self)@.wf(),
        ensures
            desk(final(self)@, final(sender)@) == desk(old(self)@, old(sender)@).after_attach(
                id@,
            ),
            final(self)@.wf(),
    {
        reveal(Desk::after_attach);
        self.select_session(id);
        let on_disk = self.transcript_of(id).is_some();
        self.load_history(id, true, sender);
        if on_disk {
            self.show_end();
        } else {
            self.show_return();
        }
    }

    fn show_working(&mut self, id: &str, entry: MessageEntry)
        requires
            old(self)@.wf(),
        ensures
            final(self)@ == old(self)@.working_on(id@, entry@),
            final(self)@.wf(),
    {
        reveal(AppView::working_on);
        if let Some(i) = find_session(self.sessions(), id) {
            let sessions = self.sessions_mut();
            let session = &mut sessions[i];
            session.status = SessionStatus::Working;
            session.upsert_message(entry);
        }
    }

    fn show_prompt(&mut self, id: &str, entry: MessageEntry)
        requires
            old(self)@.wf(),
        ensures
            final(self)@ == old(self)@.prompted(id@, entry@),
            final(self)@.wf(),
    {
        reveal(AppView::prompted);
        if let Some(i) = find_session(self.sessions(), id) {
            let sessions = self.sessions_mut();
            let session = &mut sessions[i];
            session.upsert_message(entry);
        }
    }

    pub(crate) fn start_turn(
        &mut self,
        id: &str,
        draft: &PromptDraft,
        sender: &mut RpcOutbox,
    )
        requires
            old(self)@.wf(),
        ensures
            desk(final(self)@, final(sender)@) == desk(old(self)@, old(sender)@).starting_turn(
                id@,
                draft@,
            ),
            final(self)@.wf(),
    {
        reveal(Desk::starting_turn);
        let entry = local_prompt_entry(sender.next_id, draft);
        self.call(
            "turn/start",
            turn_params_json(id, draft),
            PendingCall::TurnStart { thread_id: id.to_owned() },
            sender,
        );
        self.show_working(id, entry);
        self.sort_sessions_preserving_selection();
    }

    pub(crate) fn steer_turn(
        &mut self,
        id: &str,
        turn: &str,
        draft: &PromptDraft,
        sender: &mut RpcOutbox,
    )
        requires
            old(self)@.wf(),
        ensures
            desk(final(self)@, final(sender)@) == desk(old(self)@, old(sender)@).steering(
                id@,
                turn@,
                draft@,
            ),
            final(self)@.wf(),
    {
        reveal(Desk::steering);
        let entry = local_prompt_entry(sender.next_id, draft);
        self.call(
            "turn/steer",
            steer_params_json(id, turn, draft),
            PendingCall::TurnSteer { thread_id: id.to_owned() },
            sender,
        );
        self.show_prompt(id, entry);
        self.note("Sending follow-up…");
    }

    fn show_answer(&mut self, id: &str, text: &str)
        requires
            old(self)@.wf(),
        ensures
            final(self)@ == old(self)@.answer_shown(id@, text@),
            final(self)@.wf(),
    {
        reveal(AppView::answer_shown);
        let count: usize = self.pending_requests().len();
        let entry = MessageEntry {
            id: concat_text("local-answer-", decimal_text(count as u64).as_str()),
            kind: MessageKind::User,
            text: text.to_owned(),
        };
        assert(entry@ == local_answer(self@.pending_requests.len(), text@));
        self.show_working(id, entry);
        self.note("Response sent; session resumed");
        self.sort_sessions_preserving_selection();
    }

    fn reject_request(&mut self, id: &Json, method: &str, sender: &mut RpcOutbox)
        requires
            old(self)@.wf(),
        ensures
            desk(final(self)@, final(sender)@) == desk(old(self)@, old(sender)@).rejecting(
                id@,
                method@,
            ),
            final(self)@.wf(),
    {
        reveal(Desk::rejecting);
        let message = concat_text("codex-deck does not support ", method);
        sender.respond_error(id.duplicate(), -32601, message.as_str());
        self.put_notice(concat_text("Rejected unsupported request: ", method));
    }

    fn reply_to(&mut self, request: &PendingRequest, text: &str, sender: &mut RpcOutbox)
        requires
            old(self)@.wf(),
        ensures
            desk(final(self)@, final(sender)@) == desk(old(self)@, old(sender)@).replying(
                request@,
                text@,
            ),
            final(self)@.wf(),
    {
        reveal(Desk::replying);
        match answer_json(&request.kind, text) {
            Some(answer) => {
                sender.respond(request.id.duplicate(), answer);
                self.show_answer(request.thread_id.as_str(), text);
            },
            None => {
                if let PendingRequestKind::Unsupported(method) = &request.kind {
                    self.reject_request(&request.id, method.as_str(), sender);
                }
            },
        }
    }

    fn take_request(&mut self, slot: usize) -> (request: PendingRequest)
        requires
            old(self)@.wf(),
            slot < old(self)@.pending_requests.len(),
        ensures
            request@ == old(self)@.pending_requests[slot as int],
            final(self)@ == old(self)@.without_request(slot as int),
            final(self)@.wf(),
    {
        reveal(AppView::without_request);
        let requests = self.pending_requests_mut();
        requests.remove(slot)
    }

    pub(crate) fn answer_pending_request(
        &mut self,
        id: &str,
        text: &str,
        sender: &mut RpcOutbox,
    )
        requires
            old(self)@.wf(),
        ensures
            desk(final(self)@, final(sender)@) == desk(old(self)@, old(sender)@).answering(
                id@,
                text@,
            ),
            final(self)@.wf(),
    {
        reveal(Desk::answering);
        match find_request(self.pending_requests(), id) {
            Some(slot) => {
                let mut request = self.take_request(slot);
                request.thread_id = id.to_owned();
                self.reply_to(&request, text, sender);
            },
            None => self.note("Codex question details are not available yet"),
        }
    }
}

} // verus!
