//! Sending what is in the composer.

use vstd::prelude::*;

use crate::composer::{Composer, ComposerView, ComposeTarget};
use crate::deck::request_slot;
use crate::desk::{Desk, desk};
use crate::model::{Session, SessionStatus};
use crate::params::{name_params_json, start_params_json, thread_params_json};
use crate::rpc::RpcOutbox;
use crate::slots::find_request;
use crate::state::{App, AppView, PendingCall, PromptDraft};
use crate::text::{copy_option, lemma_offset_ends, option_text, text_is_empty, text_len, trim_text};
use crate::views::group_views;

verus! {

broadcast use group_views;

impl App {
    pub(crate) fn close_composer(&mut self)
        requires
            old(self)@.wf(),
        ensures
            final(self)@ == old(self)@.closed(),
            final(self)@.wf(),
    {
        reveal(AppView::closed);
        self.put_composer_open(false);
    }

    pub(crate) fn show_composer(&mut self)
        requires
            old(self)@.wf(),
        ensures
            final(self)@ == old(self)@.opened(),
            final(self)@.wf(),
    {
        reveal(AppView::opened);
        self.put_composer_open(true);
    }

    pub(crate) fn empty_composer(&mut self)
        requires
            old(self)@.wf(),
        ensures
            final(self)@ == old(self)@.emptied(),
            final(self)@.wf(),
    {
        reveal(AppView::emptied);
        reveal(AppView::with_composer);
        self.composer_mut().reset();
    }

    fn take_name(&mut self)
        requires
            old(self)@.wf(),
        ensures
            final(self)@ == old(self)@.name_taken(),
            final(self)@.wf(),
    {
        reveal(AppView::name_taken);
        self.empty_composer();
        self.close_composer();
    }

    fn take_prompt(&mut self)
        requires
            old(self)@.wf(),
        ensures
            final(self)@ == old(self)@.prompt_taken(),
            final(self)@.wf(),
    {
        reveal(AppView::prompt_taken);
        self.empty_composer();
        self.cache_current_draft();
        self.show_end();
    }

    fn keep_images(&mut self)
        requires
            old(self)@.wf(),
        ensures
            final(self)@ == old(self)@.with_composer(
                ComposerView::empty(old(self)@.composer.target).attach_images(
                    old(self)@.composer.images,
                ),
            ),
            final(self)@.wf(),
    {
        reveal(AppView::with_composer);
        self.composer_mut().clear_text_keep_images();
    }

    fn take_answer(&mut self)
        requires
            old(self)@.wf(),
        ensures
            final(self)@ == old(self)@.answer_taken(),
            final(self)@.wf(),
    {
        reveal(AppView::answer_taken);
        self.keep_images();
        self.close_composer();
        self.cache_current_draft();
    }

    fn restore_draft(&mut self, draft: PromptDraft)
        requires
            old(self)@.wf(),
        ensures
            final(self)@ == old(self)@.given_back(draft@),
            final(self)@.wf(),
    {
        reveal(AppView::given_back);
        reveal(AppView::with_composer);
        let mut composer = Composer::default();
        composer.cursor = text_len(draft.text.as_str());
        composer.text = draft.text;
        composer.images = draft.images;
        composer.skills = draft.skills;
        proof {
            lemma_offset_ends(composer.text@);
        }
        self.put_composer(composer);
        self.cache_current_draft();
        self.note("No session selected; switched to new task");
    }

    fn send_name(&mut self, name: &str, sender: &mut RpcOutbox)
        requires
            old(self)@.wf(),
        ensures
            desk(final(self)@, final(sender)@) == desk(old(self)@, old(sender)@).sending_name(
                name@,
            ),
            final(self)@.wf(),
    {
        reveal(Desk::sending_name);
        match copy_option(self.rename_thread_id()) {
            Some(id) => self.call_out(
                "thread/name/set",
                name_params_json(id.as_str(), name),
                PendingCall::ThreadNameSet { thread_id: id, name: name.to_owned() },
                "Renaming session…",
                sender,
            ),
            None => {
                self.cancel_rename();
                self.note("Rename target is no longer available");
            },
        }
    }

    fn submit_name(&mut self, sender: &mut RpcOutbox)
        requires
            old(self)@.wf(),
        ensures
            desk(final(self)@, final(sender)@) == desk(
                old(self)@,
                old(sender)@,
            ).submitting_name(),
            final(self)@.wf(),
    {
        reveal(Desk::submitting_name);
        let name = trim_text(self.composer().text.as_str());
        if !text_is_empty(name.as_str()) {
            self.take_name();
            self.send_name(name.as_str(), sender);
        }
    }

    fn start_task(&mut self, draft: PromptDraft, sender: &mut RpcOutbox)
        requires
            old(self)@.wf(),
        ensures
            desk(final(self)@, final(sender)@) == desk(old(self)@, old(sender)@).starting_task(
                draft@,
            ),
            final(self)@.wf(),
    {
        reveal(Desk::starting_task);
        let params = start_params_json(self.cwd());
        self.close_composer();
        self.call_out(
            "thread/start",
            params,
            PendingCall::ThreadStart { draft },
            "Starting background session…",
            sender,
        );
    }

    fn send_reply(&mut self, session: &Session, draft: PromptDraft, sender: &mut RpcOutbox)
        requires
            old(self)@.wf(),
        ensures
            desk(final(self)@, final(sender)@) == desk(old(self)@, old(sender)@).sending_reply(
                session@,
                draft@,
            ),
            final(self)@.wf(),
    {
        reveal(Desk::sending_reply);
        let turn = if session.status == SessionStatus::Working {
            copy_option(&session.active_turn_id)
        } else {
            None
        };
        match turn {
            Some(turn) => self.steer_turn(session.id.as_str(), turn.as_str(), &draft, sender),
            None => self.call_out(
                "thread/resume",
                thread_params_json(session.id.as_str()),
                PendingCall::ThreadResumeForReply { thread_id: session.id.clone(), draft },
                "Resuming session…",
                sender,
            ),
        }
    }

    fn submit_reply(&mut self, draft: PromptDraft, sender: &mut RpcOutbox)
        requires
            old(self)@.wf(),
        ensures
            desk(final(self)@, final(sender)@) == desk(
                old(self)@,
                old(sender)@,
            ).submitting_reply(draft@),
            final(self)@.wf(),
    {
        reveal(Desk::submitting_reply);
        match self.selected_session() {
            Some(session) => {
                let session = session.clone();
                self.track_session(session.id.as_str());
                self.close_composer();
                self.send_reply(&session, draft, sender);
            },
            None => self.restore_draft(draft),
        }
    }

    fn submit_prompt(&mut self, draft: PromptDraft, sender: &mut RpcOutbox)
        requires
            old(self)@.wf(),
        ensures
            desk(final(self)@, final(sender)@) == desk(
                old(self)@,
                old(sender)@,
            ).submitting_prompt(draft@),
            final(self)@.wf(),
    {
        reveal(Desk::submitting_prompt);
        let target = self.composer().target;
        self.take_prompt();
        if target == ComposeTarget::NewTask {
            self.start_task(draft, sender);
        } else {
            self.submit_reply(draft, sender);
        }
    }

    fn submit_answer(&mut self, id: &str, text: &str, sender: &mut RpcOutbox)
        requires
            old(self)@.wf(),
        ensures
            desk(final(self)@, final(sender)@) == desk(
                old(self)@,
                old(sender)@,
            ).submitting_answer(id@, text@),
            final(self)@.wf(),
    {
        reveal(Desk::submitting_answer);
        if text_is_empty(text) {
            self.note("This request needs a text answer; attached images were kept");
        } else {
            self.take_answer();
            self.answer_pending_request(id, text, sender);
        }
    }

    fn waiting_session(&self) -> (id: Option<String>)
        ensures
            option_text(id) == self@.waiting_session(),
    {
        if self.composer().target != ComposeTarget::Reply {
            return None;
        }
        match self.selected_id() {
            Some(id) => {
                if find_request(self.pending_requests(), id.as_str()).is_some() {
                    Some(id)
                } else {
                    None
                }
            },
            None => None,
        }
    }

    /// Whether the selected session waits for the user.
    pub fn selected_has_pending_request(&self) -> (waiting: bool)
        ensures
            waiting == (self@.selected_id() matches Some(id) && request_slot(
                self@.pending_requests,
                id,
            ) is Some),
    {
        match self.selected_session() {
            Some(session) => find_request(
                self.pending_requests(),
                session.id.as_str(),
            ).is_some(),
            None => false,
        }
    }

    fn prompt(&self) -> (draft: PromptDraft)
        requires
            self@.wf(),
        ensures
            draft@ == self@.prompt(),
    {
        let composer = self.composer().clone();
        let text = trim_text(composer.prompt_text().as_str());
        PromptDraft { text, images: composer.images, skills: composer.skills }
    }

    /// Sends what is in the composer.
    pub fn submit(&mut self, sender: &mut RpcOutbox)
        requires
            old(self)@.wf(),
        ensures
            desk(final(self)@, final(sender)@) == desk(old(self)@, old(sender)@).submitting(),
            final(self)@.wf(),
    {
        reveal(Desk::submitting);
        if self.composer().target == ComposeTarget::Rename {
            self.submit_name(sender);
            return;
        }
        let draft = self.prompt();
        match self.waiting_session() {
            Some(id) => self.submit_answer(id.as_str(), draft.text.as_str(), sender),
            None => {
                if !text_is_empty(draft.text.as_str()) || draft.images.len() > 0 {
                    self.submit_prompt(draft, sender);
                }
            },
        }
    }
}

} // verus!
