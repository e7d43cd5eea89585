//! The dashboard together with its messages to the app-server.

use vstd::prelude::*;

use crate::assoc::lookup;
use crate::composer::ComposeTarget;
use crate::deck::{is_reading, matching_sessions, member_or_null, REFRESH_INTERVAL_MS, request_slot};
use crate::json::{JsonView, object};
use crate::keys::{KeyCode, KeyEvent, KeyKind};
use crate::model::{
    MessageView, or_empty, protocol_status, SessionStatus, SessionView, status_is_live,
    thread_session,
};
use crate::params::{
    answer_value, initialize_params, interrupt_params, list_params, local_prompt, name_params,
    read_params, request_kind, skills_params, start_params, steer_params, thread_params,
    turn_params,
};
use crate::protocol::{RequestKindView, running_turn_id};
use crate::rpc::{OutboxView, OutgoingView};
use crate::skills::skills_in;
use crate::state::{
    AppError, AppView, CallView, DraftView, HistoryView, MenuTab, MenuView, RequestView,
};
use crate::text::{decimal, trim};

verus! {

/// The dashboard and what waits to be sent.
pub struct Desk {
    pub app: AppView,
    pub out: OutboxView,
}

/// What a transcript's look gave.
#[verifier::ext_equal]
pub enum OutcomeView {
    Small,
    Preview { file_bytes: nat, messages: Seq<MessageView> },
    Unavailable,
}

/// The dashboard with an outbox.
pub open spec fn desk(app: AppView, out: OutboxView) -> Desk {
    Desk { app, out }
}

impl Desk {
    /// The dashboard changed, with nothing to send.
    pub open spec fn on(self, app: AppView) -> Desk {
        Desk { app, ..self }
    }

    /// A request whose answer is waited for.
    #[verifier::opaque]
    pub open spec fn calling(self, method: Seq<char>, params: JsonView, call: CallView) -> Desk {
        Desk {
            app: self.app.calling(self.out.next_id, call),
            out: self.out.request(method, params),
        }
    }

    /// A request with a notice.
    #[verifier::opaque]
    pub open spec fn calling_out(
        self,
        method: Seq<char>,
        params: JsonView,
        call: CallView,
        notice: Seq<char>,
    ) -> Desk {
        let called = self.calling(method, params, call);
        called.on(called.app.noting(notice))
    }

    /// The first request.
    #[verifier::opaque]
    pub open spec fn begun(self) -> Desk {
        self.calling("initialize"@, initialize_params(), CallView::Initialize)
    }

    /// A request for a page of the list of threads.
    #[verifier::opaque]
    pub open spec fn listing(self, cursor: Option<Seq<char>>, paginate: bool) -> Desk {
        let called = self.calling(
            "thread/list"@,
            list_params(cursor),
            CallView::ThreadList { paginate },
        );
        called.on(called.app.list_sent())
    }

    /// A request for the list of threads; all pages of it when it comes first.
    #[verifier::opaque]
    pub open spec fn listing_first(self) -> Desk {
        self.listing(None, !self.app.initial_load_complete)
    }

    /// The passing of time.
    #[verifier::opaque]
    pub open spec fn ticked(self) -> Desk {
        if self.app.initialized && !self.app.list_inflight && self.app.clock
            - self.app.last_refresh >= REFRESH_INTERVAL_MS {
            self.listing_first()
        } else {
            self
        }
    }

    /// A request for the history of a session through the app-server.
    #[verifier::opaque]
    pub open spec fn reading(self, id: Seq<char>) -> Desk {
        self.calling("thread/read"@, read_params(id), CallView::ThreadRead { thread_id: id })
    }

    /// The history of a session is loaded: its transcript is looked at first, where
    /// there is one.
    #[verifier::opaque]
    pub open spec fn loading(self, id: Seq<char>, after_attach: bool) -> Desk {
        match self.app.transcript_of(id) {
            Some(path) => self.on(
                self.app.wanting_history(
                    HistoryView { thread_id: id, path, after_attach, keep_notice: false },
                ),
            ),
            None => self.reading(id),
        }
    }

    /// The history of the selected session is loaded, unless it is there or on
    /// its way.
    #[verifier::opaque]
    pub open spec fn ensuring_history(self) -> Desk {
        match self.app.selected_session() {
            Some(session) => if session.history_loaded || is_reading(
                self.app.pending_calls,
                session.id,
            ) {
                self
            } else {
                self.loading(session.id, false)
            },
            None => self,
        }
    }

    /// What the look at a transcript gave is shown.
    #[verifier::opaque]
    pub open spec fn outcome_shown(self, id: Seq<char>, outcome: OutcomeView) -> Desk {
        match outcome {
            OutcomeView::Small => self.reading(id),
            OutcomeView::Unavailable => self.on(self.app.preview_lost(id)),
            OutcomeView::Preview { file_bytes, messages } => self.on(
                self.app.preview_shown(id, file_bytes, messages),
            ),
        }
    }

    /// A transcript was looked at, as was asked for.
    #[verifier::opaque]
    pub open spec fn history_read(self, request: HistoryView, outcome: OutcomeView) -> Desk {
        let shown = self.outcome_shown(request.thread_id, outcome);
        if request.after_attach {
            shown.on(shown.app.returned())
        } else if request.keep_notice {
            shown.on(shown.app.noting(self.app.notice))
        } else {
            shown
        }
    }

    /// The return from the native interface.
    #[verifier::opaque]
    pub open spec fn after_attach(self, id: Seq<char>) -> Desk {
        let selected = self.on(self.app.selecting(id));
        let loaded = selected.loading(id, true);
        if selected.app.transcript_of(id) is Some {
            loaded.on(loaded.app.at_end())
        } else {
            loaded.on(loaded.app.returned())
        }
    }

    /// A prompt starts a turn.
    #[verifier::opaque]
    pub open spec fn starting_turn(self, id: Seq<char>, draft: DraftView) -> Desk {
        let called = self.calling(
            "turn/start"@,
            turn_params(id, draft),
            CallView::TurnStart { thread_id: id },
        );
        called.on(called.app.working_on(id, local_prompt(self.out.next_id, draft)).resorted())
    }

    /// A prompt goes into the turn that is going on.
    #[verifier::opaque]
    pub open spec fn steering(self, id: Seq<char>, turn: Seq<char>, draft: DraftView) -> Desk {
        let called = self.calling(
            "turn/steer"@,
            steer_params(id, turn, draft),
            CallView::TurnSteer { thread_id: id },
        );
        called.on(
            called.app.prompted(id, local_prompt(self.out.next_id, draft)).noting(
                "Sending follow-up…"@,
            ),
        )
    }

    /// A request that is not supported is refused.
    #[verifier::opaque]
    pub open spec fn rejecting(self, id: JsonView, method: Seq<char>) -> Desk {
        Desk {
            app: self.app.noting("Rejected unsupported request: "@ + method),
            out: self.out.send(
                OutgoingView::Error {
                    id,
                    code: (-32601) as i64,
                    message: "codex-deck does not support "@ + method,
                },
            ),
        }
    }

    /// A request is answered.
    #[verifier::opaque]
    pub open spec fn replying(self, request: RequestView, text: Seq<char>) -> Desk {
        match answer_value(request.kind, text) {
            Some(answer) => Desk {
                app: self.app.answer_shown(request.thread_id, text),
                out: self.out.send(OutgoingView::Response { id: request.id, result: answer }),
            },
            None => match request.kind {
                RequestKindView::Unsupported(method) => self.rejecting(request.id, method),
                _ => self,
            },
        }
    }

    /// The user answers a request of a session.
    #[verifier::opaque]
    pub open spec fn answering(self, id: Seq<char>, text: Seq<char>) -> Desk {
        match request_slot(self.app.pending_requests, id) {
            Some(slot) => self.on(self.app.without_request(slot)).replying(
                RequestView { thread_id: id, ..self.app.pending_requests[slot] },
                text,
            ),
            None => self.on(self.app.noting("Codex question details are not available yet"@)),
        }
    }

    /// A new name is sent.
    #[verifier::opaque]
    pub open spec fn sending_name(self, name: Seq<char>) -> Desk {
        match self.app.rename_thread_id {
            Some(id) => self.calling_out(
                "thread/name/set"@,
                name_params(id, name),
                CallView::ThreadNameSet { thread_id: id, name },
                "Renaming session…"@,
            ),
            None => self.on(
                self.app.without_rename().noting("Rename target is no longer available"@),
            ),
        }
    }

    /// The new name of a session is sent, unless it is blank.
    #[verifier::opaque]
    pub open spec fn submitting_name(self) -> Desk {
        let name = trim(self.app.composer.text);
        if name.len() == 0 {
            self
        } else {
            self.on(self.app.name_taken()).sending_name(name)
        }
    }

    /// A new task is sent.
    #[verifier::opaque]
    pub open spec fn starting_task(self, draft: DraftView) -> Desk {
        self.on(self.app.closed()).calling_out(
            "thread/start"@,
            start_params(self.app.cwd),
            CallView::ThreadStart { draft },
            "Starting background session…"@,
        )
    }

    /// A prompt goes to a session.
    #[verifier::opaque]
    pub open spec fn sending_reply(self, session: SessionView, draft: DraftView) -> Desk {
        let turn = if session.status == SessionStatus::Working {
            session.active_turn_id
        } else {
            None
        };
        match turn {
            Some(turn) => self.steering(session.id, turn, draft),
            None => self.calling_out(
                "thread/resume"@,
                thread_params(session.id),
                CallView::ThreadResumeForReply { thread_id: session.id, draft },
                "Resuming session…"@,
            ),
        }
    }

    /// The prompt goes to the selected session.
    #[verifier::opaque]
    pub open spec fn submitting_reply(self, draft: DraftView) -> Desk {
        match self.app.selected_session() {
            Some(session) => self.on(self.app.adopting(session.id).closed()).sending_reply(
                session,
                draft,
            ),
            None => self.on(self.app.given_back(draft)),
        }
    }

    /// A prompt is sent, as a new task or to the selected session.
    #[verifier::opaque]
    pub open spec fn submitting_prompt(self, draft: DraftView) -> Desk {
        let ready = self.on(self.app.prompt_taken());
        if self.app.composer.target == ComposeTarget::NewTask {
            ready.starting_task(draft)
        } else {
            ready.submitting_reply(draft)
        }
    }

    /// The answer to a request is sent. It needs a text.
    #[verifier::opaque]
    pub open spec fn submitting_answer(self, id: Seq<char>, text: Seq<char>) -> Desk {
        if text.len() == 0 {
            self.on(
                self.app.noting("This request needs a text answer; attached images were kept"@),
            )
        } else {
            self.on(self.app.answer_taken()).answering(id, text)
        }
    }

    /// What is in the composer is sent.
    #[verifier::opaque]
    pub open spec fn submitting(self) -> Desk {
        let draft = self.app.prompt();
        if self.app.composer.target == ComposeTarget::Rename {
            self.submitting_name()
        } else {
            match self.app.waiting_session() {
                Some(id) => self.submitting_answer(id, draft.text),
                None => if draft.text.len() == 0 && draft.images.len() == 0 {
                    self
                } else {
                    self.submitting_prompt(draft)
                },
            }
        }
    }

    /// The last page of the list of threads has come.
    #[verifier::opaque]
    pub open spec fn list_completed(self) -> Desk {
        if self.app.initial_load_complete {
            self.on(self.app.list_done()).ensuring_history()
        } else {
            let ensured = self.on(self.app.scanned().list_done()).ensuring_history();
            ensured.on(ensured.app.first_shown())
        }
    }

    /// A page of the list of threads has come.
    #[verifier::opaque]
    pub open spec fn listed(self, paginate: bool, result: JsonView) -> Desk {
        let merged = self.on(self.app.merging_list(result));
        let next = if paginate {
            result.get_str("nextCursor"@)
        } else {
            None
        };
        match next {
            Some(cursor) => merged.on(
                merged.app.noting(
                    "Loading "@ + decimal(merged.app.sessions.len()) + " sessions…"@,
                ),
            ).listing(Some(cursor), true),
            None => merged.list_completed(),
        }
    }

    /// A thread that needs an answer was resumed to take a reply.
    #[verifier::opaque]
    pub open spec fn resumed_asking(self, id: Seq<char>, draft: DraftView) -> Desk {
        let kept = self.on(self.app.images_kept(draft.images));
        if draft.text.len() == 0 {
            kept.on(
                kept.app.noting("Session needs a text answer; attached images were kept"@),
            )
        } else if request_slot(kept.app.pending_requests, id) is Some {
            kept.answering(id, draft.text)
        } else {
            kept.on(kept.app.queued(id, draft.text))
        }
    }

    /// A thread was resumed to take a reply.
    #[verifier::opaque]
    pub open spec fn resumed(self, id: Seq<char>, draft: DraftView, result: JsonView) -> Desk {
        let thread = member_or_null(result, "thread"@);
        let current = self.on(self.app.with_resumed(id, thread));
        match resumed_status(thread) {
            SessionStatus::NeedsInput => current.resumed_asking(id, draft),
            SessionStatus::Working => match running_turn_id(thread) {
                Some(turn) => current.steering(id, turn, draft),
                None => current.on(
                    current.app.noting("Session is active; waiting for turn state"@),
                ),
            },
            _ => current.starting_turn(id, draft),
        }
    }

    /// The app-server has answered for the first time.
    #[verifier::opaque]
    pub open spec fn connected(self) -> Desk {
        Desk {
            app: self.app.connected(),
            out: self.out.send(
                OutgoingView::Notification { method: "initialized"@, params: object(seq![]) },
            ),
        }.listing_first()
    }

    /// A new task has a thread.
    #[verifier::opaque]
    pub open spec fn task_started(self, draft: DraftView, result: JsonView) -> Result<
        Desk,
        AppError,
    > {
        match result.get("thread"@) {
            Some(thread) => match thread_session(thread) {
                Some(session) => Ok(
                    self.on(self.app.task_shown(session)).starting_turn(session.id, draft),
                ),
                None => Err(AppError::InvalidThread),
            },
            None => Err(AppError::MissingThread),
        }
    }

    /// A request of the dashboard was answered.
    #[verifier::opaque]
    pub open spec fn answered(self, call: CallView, result: JsonView) -> Result<Desk, AppError> {
        match call {
            CallView::Initialize => Ok(self.connected()),
            CallView::ThreadList { paginate } => Ok(self.listed(paginate, result)),
            CallView::ThreadRead { thread_id } => Ok(
                self.on(self.app.history_come(thread_id, result)),
            ),
            CallView::ThreadStart { draft } => self.task_started(draft, result),
            CallView::ThreadResumeForReply { thread_id, draft } => Ok(
                self.resumed(thread_id, draft, result),
            ),
            CallView::TurnStart { thread_id } => Ok(
                self.on(self.app.turn_under_way(thread_id, result)),
            ),
            CallView::TurnSteer { thread_id } => Ok(self.on(self.app.steered(thread_id))),
            CallView::TurnInterrupt { thread_id } => Ok(
                self.on(self.app.interrupted(thread_id)),
            ),
            CallView::ThreadNameSet { thread_id, name } => Ok(
                self.on(self.app.name_set(thread_id, name)),
            ),
            CallView::SkillsList { cwd } => Ok(
                self.on(self.app.with_skills(cwd, skills_in(result))),
            ),
        }
    }

    /// The app-server answers a request of the dashboard. An answer to no request
    /// is passed over.
    #[verifier::opaque]
    pub open spec fn response(self, message: JsonView) -> Result<Desk, AppError> {
        match answered_number(message) {
            Some(number) => match lookup(self.app.pending_calls, number) {
                Some(call) => {
                    let rest = self.on(self.app.settled(number));
                    match message.get("error"@) {
                        Some(error) => Ok(rest.on(rest.app.refusal_shown(call, error))),
                        None => rest.answered(call, member_or_null(message, "result"@)),
                    }
                },
                None => Ok(self),
            },
            None => Ok(self),
        }
    }

    /// The request that a message answers is waited for no more.
    pub open spec fn settled_first(self, message: JsonView) -> Desk {
        match answered_number(message) {
            Some(number) => self.on(self.app.settled(number)),
            None => self,
        }
    }

    /// A request without a thread is refused.
    #[verifier::opaque]
    pub open spec fn unroutable(self, id: JsonView, method: Seq<char>) -> Desk {
        Desk {
            app: self.app.noting("Unsupported app-server request: "@ + method),
            out: self.out.send(
                OutgoingView::Error {
                    id,
                    code: (-32601) as i64,
                    message: "codex-deck cannot route this request"@,
                },
            ),
        }
    }

    /// A question of the app-server waits for the user, or for the reply that was
    /// queued for it.
    #[verifier::opaque]
    pub open spec fn questioned(self, request: RequestView, params: JsonView) -> Desk {
        let asked = self.on(self.app.question_asked(request, params));
        match lookup(asked.app.queued_replies, request.thread_id) {
            Some(reply) => asked.on(asked.app.unqueued(request.thread_id)).answering(
                request.thread_id,
                reply,
            ),
            None => asked,
        }
    }

    /// The app-server asks the dashboard something.
    #[verifier::opaque]
    pub open spec fn asked(self, message: JsonView) -> Desk {
        let id = member_or_null(message, "id"@);
        let method = or_empty(message.get_str("method"@));
        let params = member_or_null(message, "params"@);
        let thread_id = or_empty(params.get_str("threadId"@));
        if thread_id.len() == 0 {
            self.unroutable(id, method)
        } else {
            self.questioned(
                RequestView { id, thread_id, kind: request_kind(method, params) },
                params,
            )
        }
    }

    /// A message of the app-server: a request, a notification or an answer.
    #[verifier::opaque]
    pub open spec fn received(self, message: JsonView) -> Result<Desk, AppError> {
        match (message.get_str("method"@), message.get("id"@)) {
            (Some(_), Some(_)) => Ok(self.asked(message)),
            (Some(method), None) => Ok(
                self.on(self.app.notified(method, member_or_null(message, "params"@))),
            ),
            (None, Some(_)) => self.response(message),
            (None, None) => Ok(self),
        }
    }

    /// Another session is selected, by a number of rows.
    #[verifier::opaque]
    pub open spec fn moving_selection(self, delta: int) -> Desk {
        let rested = self.on(self.app.at_rest());
        if rested.app.sessions.len() == 0 {
            rested.on(rested.app.switching_to_new())
        } else {
            rested.on(rested.app.moved(delta)).ensuring_history()
        }
    }

    /// The turn of a session is stopped, once it is known.
    #[verifier::opaque]
    pub open spec fn stopping_turn(self, session: SessionView) -> Desk {
        match session.active_turn_id {
            Some(turn) => self.calling_out(
                "turn/interrupt"@,
                interrupt_params(session.id, turn),
                CallView::TurnInterrupt { thread_id: session.id },
                "Stopping session…"@,
            ),
            None => self.on(
                self.app.noting("Loading the active turn before stopping it…"@),
            ).ensuring_history(),
        }
    }

    /// The selected session is stopped, or taken out of the dashboard.
    #[verifier::opaque]
    pub open spec fn stopping(self) -> Desk {
        if self.app.show_all {
            self.on(
                self.app.noting("Remove is available in the lifecycle view, without --all"@),
            )
        } else {
            match self.app.selected_session() {
                Some(session) => if status_is_live(session.status) {
                    self.stopping_turn(session)
                } else {
                    self.on(self.app.removing(session)).ensuring_history()
                },
                None => self.on(self.app.noting("No session selected"@)),
            }
        }
    }

    /// One of the two key presses that stop or remove the selected session.
    #[verifier::opaque]
    pub open spec fn confirming_stop(self, key: KeyEvent) -> Desk {
        if key.kind != KeyKind::Press {
            self
        } else {
            match self.app.selected_id() {
                Some(id) => if self.app.ctrl_x_armed == Some(id) {
                    self.on(self.app.arming_stop(None)).stopping()
                } else {
                    self.on(self.app.arming_stop(Some(id)))
                },
                None => self.on(self.app.noting("No session selected"@)),
            }
        }
    }

    /// A session of the menu is added to the dashboard, ready for a reply.
    #[verifier::opaque]
    pub open spec fn resuming(self, session: SessionView) -> Desk {
        self.on(self.app.brought_back(session)).ensuring_history()
    }

    /// The choice of the menu is taken.
    #[verifier::opaque]
    pub open spec fn menu_chosen(self, menu: MenuView) -> Desk {
        let offered = matching_sessions(self.app.history, menu.query);
        if menu.tab == MenuTab::Settings {
            self.on(self.app.with_level(menu.verbosity))
        } else if 0 <= menu.selected < offered.len() {
            self.resuming(offered[menu.selected])
        } else {
            self
        }
    }

    /// A key while the menu is open.
    #[verifier::opaque]
    pub open spec fn menu_key(self, menu: MenuView, key: KeyEvent) -> Desk {
        match key.code {
            KeyCode::Esc => self.on(self.app.menu_escaped()),
            KeyCode::Left => if key.is_bare() && key.kind == KeyKind::Press {
                self.on(self.app.confirming_menu())
            } else {
                self
            },
            KeyCode::Tab => self.on(self.app.showing(menu.other_tab())),
            KeyCode::BackTab => self.on(self.app.showing(menu.other_tab())),
            KeyCode::Up => self.on(self.app.showing(menu.above())),
            KeyCode::Down => self.on(
                self.app.showing(
                    menu.below(matching_sessions(self.app.history, menu.query).len()),
                ),
            ),
            KeyCode::Enter => self.menu_chosen(menu),
            KeyCode::Backspace => self.on(self.app.showing(menu.erased())),
            KeyCode::Char(c) => if key.is_bare() {
                self.on(self.app.showing(menu.typed(c)))
            } else {
                self
            },
            _ => self,
        }
    }

    /// A key with the control key held down; nothing where the key has no such
    /// meaning.
    #[verifier::opaque]
    pub open spec fn control_key(self, c: char, key: KeyEvent) -> Option<Desk> {
        if c == 'n' {
            Some(self.on(self.app.new_task()))
        } else if c == 'r' {
            Some(self.on(self.app.renaming()))
        } else if c == 'u' {
            Some(self.on(self.app.emptied()))
        } else if c == 'v' {
            Some(self.on(self.app.wanting_clipboard()))
        } else if c == 't' {
            Some(self.on(self.app.toggling_pin()))
        } else if c == 'x' {
            Some(self.confirming_stop(key))
        } else {
            None
        }
    }

    /// The arrow keys up and down: rows of the open composer, or sessions.
    #[verifier::opaque]
    pub open spec fn row_key(self, delta: int) -> Desk {
        if self.app.composer_open {
            self.on(
                self.app.with_composer(
                    self.app.composer.move_vertical(
                        delta,
                        self.app.composer_width,
                        self.app.composer_prefix_width,
                    ),
                ),
            )
        } else {
            self.moving_selection(delta)
        }
    }

    /// The enter key: a line break with shift, or what is in the composer is sent.
    #[verifier::opaque]
    pub open spec fn enter_key(self, key: KeyEvent) -> Desk {
        if !self.app.composer_open {
            self
        } else if key.modifiers.shift {
            self.on(self.app.with_composer(self.app.composer.insert("\n"@)))
        } else {
            self.submitting()
        }
    }

    /// A key of the dashboard itself.
    #[verifier::opaque]
    pub open spec fn deck_key(self, key: KeyEvent) -> Desk {
        match key.code {
            KeyCode::Up => self.row_key(-1),
            KeyCode::Down => self.row_key(1),
            KeyCode::Enter => self.enter_key(key),
            _ => self.on(self.app.edit_key(key)),
        }
    }

    /// The skills of the active directory are asked for while one is searched for,
    /// unless they are known or on their way.
    #[verifier::opaque]
    pub open spec fn ensuring_skills(self) -> Desk {
        let cwd = self.app.active_directory();
        if self.app.picking() is None || (self.app.skills_cwd == cwd && (self.app.skills is Some
            || self.app.skills_loading)) {
            self
        } else {
            let called = self.calling(
                "skills/list"@,
                skills_params(cwd),
                CallView::SkillsList { cwd },
            );
            called.on(called.app.skills_asked(cwd))
        }
    }

    /// A key while neither the help nor the menu is open: the skill picker takes it,
    /// or the dashboard.
    #[verifier::opaque]
    pub open spec fn open_key(self, key: KeyEvent) -> Desk {
        match self.app.picking() {
            Some(search) => if self.app.picker_takes(search.query, key) {
                self.on(self.app.pick_key(search, key))
            } else {
                self.on(self.app.unpicked()).command_key(key).ensuring_skills()
            },
            None => self.on(self.app.unpicked()).command_key(key).ensuring_skills(),
        }
    }

    /// A key of the dashboard, with the control or the command key or without.
    #[verifier::opaque]
    pub open spec fn command_key(self, key: KeyEvent) -> Desk {
        let control = match key.code {
            KeyCode::Char(c) => if key.modifiers.control {
                self.control_key(c, key)
            } else {
                None
            },
            _ => None,
        };
        match control {
            Some(done) => done,
            None => if key.modifiers.command && key.code == KeyCode::Char('v') {
                self.on(self.app.wanting_clipboard())
            } else {
                self.deck_key(key)
            },
        }
    }

    /// A key that was not released.
    #[verifier::opaque]
    pub open spec fn pressed(self, key: KeyEvent) -> Desk {
        if key.modifiers.control && key.code == KeyCode::Char('c') {
            self.on(self.app.quitting())
        } else if self.app.help_open {
            if key.code == KeyCode::Esc || key.code == KeyCode::Char('?') {
                self.on(self.app.help_left())
            } else {
                self
            }
        } else {
            match self.app.menu {
                Some(menu) => self.menu_key(menu, key),
                None => self.open_key(key),
            }
        }
    }

    /// The effect of a key.
    #[verifier::opaque]
    pub open spec fn key(self, key: KeyEvent) -> Desk {
        if key.kind == KeyKind::Release {
            self
        } else {
            self.on(self.app.disarmed(key)).pressed(key)
        }
    }
}

/// How a message that may fail has been taken: the dashboard moves on, or it
/// stays and the failure is told.
pub open spec fn came(
    before: Desk,
    outcome: Result<Desk, AppError>,
    after: Desk,
    done: Result<(), AppError>,
) -> bool {
    match outcome {
        Ok(next) => done is Ok && after == next,
        Err(error) => done == Err::<(), AppError>(error) && after == before,
    }
}

/// The status of a thread that was resumed.
pub open spec fn resumed_status(thread: JsonView) -> SessionStatus {
    match thread.get("status"@) {
        Some(status) => protocol_status(status),
        None => SessionStatus::Completed,
    }
}

/// The number of the request that a message answers.
pub open spec fn answered_number(message: JsonView) -> Option<u64> {
    match message.get("id"@) {
        Some(id) => match id.as_u64() {
            Some(number) => Some(number as u64),
            None => None,
        },
        None => None,
    }
}

} // verus!
