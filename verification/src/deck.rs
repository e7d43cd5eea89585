//! What the dashboard does: each operation as a step from state to state.

use vstd::prelude::*;

use crate::assoc::{distinct_keys, lookup, put, without_key};
use crate::clipboard::{all_images, paths_in};
use crate::composer::{ComposerView, ComposeTarget};
use crate::json::JsonView;
use crate::keys::{KeyCode, KeyEvent, KeyKind};
use crate::labels::max_int;
use crate::lifecycle::LifecycleView;
use crate::model::{
    extend_message, message_index, MessageKind, MessageView, PreviewVerbosity, protocol_status,
    SessionStatus, SessionView, status_is_live, thread_session, upsert,
};
use crate::order::sessions_in_order;
use crate::protocol::{
    id_label, item_message, kind_of_item, notified_text, request_shown, running_turn_id, text_or,
    thread_messages, turn_error, without_local_copy,
};
use crate::selection::{clamped, SelectionView};
use crate::state::{
    AppView, AttachView, CallView, DraftView, HistoryView, MenuTab, MenuView, RequestView,
};
use crate::style::Rect;
use crate::text::{byte_len, contains_text, decimal, lines_of, lower, trim};

verus! {

/// The origin that the dashboard gives to its own threads.
pub open spec fn own_origin() -> Seq<char> {
    "codex-deck"@
}

/// A paste of more characters than this is shown as a token.
pub const LONG_PASTE_CHARS: usize = 1000;

/// How often the list of threads is refreshed, in milliseconds.
pub const REFRESH_INTERVAL_MS: u64 = 1000;

/// The position of the first session with an identifier.
pub open spec fn session_slot(sessions: Seq<SessionView>, id: Seq<char>) -> Option<int>
    decreases sessions.len(),
{
    if sessions.len() == 0 {
        None
    } else if sessions[0].id == id {
        Some(0)
    } else {
        match session_slot(sessions.drop_first(), id) {
            Some(i) => Some(i + 1),
            None => None,
        }
    }
}

pub proof fn lemma_session_slot(sessions: Seq<SessionView>, id: Seq<char>)
    ensures
        match session_slot(sessions, id) {
            Some(i) => 0 <= i < sessions.len() && sessions[i].id == id && forall|j: int|
                0 <= j < i ==> (#[trigger] sessions[j]).id != id,
            None => forall|j: int| 0 <= j < sessions.len() ==> (#[trigger] sessions[j]).id != id,
        },
    decreases sessions.len(),
{
    if sessions.len() > 0 && sessions[0].id != id {
        let rest = sessions.drop_first();
        lemma_session_slot(rest, id);
        assert forall|j: int| 0 < j < sessions.len() implies #[trigger] sessions[j] == rest[j
            - 1] by {}
    }
}

/// The sessions with other identifiers.
pub open spec fn without_session(sessions: Seq<SessionView>, id: Seq<char>) -> Seq<SessionView>
    decreases sessions.len(),
{
    if sessions.len() == 0 {
        seq![]
    } else if sessions.last().id == id {
        without_session(sessions.drop_last(), id)
    } else {
        without_session(sessions.drop_last(), id).push(sessions.last())
    }
}

/// The sessions with one in place of its older form, or added at the end.
pub open spec fn with_session(sessions: Seq<SessionView>, session: SessionView) -> Seq<SessionView> {
    match session_slot(sessions, session.id) {
        Some(i) => sessions.update(i, session),
        None => sessions.push(session),
    }
}

/// The requests of other sessions.
pub open spec fn without_requests(requests: Seq<RequestView>, id: Seq<char>) -> Seq<RequestView>
    decreases requests.len(),
{
    if requests.len() == 0 {
        seq![]
    } else if requests.last().thread_id == id {
        without_requests(requests.drop_last(), id)
    } else {
        without_requests(requests.drop_last(), id).push(requests.last())
    }
}

/// The position of the first request of a session.
pub open spec fn request_slot(requests: Seq<RequestView>, id: Seq<char>) -> Option<int>
    decreases requests.len(),
{
    if requests.len() == 0 {
        None
    } else if requests[0].thread_id == id {
        Some(0)
    } else {
        match request_slot(requests.drop_first(), id) {
            Some(i) => Some(i + 1),
            None => None,
        }
    }
}

/// Whether the history of a session is being read.
pub open spec fn is_reading(calls: Seq<(u64, CallView)>, id: Seq<char>) -> bool {
    exists|i: int|
        0 <= i < calls.len() && (#[trigger] calls[i]).1 == (CallView::ThreadRead { thread_id: id })
}

/// A session with what the app-server tells of it now; its messages stay.
pub open spec fn refreshed(existing: SessionView, incoming: SessionView) -> SessionView {
    SessionView {
        title: incoming.title,
        preview: incoming.preview,
        cwd: incoming.cwd,
        path: incoming.path,
        updated_at: incoming.updated_at,
        source: incoming.source,
        thread_source: incoming.thread_source,
        status: incoming.status,
        ..existing
    }
}

/// The sessions of the menu that match a search.
pub open spec fn matching_sessions(history: Seq<SessionView>, query: Seq<char>) -> Seq<SessionView>
    decreases history.len(),
{
    if history.len() == 0 {
        seq![]
    } else {
        let before = matching_sessions(history.drop_last(), query);
        if matches_query(history.last(), query) {
            before.push(history.last())
        } else {
            before
        }
    }
}

/// Whether a session's title or directory holds what is searched for, whatever
/// its case.
pub open spec fn matches_query(session: SessionView, query: Seq<char>) -> bool {
    contains_text(lower(session.title), lower(query)) || contains_text(
        lower(session.cwd),
        lower(query),
    )
}

/// The next preview level, or the one before.
pub open spec fn verbosity_below(verbosity: PreviewVerbosity) -> PreviewVerbosity {
    match verbosity {
        PreviewVerbosity::Full => PreviewVerbosity::Progress,
        _ => PreviewVerbosity::Final,
    }
}

pub open spec fn verbosity_above(verbosity: PreviewVerbosity) -> PreviewVerbosity {
    match verbosity {
        PreviewVerbosity::Final => PreviewVerbosity::Progress,
        _ => PreviewVerbosity::Full,
    }
}

/// A size in mebibytes with one decimal; halves are rounded to even.
pub open spec fn mebibytes(bytes: nat) -> Seq<char> {
    let scaled = bytes * 10;
    let tenths = scaled / 1048576;
    let rest = scaled % 1048576;
    let rounded = if rest > 524288 || (rest == 524288 && tenths % 2 == 1) {
        tenths + 1
    } else {
        tenths
    };
    decimal(rounded / 10) + "."@ + decimal(rounded % 10)
}

/// The messages among some that are questions.
pub open spec fn questions_among(messages: Seq<MessageView>) -> Seq<MessageView>
    decreases messages.len(),
{
    if messages.len() == 0 {
        seq![]
    } else if messages.last().kind == MessageKind::Question {
        questions_among(messages.drop_last()).push(messages.last())
    } else {
        questions_among(messages.drop_last())
    }
}

/// The notice on how many images were attached.
pub open spec fn attached_notice(added: nat) -> Seq<char> {
    if added == 0 {
        "Image is already attached"@
    } else {
        "Attached "@ + decimal(added) + " image"@ + (if added == 1 {
            ""@
        } else {
            "s"@
        }) + " · Backspace on empty input removes the last one"@
    }
}

/// The two notices that a transcript leaves when it was not loaded in full.
pub open spec fn is_transcript_notice(notice: Seq<char>) -> bool {
    notice == "Large session: bounded preview"@ || notice == "Transcript preview unavailable"@
}

/// The notice at the end of a turn.
pub open spec fn turn_notice(turn: JsonView) -> Seq<char> {
    let status = turn.get_str("status"@);
    if status == Some("failed"@) {
        "Session failed"@
    } else if status == Some("interrupted"@) {
        "Session interrupted"@
    } else {
        "Session completed"@
    }
}

/// A member of an object, or null where there is none.
pub open spec fn member_or_null(value: JsonView, key: Seq<char>) -> JsonView {
    match value.get(key) {
        Some(member) => member,
        None => JsonView::Null,
    }
}

/// Every draft is well formed, and no session has two.
pub open spec fn drafts_wf(drafts: Seq<(Seq<char>, ComposerView)>) -> bool {
    &&& distinct_keys(drafts)
    &&& forall|i: int| 0 <= i < drafts.len() ==> (#[trigger] drafts[i]).1.wf()
}

impl AppView {
    /// The dashboard when it starts.
    pub open spec fn fresh(
        cwd: Seq<char>,
        show_all: bool,
        lifecycle: LifecycleView,
    ) -> AppView {
        AppView {
            cwd,
            show_all,
            lifecycle,
            initial_scan_seen: Set::empty(),
            sessions: seq![],
            history: seq![],
            selected: 0,
            composer: ComposerView::empty(ComposeTarget::NewTask),
            new_draft: ComposerView::empty(ComposeTarget::NewTask),
            reply_drafts: seq![],
            pending_calls: seq![],
            pending_requests: seq![],
            queued_replies: seq![],
            live_item_kinds: seq![],
            initialized: false,
            initial_load_complete: false,
            list_inflight: false,
            last_refresh: 0,
            clock: 0,
            unix_time: 0,
            should_quit: false,
            notice: "Connecting to Codex…"@,
            scroll_back: 0,
            message_view_height: 1,
            attach_requested: None,
            attach_right_armed: false,
            rename_previous: None,
            rename_thread_id: None,
            rename_opened: false,
            composer_open: false,
            help_open: false,
            menu: None,
            menu_left_armed: false,
            ctrl_x_armed: None,
            esc_armed: false,
            composer_width: 1,
            composer_prefix_width: 0,
            preview: SelectionView {
                area: Rect::none(),
                lines: seq![],
                drag: None,
                selection: None,
            },
            clipboard_requested: false,
            history_requested: None,
            skills: None,
            skills_cwd: seq![],
            skills_loading: false,
            skill_selected: 0,
        }
    }

    /// Every composer is well formed, and no key occurs twice: a session has one
    /// draft and one queued reply, a request one meaning, and an item one kind.
    #[verifier::opaque]
    pub open spec fn wf(self) -> bool {
        &&& self.composer.wf()
        &&& self.new_draft.wf()
        &&& drafts_wf(self.reply_drafts)
        &&& distinct_keys(self.pending_calls)
        &&& distinct_keys(self.queued_replies)
        &&& distinct_keys(self.live_item_kinds)
        &&& self.rename_previous matches Some(previous) ==> previous.wf()
    }

    /// The dashboard with a notice.
    #[verifier::opaque]
    pub open spec fn noting(self, notice: Seq<char>) -> AppView {
        AppView { notice, ..self }
    }

    /// The position of the selected session.
    pub open spec fn selected_index(self) -> int {
        if self.sessions.len() == 0 {
            0
        } else if self.selected < self.sessions.len() {
            self.selected
        } else {
            self.sessions.len() - 1
        }
    }

    /// The selected session.
    pub open spec fn selected_session(self) -> Option<SessionView> {
        if self.sessions.len() == 0 {
            None
        } else {
            Some(self.sessions[self.selected_index()])
        }
    }

    /// The identifier of the selected session.
    pub open spec fn selected_id(self) -> Option<Seq<char>> {
        match self.selected_session() {
            Some(session) => Some(session.id),
            None => None,
        }
    }

    /// The session with an identifier.
    pub open spec fn session(self, id: Seq<char>) -> Option<SessionView> {
        match session_slot(self.sessions, id) {
            Some(i) => Some(self.sessions[i]),
            None => None,
        }
    }

    /// The title of the session with an identifier.
    pub open spec fn session_title(self, id: Seq<char>) -> Seq<char> {
        match self.session(id) {
            Some(session) => session.title,
            None => "session"@,
        }
    }

    /// One session replaced.
    pub open spec fn updating(self, i: int, session: SessionView) -> AppView {
        AppView { sessions: self.sessions.update(i, session), ..self }
    }

    /// The session with an identifier is selected, where there is one.
    #[verifier::opaque]
    pub open spec fn selecting(self, id: Seq<char>) -> AppView {
        match session_slot(self.sessions, id) {
            Some(i) => AppView { selected: i, ..self },
            None => self,
        }
    }

    /// The sessions in order.
    #[verifier::opaque]
    pub open spec fn sorted(self) -> AppView {
        let sessions = sessions_in_order(self.sessions, self.lifecycle.pinned);
        AppView { sessions, selected: AppView { sessions, ..self }.selected_index(), ..self }
    }

    /// The sessions in order, with the same one selected.
    #[verifier::opaque]
    pub open spec fn resorted(self) -> AppView {
        match self.selected_id() {
            Some(id) => self.sorted().selecting(id),
            None => self.sorted(),
        }
    }

    /// A session belongs to the dashboard from now on.
    #[verifier::opaque]
    pub open spec fn adopting(self, id: Seq<char>) -> AppView {
        AppView {
            initial_scan_seen: if self.lifecycle.initialized {
                self.initial_scan_seen
            } else {
                self.initial_scan_seen.insert(id)
            },
            lifecycle: self.lifecycle.track(id),
            ..self
        }
    }

    /// Whether a session belongs to the dashboard: it did before, it has a turn
    /// going on, or it is the dashboard's own and the registry is new.
    #[verifier::opaque]
    pub open spec fn should_track(self, session: SessionView) -> bool {
        ||| self.lifecycle.adopted.contains(session.id)
        ||| status_is_live(session.status)
        ||| !self.lifecycle.initialized && session.thread_source == Some(own_origin())
    }

    /// Whether a session is shown.
    #[verifier::opaque]
    pub open spec fn should_include(self, session: SessionView) -> bool {
        self.show_all || self.should_track(session)
    }

    /// The sessions with one that the app-server tells of.
    #[verifier::opaque]
    pub open spec fn merging(self, incoming: SessionView) -> AppView {
        let merged = match session_slot(self.sessions, incoming.id) {
            Some(i) => self.updating(i, refreshed(self.sessions[i], incoming)),
            None => AppView { sessions: self.sessions.push(incoming), ..self },
        };
        merged.resorted()
    }

    /// A session is shown, or it can be resumed from the menu.
    #[verifier::opaque]
    pub open spec fn placing(self, session: SessionView) -> AppView {
        if self.should_include(session) {
            self.merging(session).unlisted(session.id)
        } else {
            AppView { history: with_session(self.history, session), ..self }
        }
    }

    /// A thread of the list.
    #[verifier::opaque]
    pub open spec fn listing(self, thread: JsonView) -> AppView {
        match thread_session(thread) {
            Some(session) => {
                let seen = AppView {
                    initial_scan_seen: self.initial_scan_seen.insert(session.id),
                    ..self
                };
                let known = if seen.should_track(session) {
                    AppView { lifecycle: seen.lifecycle.track(session.id), ..seen }
                } else {
                    seen
                };
                known.placing(session)
            },
            None => self,
        }
    }

    /// Some threads of the list.
    #[verifier::opaque]
    pub open spec fn listing_all(self, threads: Seq<JsonView>) -> AppView
        decreases threads.len(),
    {
        if threads.len() == 0 {
            self
        } else {
            self.listing_all(threads.drop_last()).listing(threads.last())
        }
    }

    /// A page of the list of threads.
    #[verifier::opaque]
    pub open spec fn merging_list(self, result: JsonView) -> AppView {
        let listed = self.listing_all(result.get_items("data"@)).sorted();
        match self.selected_id() {
            Some(id) => listed.selecting(id),
            None => listed,
        }
    }

    /// The history of a thread.
    #[verifier::opaque]
    pub open spec fn with_history(self, id: Seq<char>, thread: JsonView) -> AppView {
        let messages = thread_messages(thread);
        let loaded = match session_slot(self.sessions, id) {
            Some(i) => {
                let session = self.sessions[i];
                self.updating(
                    i,
                    SessionView {
                        messages: if messages.len() > 0 {
                            messages
                        } else {
                            session.messages
                        },
                        history_loaded: true,
                        active_turn_id: match running_turn_id(thread) {
                            Some(turn) => Some(turn),
                            None => session.active_turn_id,
                        },
                        ..session
                    },
                )
            },
            None => self,
        };
        AppView { scroll_back: 0, ..loaded }
    }

    /// A thread that was resumed.
    #[verifier::opaque]
    pub open spec fn with_resumed(self, id: Seq<char>, thread: JsonView) -> AppView {
        let messages = thread_messages(thread);
        match session_slot(self.sessions, id) {
            Some(i) => {
                let session = self.sessions[i];
                let current = match thread.get("status"@) {
                    Some(status) => SessionView {
                        status: protocol_status(status),
                        active_turn_id: running_turn_id(thread),
                        ..session
                    },
                    None => session,
                };
                self.updating(
                    i,
                    if messages.len() > 0 {
                        SessionView { messages, history_loaded: true, ..current }
                    } else {
                        current
                    },
                )
            },
            None => self,
        }
    }

    /// The draft in the composer is kept for when it is needed again.
    #[verifier::opaque]
    pub open spec fn caching_draft(self) -> AppView {
        match self.composer.target {
            ComposeTarget::NewTask => AppView { new_draft: self.composer, ..self },
            ComposeTarget::Reply => match self.selected_id() {
                Some(id) => AppView {
                    reply_drafts: put(self.reply_drafts, id, self.composer),
                    ..self
                },
                None => self,
            },
            ComposeTarget::Rename => self,
        }
    }

    /// The draft of a new task is in the composer.
    #[verifier::opaque]
    pub open spec fn with_new_draft(self) -> AppView {
        AppView {
            composer: ComposerView { target: ComposeTarget::NewTask, ..self.new_draft },
            ..self
        }
    }

    /// The composer turns to a new task.
    #[verifier::opaque]
    pub open spec fn switching_to_new(self) -> AppView {
        self.caching_draft().with_new_draft()
    }

    /// The draft of a reply is in the composer.
    #[verifier::opaque]
    pub open spec fn with_reply_draft(self, id: Seq<char>) -> AppView {
        let draft = match lookup(self.reply_drafts, id) {
            Some(draft) => draft,
            None => ComposerView::empty(ComposeTarget::Reply),
        };
        AppView { composer: ComposerView { target: ComposeTarget::Reply, ..draft }, ..self }
    }

    /// The draft of a reply to the selected session is in the composer.
    #[verifier::opaque]
    pub open spec fn with_selected_draft(self) -> AppView {
        match self.selected_id() {
            Some(id) => self.with_reply_draft(id),
            None => self.with_new_draft(),
        }
    }

    /// A rename is over: the composer holds what it held before.
    #[verifier::opaque]
    pub open spec fn without_rename(self) -> AppView {
        let restored = match self.rename_previous {
            Some(previous) => AppView { composer: previous, rename_previous: None, ..self },
            None => if self.composer.target == ComposeTarget::Rename {
                AppView { composer: ComposerView::empty(ComposeTarget::NewTask), ..self }
            } else {
                self
            },
        };
        AppView {
            rename_thread_id: None,
            composer_open: self.composer_open && !self.rename_opened,
            rename_opened: false,
            ..restored
        }
    }

    /// The selected session is being renamed.
    #[verifier::opaque]
    pub open spec fn renaming(self) -> AppView {
        match self.selected_session() {
            Some(session) => AppView {
                rename_previous: if self.composer.target == ComposeTarget::Rename {
                    self.rename_previous
                } else {
                    Some(self.composer)
                },
                rename_opened: if self.composer.target == ComposeTarget::Rename {
                    self.rename_opened
                } else {
                    !self.composer_open
                },
                rename_thread_id: Some(session.id),
                composer: ComposerView::empty(ComposeTarget::Rename).insert(session.title),
                composer_open: true,
                ..self
            }.noting("Edit the name and press Enter · Tab cancels"@),
            None => self.noting("No session selected"@),
        }
    }

    /// The composer turns from a new task to a reply, or back.
    #[verifier::opaque]
    pub open spec fn toggling_target(self) -> AppView {
        match self.composer.target {
            ComposeTarget::Rename => self.without_rename().noting("Rename cancelled"@),
            ComposeTarget::NewTask => if self.sessions.len() > 0 {
                self.caching_draft().with_selected_draft()
            } else {
                self
            },
            ComposeTarget::Reply => self.switching_to_new(),
        }
    }

    /// The draft of a session that is gone is dropped.
    #[verifier::opaque]
    pub open spec fn discarding_draft(self, id: Seq<char>, was_selected: bool) -> AppView {
        let dropped = AppView { reply_drafts: without_key(self.reply_drafts, id), ..self };
        let named = if dropped.rename_thread_id == Some(id) {
            dropped.without_rename()
        } else {
            dropped
        };
        if was_selected && named.composer.target == ComposeTarget::Reply {
            named.with_selected_draft()
        } else {
            named
        }
    }

    /// Images attached to the composer.
    #[verifier::opaque]
    pub open spec fn with_images(self, paths: Seq<Seq<char>>) -> AppView {
        let composer = self.composer.attach_images(paths);
        AppView { composer, attach_right_armed: false, ..self }.noting(
            attached_notice((composer.images.len() - self.composer.images.len()) as nat),
        )
    }

    /// The selected session is to be opened in the native interface.
    #[verifier::opaque]
    pub open spec fn attaching(self) -> AppView {
        let idle = AppView { attach_right_armed: false, ..self };
        match idle.selected_session() {
            Some(session) => AppView {
                attach_requested: Some(
                    AttachView {
                        thread_id: session.id,
                        cwd: if session.cwd.len() == 0 {
                            self.cwd
                        } else {
                            session.cwd
                        },
                    },
                ),
                ..idle.adopting(session.id)
            }.noting("Attaching to native Codex…"@),
            None => idle.noting("No session selected"@),
        }
    }

    /// One of the two key presses that attach the selected session.
    #[verifier::opaque]
    pub open spec fn confirming_attach(self) -> AppView {
        if self.attach_right_armed {
            self.attaching()
        } else {
            AppView { attach_right_armed: true, ..self }.noting("Press → again to attach"@)
        }
    }

    /// The selected session is pinned, or no longer pinned.
    #[verifier::opaque]
    pub open spec fn toggling_pin(self) -> AppView {
        match self.selected_session() {
            Some(session) => {
                let pinned = !self.lifecycle.pinned.contains(session.id);
                AppView {
                    lifecycle: self.lifecycle.toggle_pin(session.id),
                    ..self
                }.resorted().selecting(session.id).noting(
                    if pinned {
                        "Pinned "@ + session.title
                    } else {
                        "Unpinned "@ + session.title
                    },
                )
            },
            None => self.noting("No session selected"@),
        }
    }

    /// A session is no longer shown.
    #[verifier::opaque]
    pub open spec fn dropping(self, id: Seq<char>) -> AppView {
        let sessions = without_session(self.sessions, id);
        AppView {
            sessions,
            lifecycle: self.lifecycle.dismiss(id),
            selected: AppView { sessions, ..self }.selected_index(),
            ..self
        }
    }

    /// A session has a turn going on.
    #[verifier::opaque]
    pub open spec fn with_turn(self, id: Seq<char>, turn: Option<Seq<char>>) -> AppView {
        match session_slot(self.sessions, id) {
            Some(i) => self.updating(
                i,
                SessionView {
                    status: SessionStatus::Working,
                    active_turn_id: turn,
                    updated_at: self.unix_time as int,
                    ..self.sessions[i]
                },
            ),
            None => self,
        }
    }

    /// A turn has begun.
    #[verifier::opaque]
    pub open spec fn turn_started(self, params: JsonView) -> AppView {
        match params.get_str("threadId"@) {
            Some(id) => {
                let turn = match params.get("turn"@) {
                    Some(turn) => turn.get_str("id"@),
                    None => None,
                };
                self.adopting(id).with_turn(id, turn).resorted()
            },
            None => self,
        }
    }

    /// A session has no turn going on any more.
    #[verifier::opaque]
    pub open spec fn without_turn(self, id: Seq<char>, turn: JsonView) -> AppView {
        match session_slot(self.sessions, id) {
            Some(i) => {
                let session = self.sessions[i];
                self.updating(
                    i,
                    SessionView {
                        status: if turn.get_str("status"@) == Some("failed"@) {
                            SessionStatus::Failed
                        } else {
                            SessionStatus::Completed
                        },
                        active_turn_id: None,
                        updated_at: self.unix_time as int,
                        messages: match turn_error(turn) {
                            Some(error) => upsert(session.messages, error),
                            None => session.messages,
                        },
                        ..session
                    },
                )
            },
            None => self,
        }
    }

    /// The requests of a session need no answer any more.
    #[verifier::opaque]
    pub open spec fn unasked(self, id: Seq<char>) -> AppView {
        AppView { pending_requests: without_requests(self.pending_requests, id), ..self }
    }

    /// A turn is over.
    #[verifier::opaque]
    pub open spec fn turn_completed(self, params: JsonView) -> AppView {
        match params.get_str("threadId"@) {
            Some(id) => {
                let turn = member_or_null(params, "turn"@);
                self.adopting(id).without_turn(id, turn).unasked(id).noting(
                    turn_notice(turn),
                ).resorted()
            },
            None => self,
        }
    }

    /// What an item is, where its type tells.
    #[verifier::opaque]
    pub open spec fn with_kind(self, id: Seq<char>, item_id: Seq<char>, item: JsonView) -> AppView {
        match kind_of_item(item) {
            Some(kind) => AppView {
                live_item_kinds: put(self.live_item_kinds, (id, item_id), kind),
                ..self
            },
            None => self,
        }
    }

    /// An item's message is shown. A prompt takes the place of the copy that was
    /// shown when it was sent.
    #[verifier::opaque]
    pub open spec fn with_item(self, id: Seq<char>, entry: MessageView) -> AppView {
        match session_slot(self.sessions, id) {
            Some(i) => {
                let session = self.sessions[i];
                let messages = if entry.kind == MessageKind::User {
                    without_local_copy(session.messages, entry.text)
                } else {
                    session.messages
                };
                self.updating(
                    i,
                    SessionView {
                        messages: upsert(messages, entry),
                        history_loaded: true,
                        ..session
                    },
                )
            },
            None => self,
        }
    }

    /// An item of a turn has begun or is complete. One that has begun without a
    /// text is not shown yet.
    #[verifier::opaque]
    pub open spec fn item_seen(self, params: JsonView, completed: bool) -> AppView {
        match (params.get_str("threadId"@), params.get("item"@)) {
            (Some(id), Some(item)) => match item.get_str("id"@) {
                Some(item_id) => {
                    let noted = self.with_kind(id, item_id, item);
                    match item_message(item) {
                        Some(entry) => if entry.text.len() > 0 || completed {
                            noted.with_item(id, entry)
                        } else {
                            noted
                        },
                        None => noted,
                    }
                },
                None => self,
            },
            _ => self,
        }
    }

    /// A piece of an item's text has come.
    #[verifier::opaque]
    pub open spec fn delta_seen(
        self,
        id: Seq<char>,
        item_id: Seq<char>,
        kind: MessageKind,
        delta: Seq<char>,
    ) -> AppView {
        match session_slot(self.sessions, id) {
            Some(i) => self.updating(
                i,
                SessionView {
                    messages: extend_message(self.sessions[i].messages, item_id, kind, delta),
                    history_loaded: true,
                    ..self.sessions[i]
                },
            ),
            None => self,
        }
    }

    /// A piece of an agent's message has come.
    #[verifier::opaque]
    pub open spec fn agent_delta(self, params: JsonView) -> AppView {
        match (params.get_str("threadId"@), params.get_str("itemId"@), params.get_str("delta"@)) {
            (Some(id), Some(item_id), Some(delta)) => self.delta_seen(
                id,
                item_id,
                match lookup(self.live_item_kinds, (id, item_id)) {
                    Some(kind) => kind,
                    None => MessageKind::Progress,
                },
                delta,
            ),
            _ => self,
        }
    }

    /// A piece of a thought has come.
    #[verifier::opaque]
    pub open spec fn reasoning_delta(self, params: JsonView) -> AppView {
        match (params.get_str("threadId"@), params.get_str("itemId"@), params.get_str("delta"@)) {
            (Some(id), Some(item_id), Some(delta)) => self.delta_seen(
                id,
                item_id,
                MessageKind::Thinking,
                delta,
            ),
            _ => self,
        }
    }

    /// A thought goes on with a new part, on a new line.
    #[verifier::opaque]
    pub open spec fn reasoning_part(self, params: JsonView) -> AppView {
        match (params.get_str("threadId"@), params.get_str("itemId"@)) {
            (Some(id), Some(item_id)) => match session_slot(self.sessions, id) {
                Some(i) => {
                    let session = self.sessions[i];
                    match message_index(session.messages, item_id) {
                        Some(k) => {
                            let entry = session.messages[k];
                            if entry.text.len() > 0 && entry.text.last() != '\n' {
                                self.updating(
                                    i,
                                    SessionView {
                                        messages: session.messages.update(
                                            k,
                                            MessageView { text: entry.text.push('\n'), ..entry },
                                        ),
                                        ..session
                                    },
                                )
                            } else {
                                self
                            }
                        },
                        None => self,
                    }
                },
                None => self,
            },
            _ => self,
        }
    }

    /// A thread is gone from the app-server.
    #[verifier::opaque]
    pub open spec fn thread_gone(self, params: JsonView) -> AppView {
        match params.get_str("threadId"@) {
            Some(id) => {
                let was_selected = self.selected_id() == Some(id);
                self.dropping(id).unlisted(id).discarding_draft(id, was_selected)
            },
            None => self,
        }
    }

    /// A session is not in the menu.
    #[verifier::opaque]
    pub open spec fn unlisted(self, id: Seq<char>) -> AppView {
        AppView { history: without_session(self.history, id), ..self }
    }

    /// A session has another status.
    #[verifier::opaque]
    pub open spec fn with_status(self, id: Seq<char>, status: SessionStatus) -> AppView {
        match session_slot(self.sessions, id) {
            Some(i) => self.updating(i, SessionView { status, ..self.sessions[i] }).resorted(),
            None => self,
        }
    }

    /// A session has another title.
    #[verifier::opaque]
    pub open spec fn with_title(self, id: Seq<char>, title: Seq<char>) -> AppView {
        match session_slot(self.sessions, id) {
            Some(i) => self.updating(i, SessionView { title, ..self.sessions[i] }).resorted(),
            None => self,
        }
    }

    /// A thread has started, or is open again.
    #[verifier::opaque]
    pub open spec fn thread_started(self, params: JsonView) -> AppView {
        match params.get("thread"@) {
            Some(thread) => match thread_session(thread) {
                Some(session) => self.adopting(session.id).merging(session).unlisted(session.id),
                None => self,
            },
            None => self,
        }
    }

    /// The status of a thread has changed.
    #[verifier::opaque]
    pub open spec fn status_changed(self, params: JsonView) -> AppView {
        match (params.get_str("threadId"@), params.get("status"@)) {
            (Some(id), Some(status)) => if status_is_live(protocol_status(status)) {
                self.adopting(id).with_status(id, protocol_status(status))
            } else {
                self.with_status(id, protocol_status(status))
            },
            _ => self,
        }
    }

    /// The name of a thread has changed.
    #[verifier::opaque]
    pub open spec fn name_updated(self, params: JsonView) -> AppView {
        let name = match params.get("threadName"@) {
            Some(name) => Some(name),
            None => params.get("name"@),
        };
        match (params.get_str("threadId"@), name) {
            (Some(id), Some(name)) => match name.as_str() {
                Some(title) => self.with_title(id, title),
                None => self,
            },
            _ => self,
        }
    }

    /// A warning is shown: its text, or its method where it has none.
    #[verifier::opaque]
    pub open spec fn warned(self, method: Seq<char>, params: JsonView) -> AppView {
        self.noting(text_or(notified_text(params), method))
    }

    /// The effect of a notification.
    #[verifier::opaque]
    pub open spec fn notified(self, method: Seq<char>, params: JsonView) -> AppView {
        if method == "thread/started"@ {
            self.thread_started(params)
        } else if method == "thread/status/changed"@ {
            self.status_changed(params)
        } else if method == "thread/name/updated"@ {
            self.name_updated(params)
        } else if method == "thread/deleted"@ || method == "thread/archived"@ {
            self.thread_gone(params)
        } else if method == "turn/started"@ {
            self.turn_started(params)
        } else if method == "turn/completed"@ {
            self.turn_completed(params)
        } else if method == "item/started"@ {
            self.item_seen(params, false)
        } else if method == "item/completed"@ {
            self.item_seen(params, true)
        } else if method == "item/agentMessage/delta"@ {
            self.agent_delta(params)
        } else if method == "item/reasoning/summaryTextDelta"@ {
            self.reasoning_delta(params)
        } else if method == "item/reasoning/summaryPartAdded"@ {
            self.reasoning_part(params)
        } else if method == "skills/changed"@ {
            self.without_skills()
        } else if method == "error"@ || method == "warning"@ || method == "configWarning"@ || method
            == "deprecationNotice"@ {
            self.warned(method, params)
        } else {
            self
        }
    }

    /// The preview moved by a number of lines.
    #[verifier::opaque]
    pub open spec fn scrolled(self, lines: int) -> AppView {
        AppView {
            scroll_back: clamped(self.scroll_back + lines, 0, usize::MAX as int),
            ..self
        }
    }

    /// The lines that a page key moves the preview by.
    pub open spec fn page(self) -> int {
        if self.message_view_height > 2 {
            self.message_view_height - 1
        } else {
            1
        }
    }

    /// The sessions that the menu offers.
    pub open spec fn offered(self) -> Seq<SessionView> {
        match self.menu {
            Some(menu) => matching_sessions(self.history, menu.query),
            None => seq![],
        }
    }

    /// The armed keys that a key leaves armed.
    #[verifier::opaque]
    pub open spec fn disarmed(self, key: KeyEvent) -> AppView {
        let empty = self.composer.text.len() == 0 && self.composer.target
            != ComposeTarget::Rename;
        AppView {
            attach_right_armed: self.attach_right_armed && key.code == KeyCode::Right
                && key.is_bare() && empty,
            menu_left_armed: self.menu_left_armed && key.code == KeyCode::Left && key.is_bare()
                && (empty || self.menu is Some),
            ctrl_x_armed: if key.code == KeyCode::Char('x') && key.modifiers.control {
                self.ctrl_x_armed
            } else {
                None
            },
            esc_armed: self.esc_armed && key.code == KeyCode::Esc,
            ..self
        }
    }

    /// The menu is open on its first tab.
    #[verifier::opaque]
    pub open spec fn with_menu(self) -> AppView {
        AppView {
            menu: Some(
                MenuView {
                    tab: MenuTab::Resume,
                    verbosity: self.lifecycle.verbosity,
                    query: seq![],
                    selected: 0,
                },
            ),
            menu_left_armed: false,
            ..self
        }
    }

    /// One of the two key presses that open or close the menu.
    #[verifier::opaque]
    pub open spec fn confirming_menu(self) -> AppView {
        if self.menu_left_armed {
            if self.menu is Some {
                AppView { menu: None, menu_left_armed: false, ..self }
            } else {
                self.with_menu()
            }
        } else if self.menu is Some {
            AppView { menu_left_armed: true, ..self }
        } else {
            AppView { menu_left_armed: true, ..self }.noting("Press ← again to open the menu"@)
        }
    }

    /// A rename is over, where there is one.
    #[verifier::opaque]
    pub open spec fn at_rest(self) -> AppView {
        if self.composer.target == ComposeTarget::Rename {
            self.without_rename()
        } else {
            self
        }
    }

    /// The composer turns to the reply to the selected session, or to a new task
    /// where there is no session.
    #[verifier::opaque]
    pub open spec fn turned_to_reply(self) -> AppView {
        if self.sessions.len() > 0 {
            self.caching_draft().with_selected_draft()
        } else {
            self.switching_to_new()
        }
    }

    /// The composer is open on the reply to the selected session.
    #[verifier::opaque]
    pub open spec fn opening_composer(self) -> AppView {
        AppView { composer_open: true, ..self.at_rest().turned_to_reply() }
    }

    /// The escape key while neither the menu nor the help is open.
    #[verifier::opaque]
    pub open spec fn escaping(self, key: KeyEvent) -> AppView {
        if self.composer_open {
            if self.composer.target == ComposeTarget::Rename {
                AppView {
                    composer_open: false,
                    ..self.without_rename().noting("Rename cancelled"@)
                }
            } else {
                AppView { composer_open: false, esc_armed: false, ..self }
            }
        } else if key.kind != KeyKind::Press {
            self
        } else if self.esc_armed {
            AppView { should_quit: true, ..self }
        } else {
            AppView { esc_armed: true, ..self }.noting("Press Esc again to close Codeck"@)
        }
    }

    /// A character that is typed.
    #[verifier::opaque]
    pub open spec fn typing(self, c: char) -> AppView {
        if !self.composer_open {
            if c == ' ' {
                self.opening_composer()
            } else if c == '?' {
                AppView { help_open: true, ..self }
            } else {
                self
            }
        } else if c == ' ' && self.composer.text.len() == 0 && self.composer.images.len() == 0
            && self.composer.target != ComposeTarget::Rename {
            AppView { composer_open: false, ..self }
        } else {
            self.with_composer(self.composer.insert(seq![c]))
        }
    }

    /// The backspace key in the composer.
    #[verifier::opaque]
    pub open spec fn erasing(self) -> AppView {
        if self.composer.text.len() == 0 && self.composer.images.len() > 0 {
            self.with_composer(
                ComposerView { images: self.composer.images.drop_last(), ..self.composer },
            ).noting("Removed last image"@)
        } else {
            self.with_composer(self.composer.backspace())
        }
    }

    /// The confirmation that a session's row shows.
    pub open spec fn confirmation(self, id: Seq<char>) -> Option<Seq<char>> {
        if self.ctrl_x_armed == Some(id) {
            match self.session(id) {
                Some(session) => if status_is_live(session.status) {
                    Some("Ctrl+X again: pause"@)
                } else {
                    Some("Ctrl+X again: remove"@)
                },
                None => None,
            }
        } else {
            None
        }
    }
    /// A request waits for its answer.
    #[verifier::opaque]
    pub open spec fn calling(self, number: u64, call: CallView) -> AppView {
        AppView { pending_calls: put(self.pending_calls, number, call), ..self }
    }

    /// The list of threads has been asked for.
    #[verifier::opaque]
    pub open spec fn list_sent(self) -> AppView {
        AppView { list_inflight: true, last_refresh: self.clock, ..self }
    }

    /// A transcript is to be looked at.
    #[verifier::opaque]
    pub open spec fn wanting_history(self, request: HistoryView) -> AppView {
        AppView { history_requested: Some(request), ..self }
    }

    /// The preview shows the latest lines.
    #[verifier::opaque]
    pub open spec fn at_end(self) -> AppView {
        AppView { scroll_back: 0, ..self }
    }

    /// Whether a session has a transcript on disk.
    pub open spec fn transcript_of(self, id: Seq<char>) -> Option<Seq<char>> {
        match self.session(id) {
            Some(session) => session.path,
            None => None,
        }
    }

    /// The messages of a session are replaced.
    #[verifier::opaque]
    pub open spec fn with_messages(self, id: Seq<char>, messages: Seq<MessageView>) -> AppView {
        match session_slot(self.sessions, id) {
            Some(i) => self.updating(
                i,
                SessionView { messages, history_loaded: true, ..self.sessions[i] },
            ),
            None => self,
        }
    }

    /// A transcript could not be read.
    #[verifier::opaque]
    pub open spec fn preview_lost(self, id: Seq<char>) -> AppView {
        self.with_messages(id, seq![preview_error()]).noting("Transcript preview unavailable"@)
    }

    /// The questions that a session shows.
    pub open spec fn questions_of(self, id: Seq<char>) -> Seq<MessageView> {
        match self.session(id) {
            Some(session) => questions_among(session.messages),
            None => seq![],
        }
    }

    /// The end of a large transcript is shown. Questions that wait for an answer
    /// stay.
    #[verifier::opaque]
    pub open spec fn preview_shown(
        self,
        id: Seq<char>,
        file_bytes: nat,
        messages: Seq<MessageView>,
    ) -> AppView {
        self.with_messages(
            id,
            seq![preview_heading(file_bytes)] + messages + self.questions_of(id),
        ).at_end().noting("Large session: bounded preview"@)
    }

    /// The notice on the return from the native interface, unless a transcript left
    /// one.
    #[verifier::opaque]
    pub open spec fn returned(self) -> AppView {
        let back = self.at_end();
        if is_transcript_notice(self.notice) {
            back
        } else {
            back.noting("Returned from attached session"@)
        }
    }

    /// A prompt is shown and its turn is on its way.
    #[verifier::opaque]
    pub open spec fn working_on(self, id: Seq<char>, entry: MessageView) -> AppView {
        match session_slot(self.sessions, id) {
            Some(i) => self.updating(
                i,
                SessionView {
                    status: SessionStatus::Working,
                    messages: upsert(self.sessions[i].messages, entry),
                    ..self.sessions[i]
                },
            ),
            None => self,
        }
    }

    /// A prompt is shown.
    #[verifier::opaque]
    pub open spec fn prompted(self, id: Seq<char>, entry: MessageView) -> AppView {
        match session_slot(self.sessions, id) {
            Some(i) => self.updating(
                i,
                SessionView {
                    messages: upsert(self.sessions[i].messages, entry),
                    ..self.sessions[i]
                },
            ),
            None => self,
        }
    }

    /// A request of the app-server is taken up.
    #[verifier::opaque]
    pub open spec fn without_request(self, slot: int) -> AppView {
        AppView { pending_requests: self.pending_requests.remove(slot), ..self }
    }

    /// The answer to a request is shown.
    #[verifier::opaque]
    pub open spec fn answer_shown(self, id: Seq<char>, text: Seq<char>) -> AppView {
        self.working_on(id, local_answer(self.pending_requests.len(), text)).noting(
            "Response sent; session resumed"@,
        ).resorted()
    }

    /// The composer is hidden.
    #[verifier::opaque]
    pub open spec fn closed(self) -> AppView {
        AppView { composer_open: false, ..self }
    }

    /// The composer is shown.
    #[verifier::opaque]
    pub open spec fn opened(self) -> AppView {
        AppView { composer_open: true, ..self }
    }

    /// The composer holds another draft.
    #[verifier::opaque]
    pub open spec fn with_composer(self, composer: ComposerView) -> AppView {
        AppView { composer, ..self }
    }

    /// The composer is empty.
    #[verifier::opaque]
    pub open spec fn emptied(self) -> AppView {
        self.with_composer(ComposerView::empty(self.composer.target))
    }

    /// The new name of a session is taken from the composer.
    #[verifier::opaque]
    pub open spec fn name_taken(self) -> AppView {
        self.emptied().closed()
    }

    /// A prompt is taken from the composer.
    #[verifier::opaque]
    pub open spec fn prompt_taken(self) -> AppView {
        self.emptied().caching_draft().at_end()
    }

    /// An answer is taken from the composer. The images stay.
    #[verifier::opaque]
    pub open spec fn answer_taken(self) -> AppView {
        self.with_composer(
            ComposerView::empty(self.composer.target).attach_images(self.composer.images),
        ).closed().caching_draft()
    }

    /// A prompt goes back into the composer, as a new task.
    #[verifier::opaque]
    pub open spec fn given_back(self, draft: DraftView) -> AppView {
        self.with_composer(restored(draft)).caching_draft().noting(
            "No session selected; switched to new task"@,
        )
    }

    /// The selected session, where the composer holds the answer to its request.
    pub open spec fn waiting_session(self) -> Option<Seq<char>> {
        match self.selected_id() {
            Some(id) => if self.composer.target == ComposeTarget::Reply && request_slot(
                self.pending_requests,
                id,
            ) is Some {
                Some(id)
            } else {
                None
            },
            None => None,
        }
    }

    /// The prompt in the composer.
    pub open spec fn prompt(self) -> DraftView {
        DraftView {
            text: trim(self.composer.prompt_text()),
            images: self.composer.images,
            skills: self.composer.skills,
        }
    }

    /// The first complete list of threads has come.
    #[verifier::opaque]
    pub open spec fn scanned(self) -> AppView {
        AppView {
            lifecycle: self.lifecycle.finish_initial_scan(self.initial_scan_seen),
            ..self
        }
    }

    /// A list of threads has come.
    #[verifier::opaque]
    pub open spec fn list_done(self) -> AppView {
        AppView { list_inflight: false, initial_load_complete: true, ..self }
    }

    /// The notice after the first list. The look at a transcript leaves it.
    #[verifier::opaque]
    pub open spec fn first_shown(self) -> AppView {
        AppView {
            history_requested: match self.history_requested {
                Some(request) => Some(HistoryView { keep_notice: true, ..request }),
                None => None,
            },
            ..self
        }.noting(
            if self.sessions.len() == 0 {
                "Type a task and press Enter"@
            } else {
                seq![]
            },
        )
    }

    /// The session of a new task is shown and selected.
    #[verifier::opaque]
    pub open spec fn task_shown(self, session: SessionView) -> AppView {
        self.adopting(session.id).merging(session).caching_draft().selecting(
            session.id,
        ).with_reply_draft(session.id)
    }

    /// The images of a prompt go back into the composer.
    #[verifier::opaque]
    pub open spec fn images_kept(self, images: Seq<Seq<char>>) -> AppView {
        if images.len() > 0 {
            self.with_images(images)
        } else {
            self
        }
    }

    /// A reply waits for the details of a question.
    #[verifier::opaque]
    pub open spec fn queued(self, id: Seq<char>, text: Seq<char>) -> AppView {
        AppView { queued_replies: put(self.queued_replies, id, text), ..self }.noting(
            "Waiting for Codex question details…"@,
        )
    }

    /// What a refused request leaves behind.
    #[verifier::opaque]
    pub open spec fn refused(self, call: CallView) -> AppView {
        match call {
            CallView::ThreadList { .. } => AppView { list_inflight: false, ..self },
            CallView::ThreadNameSet { .. } => self.without_rename(),
            CallView::SkillsList { cwd } => self.with_skills(cwd, seq![]),
            _ => self,
        }
    }

    /// The app-server has answered for the first time.
    #[verifier::opaque]
    pub open spec fn connected(self) -> AppView {
        AppView { initialized: true, ..self }.noting("Connected"@)
    }

    /// The turn of a session is known.
    #[verifier::opaque]
    pub open spec fn turn_known(self, id: Seq<char>, turn: Option<Seq<char>>) -> AppView {
        match (turn, session_slot(self.sessions, id)) {
            (Some(turn), Some(i)) => self.updating(
                i,
                SessionView {
                    active_turn_id: Some(turn),
                    status: SessionStatus::Working,
                    ..self.sessions[i]
                },
            ),
            _ => self,
        }
    }

    /// The name of a session was set.
    #[verifier::opaque]
    pub open spec fn named(self, id: Seq<char>, name: Seq<char>) -> AppView {
        match session_slot(self.sessions, id) {
            Some(i) => self.updating(i, SessionView { title: name, ..self.sessions[i] }),
            None => self,
        }
    }

    /// The history of a thread has come.
    #[verifier::opaque]
    pub open spec fn history_come(self, id: Seq<char>, result: JsonView) -> AppView {
        match result.get("thread"@) {
            Some(thread) => self.with_history(id, thread),
            None => self,
        }
    }

    /// A turn is under way.
    #[verifier::opaque]
    pub open spec fn turn_under_way(self, id: Seq<char>, result: JsonView) -> AppView {
        let turn = match result.get("turn"@) {
            Some(turn) => turn.get_str("id"@),
            None => None,
        };
        self.turn_known(id, turn).noting("Working in background"@).resorted()
    }

    /// A prompt has reached its turn.
    #[verifier::opaque]
    pub open spec fn steered(self, id: Seq<char>) -> AppView {
        self.noting("Sent follow-up to "@ + self.session_title(id))
    }

    /// A turn is being stopped.
    #[verifier::opaque]
    pub open spec fn interrupted(self, id: Seq<char>) -> AppView {
        self.noting(
            "Stopping "@ + self.session_title(id)
                + " · press Ctrl+X again after it completes to remove it"@,
        )
    }

    /// A session has its new name, and the rename is over.
    #[verifier::opaque]
    pub open spec fn name_set(self, id: Seq<char>, name: Seq<char>) -> AppView {
        self.named(id, name).without_rename().noting("Renamed session to "@ + name).resorted()
    }

    /// A request of the dashboard was refused.
    #[verifier::opaque]
    pub open spec fn refusal_shown(self, call: CallView, error: JsonView) -> AppView {
        self.refused(call).noting(text_or(error.get_str("message"@), "Codex request failed"@))
    }

    /// A request is answered: it is waited for no more.
    #[verifier::opaque]
    pub open spec fn settled(self, number: u64) -> AppView {
        AppView { pending_calls: without_key(self.pending_calls, number), ..self }
    }

    /// A question of the app-server is shown.
    #[verifier::opaque]
    pub open spec fn question_shown(self, request: RequestView, params: JsonView) -> AppView {
        match session_slot(self.sessions, request.thread_id) {
            Some(i) => self.updating(
                i,
                SessionView {
                    status: SessionStatus::NeedsInput,
                    messages: upsert(
                        self.sessions[i].messages,
                        MessageView {
                            id: "request-"@ + id_label(request.id),
                            kind: MessageKind::Question,
                            text: request_shown(request.kind, params),
                        },
                    ),
                    ..self.sessions[i]
                },
            ),
            None => self,
        }
    }

    /// A question of the app-server waits for the user.
    #[verifier::opaque]
    pub open spec fn question_asked(self, request: RequestView, params: JsonView) -> AppView {
        let shown = self.adopting(request.thread_id).question_shown(request, params);
        AppView {
            pending_requests: shown.pending_requests.push(request),
            ..shown
        }.resorted().noting("Selected session needs input"@)
    }

    /// The reply that was queued for a session is taken.
    #[verifier::opaque]
    pub open spec fn unqueued(self, id: Seq<char>) -> AppView {
        AppView { queued_replies: without_key(self.queued_replies, id), ..self }
    }

    /// Whether the draft follows the selection: a reply does, and an empty new task.
    pub open spec fn follows_selection(self) -> bool {
        ||| self.composer.target == ComposeTarget::Reply
        ||| self.composer.target == ComposeTarget::NewTask && self.composer.text.len() == 0
            && self.composer.images.len() == 0
    }

    /// The selection is moved by a number of rows.
    #[verifier::opaque]
    pub open spec fn stepped(self, delta: int) -> AppView {
        AppView {
            selected: if delta < 0 {
                clamped(self.selected + delta, 0, usize::MAX as int)
            } else {
                clamped(self.selected + delta, 0, self.sessions.len() - 1)
            },
            ..self
        }
    }

    /// Another session is selected, with its draft where the draft follows.
    #[verifier::opaque]
    pub open spec fn moved(self, delta: int) -> AppView {
        let stepped = self.caching_draft().stepped(delta);
        if self.follows_selection() {
            stepped.with_selected_draft().at_end()
        } else {
            stepped.at_end()
        }
    }

    /// A session can be resumed from the menu.
    #[verifier::opaque]
    pub open spec fn relisted(self, session: SessionView) -> AppView {
        AppView { history: with_session(self.history, session), ..self }
    }

    /// A session is taken out of the dashboard.
    #[verifier::opaque]
    pub open spec fn removing(self, session: SessionView) -> AppView {
        self.dropping(session.id).unasked(session.id).relisted(session).discarding_draft(
            session.id,
            true,
        ).at_end().noting("Reviewed session removed from the deck; Codex history was kept"@)
    }

    /// One more press of a key stops or removes a session.
    #[verifier::opaque]
    pub open spec fn arming_stop(self, id: Option<Seq<char>>) -> AppView {
        AppView { ctrl_x_armed: id, ..self }
    }

    /// The menu gives way to the composer.
    #[verifier::opaque]
    pub open spec fn menu_left(self) -> AppView {
        AppView { menu: None, composer_open: true, scroll_back: 0, ..self }
    }

    /// A session of the menu is back in the dashboard, ready for a reply.
    #[verifier::opaque]
    pub open spec fn brought_back(self, session: SessionView) -> AppView {
        self.at_rest().caching_draft().adopting(session.id).merging(session).unlisted(
            session.id,
        ).selecting(session.id).with_reply_draft(session.id).menu_left().noting(
            "Added "@ + session.title,
        )
    }

    /// The menu has changed.
    #[verifier::opaque]
    pub open spec fn showing(self, menu: MenuView) -> AppView {
        AppView { menu: Some(menu), ..self }
    }

    /// The escape key closes the menu. Once more and the dashboard closes.
    #[verifier::opaque]
    pub open spec fn menu_escaped(self) -> AppView {
        AppView { menu: None, esc_armed: true, ..self }
    }

    /// The preview level of the menu is kept.
    #[verifier::opaque]
    pub open spec fn with_level(self, verbosity: PreviewVerbosity) -> AppView {
        AppView {
            lifecycle: self.lifecycle.with_verbosity(verbosity),
            menu: None,
            ..self
        }.noting("Preview level saved"@)
    }

    /// A new task is being written.
    #[verifier::opaque]
    pub open spec fn new_task(self) -> AppView {
        self.without_rename().switching_to_new().opened().noting("New task"@)
    }

    /// The clipboard is to be read.
    #[verifier::opaque]
    pub open spec fn wanting_clipboard(self) -> AppView {
        AppView { clipboard_requested: true, ..self }
    }

    /// The dashboard is to close.
    #[verifier::opaque]
    pub open spec fn quitting(self) -> AppView {
        AppView { should_quit: true, ..self }
    }

    /// The help is hidden.
    #[verifier::opaque]
    pub open spec fn help_left(self) -> AppView {
        AppView { help_open: false, esc_armed: false, ..self }
    }

    /// A key that edits the draft, scrolls the preview or opens something.
    #[verifier::opaque]
    pub open spec fn edit_key(self, key: KeyEvent) -> AppView {
        match key.code {
            KeyCode::PageUp => self.scrolled(self.page()),
            KeyCode::PageDown => self.scrolled(-self.page()),
            KeyCode::Tab => self.tab_key(),
            KeyCode::BackTab => self.tab_key(),
            KeyCode::Backspace => if self.composer_open {
                self.erasing()
            } else {
                self
            },
            KeyCode::Delete => if self.composer_open {
                self.with_composer(self.composer.delete())
            } else {
                self
            },
            KeyCode::Left => self.left_key(key),
            KeyCode::Right => self.right_key(key),
            KeyCode::Home => self.with_composer(self.composer.at(0)),
            KeyCode::End => self.with_composer(
                self.composer.at(byte_len(self.composer.text) as int),
            ),
            KeyCode::Esc => self.escaping(key),
            KeyCode::Char(c) => if key.is_bare() {
                self.typing(c)
            } else {
                self
            },
            _ => self,
        }
    }

    /// The tab key turns the open composer.
    #[verifier::opaque]
    pub open spec fn tab_key(self) -> AppView {
        if self.composer_open {
            self.toggling_target()
        } else {
            self
        }
    }

    /// Whether the left and right keys mean the menu and the native interface.
    pub open spec fn arrows_are_free(self, key: KeyEvent) -> bool {
        self.composer.text.len() == 0 && self.composer.target != ComposeTarget::Rename
            && key.is_bare()
    }

    /// The left key: the menu, or the cursor.
    #[verifier::opaque]
    pub open spec fn left_key(self, key: KeyEvent) -> AppView {
        if !self.arrows_are_free(key) {
            self.with_composer(self.composer.move_left())
        } else if key.kind == KeyKind::Press {
            self.confirming_menu()
        } else {
            self
        }
    }

    /// The right key: the native interface, or the cursor.
    #[verifier::opaque]
    pub open spec fn right_key(self, key: KeyEvent) -> AppView {
        if !self.arrows_are_free(key) {
            self.with_composer(self.composer.move_right())
        } else if key.kind == KeyKind::Press {
            self.confirming_attach()
        } else {
            self
        }
    }

    /// A text is pasted, given which of its paths are files: images are attached,
    /// a long text is collapsed, and other text is inserted. An empty text stands
    /// for an image on the clipboard.
    #[verifier::opaque]
    pub open spec fn pasted(self, text: Seq<char>, files: Seq<Seq<char>>) -> AppView {
        let paths = paths_in(lines_of(text));
        if text.len() == 0 {
            self.wanting_clipboard()
        } else if paths.len() > 0 && all_images(paths, files) {
            self.with_images(paths).opened()
        } else if text.len() > LONG_PASTE_CHARS {
            self.unarmed().with_composer(self.composer.attach_pasted_text(text)).opened()
        } else {
            self.unarmed().with_composer(self.composer.insert(text)).opened()
        }
    }

    /// The next key that attaches is the first of two.
    #[verifier::opaque]
    pub open spec fn unarmed(self) -> AppView {
        AppView { attach_right_armed: false, ..self }
    }
}

/// A new task with a prompt, its images and its skills; the cursor stands behind the
/// text.
pub open spec fn restored(draft: DraftView) -> ComposerView {
    ComposerView {
        text: draft.text,
        cursor: byte_len(draft.text) as int,
        images: draft.images,
        skills: draft.skills,
        ..ComposerView::empty(ComposeTarget::NewTask)
    }
}

/// The message where a transcript could not be read.
pub open spec fn preview_error() -> MessageView {
    MessageView {
        id: "bounded-preview-error"@,
        kind: MessageKind::System,
        text: "Transcript preview is unavailable · attach to view the full history"@,
    }
}

/// The message above the end of a large transcript.
pub open spec fn preview_heading(file_bytes: nat) -> MessageView {
    MessageView {
        id: "bounded-preview"@,
        kind: MessageKind::System,
        text: "Large session ("@ + mebibytes(file_bytes)
            + " MiB) · showing the latest 64 MiB · attach for full history"@,
    }
}

/// The local copy of an answer.
pub open spec fn local_answer(number: nat, text: Seq<char>) -> MessageView {
    MessageView { id: "local-answer-"@ + decimal(number), kind: MessageKind::User, text }
}

impl MenuView {
    /// The menu on its other tab.
    pub open spec fn other_tab(self) -> MenuView {
        MenuView {
            tab: if self.tab == MenuTab::Resume {
                MenuTab::Settings
            } else {
                MenuTab::Resume
            },
            ..self
        }
    }

    /// The choice above.
    pub open spec fn above(self) -> MenuView {
        if self.tab == MenuTab::Settings {
            MenuView { verbosity: verbosity_above(self.verbosity), ..self }
        } else {
            MenuView { selected: max_int(self.selected - 1, 0), ..self }
        }
    }

    /// The choice below, where so many sessions are offered.
    pub open spec fn below(self, offered: nat) -> MenuView {
        if self.tab == MenuTab::Settings {
            MenuView { verbosity: verbosity_below(self.verbosity), ..self }
        } else if self.selected + 1 < offered {
            MenuView { selected: self.selected + 1, ..self }
        } else {
            self
        }
    }

    /// The search without its last character.
    pub open spec fn erased(self) -> MenuView {
        if self.tab == MenuTab::Resume && self.query.len() > 0 {
            MenuView { query: self.query.drop_last(), selected: 0, ..self }
        } else {
            self
        }
    }

    /// The search with one more character.
    pub open spec fn typed(self, c: char) -> MenuView {
        if self.tab == MenuTab::Resume {
            MenuView { query: self.query.push(c), selected: 0, ..self }
        } else {
            self
        }
    }
}

} // verus!
