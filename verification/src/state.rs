//! The state of the dashboard.

use vstd::prelude::*;

use crate::assoc::distinct_keys;
use crate::composer::{Composer, ComposerView, SkillReference, SkillView};
use crate::deck::drafts_wf;
use crate::json::{Json, JsonView};
use crate::lifecycle::{id_set, LifecycleStore, LifecycleView};
use crate::model::{MessageKind, PreviewVerbosity, Session, SessionView};
use crate::protocol::{PendingRequestKind, RequestKindView};
use crate::selection::{PreviewSelection, SelectionView};
use crate::skills::{Skill, SkillEntryView};
use crate::text::{option_text, texts};
use crate::transcript::BoundedPreview;
use crate::views::{group_views, views};

verus! {

broadcast use group_views;

/// What is sent as a prompt.
#[derive(Debug)]
pub struct PromptDraft {
    pub text: String,
    pub images: Vec<String>,
    pub skills: Vec<SkillReference>,
}

/// The mathematical form of a prompt.
#[verifier::ext_equal]
pub struct DraftView {
    pub text: Seq<char>,
    pub images: Seq<Seq<char>>,
    pub skills: Seq<SkillView>,
}

impl View for PromptDraft {
    type V = DraftView;

    open spec fn view(&self) -> DraftView {
        DraftView {
            text: self.text@,
            images: texts(self.images@),
            skills: views(self.skills@),
        }
    }
}

/// A request to the app-server that is not answered yet.
#[derive(Debug)]
pub enum PendingCall {
    Initialize,
    ThreadList { paginate: bool },
    ThreadRead { thread_id: String },
    ThreadStart { draft: PromptDraft },
    ThreadResumeForReply { thread_id: String, draft: PromptDraft },
    TurnStart { thread_id: String },
    TurnSteer { thread_id: String },
    TurnInterrupt { thread_id: String },
    ThreadNameSet { thread_id: String, name: String },
    SkillsList { cwd: String },
}

/// The mathematical form of a request.
#[verifier::ext_equal]
pub enum CallView {
    Initialize,
    ThreadList { paginate: bool },
    ThreadRead { thread_id: Seq<char> },
    ThreadStart { draft: DraftView },
    ThreadResumeForReply { thread_id: Seq<char>, draft: DraftView },
    TurnStart { thread_id: Seq<char> },
    TurnSteer { thread_id: Seq<char> },
    TurnInterrupt { thread_id: Seq<char> },
    ThreadNameSet { thread_id: Seq<char>, name: Seq<char> },
    SkillsList { cwd: Seq<char> },
}

impl View for PendingCall {
    type V = CallView;

    open spec fn view(&self) -> CallView {
        match self {
            PendingCall::Initialize => CallView::Initialize,
            PendingCall::ThreadList { paginate } => CallView::ThreadList { paginate: *paginate },
            PendingCall::ThreadRead { thread_id } => CallView::ThreadRead {
                thread_id: thread_id@,
            },
            PendingCall::ThreadStart { draft } => CallView::ThreadStart { draft: draft@ },
            PendingCall::ThreadResumeForReply { thread_id, draft } => {
                CallView::ThreadResumeForReply { thread_id: thread_id@, draft: draft@ }
            },
            PendingCall::TurnStart { thread_id } => CallView::TurnStart { thread_id: thread_id@ },
            PendingCall::TurnSteer { thread_id } => CallView::TurnSteer { thread_id: thread_id@ },
            PendingCall::TurnInterrupt { thread_id } => CallView::TurnInterrupt {
                thread_id: thread_id@,
            },
            PendingCall::ThreadNameSet { thread_id, name } => CallView::ThreadNameSet {
                thread_id: thread_id@,
                name: name@,
            },
            PendingCall::SkillsList { cwd } => CallView::SkillsList { cwd: cwd@ },
        }
    }
}

/// A request of the app-server that waits for the user.
#[derive(Debug)]
pub struct PendingRequest {
    pub id: Json,
    pub thread_id: String,
    pub kind: PendingRequestKind,
}

/// The mathematical form of a request of the app-server.
#[verifier::ext_equal]
pub struct RequestView {
    pub id: JsonView,
    pub thread_id: Seq<char>,
    pub kind: RequestKindView,
}

impl View for PendingRequest {
    type V = RequestView;

    open spec fn view(&self) -> RequestView {
        RequestView { id: self.id@, thread_id: self.thread_id@, kind: self.kind@ }
    }
}

/// A session to open in the native interface.
#[derive(Debug, PartialEq, Eq)]
pub struct AttachRequest {
    pub thread_id: String,
    pub cwd: String,
}

/// The mathematical form of an attach request.
#[verifier::ext_equal]
pub struct AttachView {
    pub thread_id: Seq<char>,
    pub cwd: Seq<char>,
}

impl View for AttachRequest {
    type V = AttachView;

    open spec fn view(&self) -> AttachView {
        AttachView { thread_id: self.thread_id@, cwd: self.cwd@ }
    }
}

/// A transcript whose size has to be looked at before its history is loaded.
#[derive(Debug, PartialEq, Eq)]
pub struct HistoryRequest {
    pub thread_id: String,
    pub path: String,
    pub after_attach: bool,
    pub keep_notice: bool,
}

/// The mathematical form of a history request.
#[verifier::ext_equal]
pub struct HistoryView {
    pub thread_id: Seq<char>,
    pub path: Seq<char>,
    pub after_attach: bool,
    pub keep_notice: bool,
}

impl View for HistoryRequest {
    type V = HistoryView;

    open spec fn view(&self) -> HistoryView {
        HistoryView {
            thread_id: self.thread_id@,
            path: self.path@,
            after_attach: self.after_attach,
            keep_notice: self.keep_notice,
        }
    }
}

/// What became of a look at a transcript.
#[derive(Debug)]
pub enum TranscriptOutcome {
    /// The transcript is small enough for the app-server.
    Small,
    /// The end of a large transcript.
    Preview(BoundedPreview),
    /// The transcript could not be read.
    Unavailable,
}

/// The tabs of the menu.
#[derive(Debug, Clone, Copy, PartialEq, Eq, Structural)]
pub enum MenuTab {
    Resume,
    Settings,
}

/// The menu: its tab, the preview level that is chosen, and the search for a
/// session.
#[derive(Debug)]
pub struct Menu {
    pub tab: MenuTab,
    pub verbosity: PreviewVerbosity,
    pub query: String,
    pub selected: usize,
}

/// The mathematical form of the menu.
#[verifier::ext_equal]
pub struct MenuView {
    pub tab: MenuTab,
    pub verbosity: PreviewVerbosity,
    pub query: Seq<char>,
    pub selected: int,
}

impl View for Menu {
    type V = MenuView;

    open spec fn view(&self) -> MenuView {
        MenuView {
            tab: self.tab,
            verbosity: self.verbosity,
            query: self.query@,
            selected: self.selected as int,
        }
    }
}

/// The dashboard.
#[derive(Debug)]
pub struct App {
    cwd: String,
    show_all: bool,
    lifecycle: LifecycleStore,
    initial_scan_seen: Vec<String>,
    sessions: Vec<Session>,
    history: Vec<Session>,
    selected: usize,
    composer: Composer,
    new_draft: Composer,
    reply_drafts: Vec<(String, Composer)>,
    pending_calls: Vec<(u64, PendingCall)>,
    pending_requests: Vec<PendingRequest>,
    queued_replies: Vec<(String, String)>,
    live_item_kinds: Vec<((String, String), MessageKind)>,
    initialized: bool,
    initial_load_complete: bool,
    list_inflight: bool,
    last_refresh: u64,
    clock: u64,
    unix_time: i64,
    should_quit: bool,
    notice: String,
    scroll_back: usize,
    message_view_height: usize,
    attach_requested: Option<AttachRequest>,
    attach_right_armed: bool,
    rename_previous: Option<Composer>,
    rename_thread_id: Option<String>,
    rename_opened: bool,
    composer_open: bool,
    help_open: bool,
    menu: Option<Menu>,
    menu_left_armed: bool,
    ctrl_x_armed: Option<String>,
    esc_armed: bool,
    composer_width: usize,
    composer_prefix_width: usize,
    preview: PreviewSelection,
    clipboard_requested: bool,
    history_requested: Option<HistoryRequest>,
    skills: Option<Vec<Skill>>,
    skills_cwd: String,
    skills_loading: bool,
    skill_selected: usize,
}

/// The mathematical form of the dashboard.
pub struct AppView {
    pub cwd: Seq<char>,
    pub show_all: bool,
    pub lifecycle: LifecycleView,
    pub initial_scan_seen: Set<Seq<char>>,
    pub sessions: Seq<SessionView>,
    pub history: Seq<SessionView>,
    pub selected: int,
    pub composer: ComposerView,
    pub new_draft: ComposerView,
    pub reply_drafts: Seq<(Seq<char>, ComposerView)>,
    pub pending_calls: Seq<(u64, CallView)>,
    pub pending_requests: Seq<RequestView>,
    pub queued_replies: Seq<(Seq<char>, Seq<char>)>,
    pub live_item_kinds: Seq<((Seq<char>, Seq<char>), MessageKind)>,
    pub initialized: bool,
    pub initial_load_complete: bool,
    pub list_inflight: bool,
    pub last_refresh: u64,
    pub clock: u64,
    pub unix_time: i64,
    pub should_quit: bool,
    pub notice: Seq<char>,
    pub scroll_back: int,
    pub message_view_height: int,
    pub attach_requested: Option<AttachView>,
    pub attach_right_armed: bool,
    pub rename_previous: Option<ComposerView>,
    pub rename_thread_id: Option<Seq<char>>,
    pub rename_opened: bool,
    pub composer_open: bool,
    pub help_open: bool,
    pub menu: Option<MenuView>,
    pub menu_left_armed: bool,
    pub ctrl_x_armed: Option<Seq<char>>,
    pub esc_armed: bool,
    pub composer_width: nat,
    pub composer_prefix_width: nat,
    pub preview: SelectionView,
    pub clipboard_requested: bool,
    pub history_requested: Option<HistoryView>,
    pub skills: Option<Seq<SkillEntryView>>,
    pub skills_cwd: Seq<char>,
    pub skills_loading: bool,
    pub skill_selected: int,
}

/// Drafts by their sessions.
pub open spec fn draft_views(items: Seq<(String, Composer)>) -> Seq<(Seq<char>, ComposerView)> {
    Seq::new(items.len(), |i: int| (items[i].0@, items[i].1@))
}

/// Requests by their numbers.
pub open spec fn call_views(items: Seq<(u64, PendingCall)>) -> Seq<(u64, CallView)> {
    Seq::new(items.len(), |i: int| (items[i].0, items[i].1@))
}

/// Replies by their sessions.
pub open spec fn reply_views(items: Seq<(String, String)>) -> Seq<(Seq<char>, Seq<char>)> {
    Seq::new(items.len(), |i: int| (items[i].0@, items[i].1@))
}

/// Kinds by their items.
pub open spec fn kind_views(items: Seq<((String, String), MessageKind)>) -> Seq<
    ((Seq<char>, Seq<char>), MessageKind),
> {
    Seq::new(items.len(), |i: int| ((items[i].0.0@, items[i].0.1@), items[i].1))
}

/// The view of a value that may be absent.
pub open spec fn option_view<T: View>(value: Option<T>) -> Option<T::V> {
    match value {
        Some(value) => Some(value@),
        None => None,
    }
}

/// The views of items that may be absent.
pub open spec fn option_views<T: View>(value: Option<Vec<T>>) -> Option<Seq<T::V>> {
    match value {
        Some(items) => Some(views(items@)),
        None => None,
    }
}

impl View for App {
    type V = AppView;

    closed spec fn view(&self) -> AppView {
        AppView {
            cwd: self.cwd@,
            show_all: self.show_all,
            lifecycle: self.lifecycle@,
            initial_scan_seen: id_set(self.initial_scan_seen@),
            sessions: views(self.sessions@),
            history: views(self.history@),
            selected: self.selected as int,
            composer: self.composer@,
            new_draft: self.new_draft@,
            reply_drafts: draft_views(self.reply_drafts@),
            pending_calls: call_views(self.pending_calls@),
            pending_requests: views(self.pending_requests@),
            queued_replies: reply_views(self.queued_replies@),
            live_item_kinds: kind_views(self.live_item_kinds@),
            initialized: self.initialized,
            initial_load_complete: self.initial_load_complete,
            list_inflight: self.list_inflight,
            last_refresh: self.last_refresh,
            clock: self.clock,
            unix_time: self.unix_time,
            should_quit: self.should_quit,
            notice: self.notice@,
            scroll_back: self.scroll_back as int,
            message_view_height: self.message_view_height as int,
            attach_requested: option_view(self.attach_requested),
            attach_right_armed: self.attach_right_armed,
            rename_previous: option_view(self.rename_previous),
            rename_thread_id: option_text(self.rename_thread_id),
            rename_opened: self.rename_opened,
            composer_open: self.composer_open,
            help_open: self.help_open,
            menu: option_view(self.menu),
            menu_left_armed: self.menu_left_armed,
            ctrl_x_armed: option_text(self.ctrl_x_armed),
            esc_armed: self.esc_armed,
            composer_width: self.composer_width as nat,
            composer_prefix_width: self.composer_prefix_width as nat,
            preview: self.preview@,
            clipboard_requested: self.clipboard_requested,
            history_requested: option_view(self.history_requested),
            skills: option_views(self.skills),
            skills_cwd: self.skills_cwd@,
            skills_loading: self.skills_loading,
            skill_selected: self.skill_selected as int,
        }
    }
}

impl App {
    /// A dashboard for a directory.
    pub fn with_lifecycle(cwd: String, show_all: bool, lifecycle: LifecycleStore) -> (app: App)
        ensures
            app@ == AppView::fresh(cwd@, show_all, lifecycle@),
            app@.wf(),
    {
        let app = App {
            cwd,
            show_all,
            lifecycle,
            initial_scan_seen: Vec::new(),
            sessions: Vec::new(),
            history: Vec::new(),
            selected: 0,
            composer: Composer::default(),
            new_draft: Composer::default(),
            reply_drafts: Vec::new(),
            pending_calls: Vec::new(),
            pending_requests: Vec::new(),
            queued_replies: Vec::new(),
            live_item_kinds: Vec::new(),
            initialized: false,
            initial_load_complete: false,
            list_inflight: false,
            last_refresh: 0,
            clock: 0,
            unix_time: 0,
            should_quit: false,
            notice: "Connecting to Codex…".to_owned(),
            scroll_back: 0,
            message_view_height: 1,
            attach_requested: None,
            attach_right_armed: false,
            rename_previous: None,
            rename_thread_id: None,
            rename_opened: false,
            composer_open: false,
            help_open: false,
            menu: None,
            menu_left_armed: false,
            ctrl_x_armed: None,
            esc_armed: false,
            composer_width: 1,
            composer_prefix_width: 0,
            preview: PreviewSelection::default(),
            clipboard_requested: false,
            history_requested: None,
            skills: None,
            skills_cwd: String::new(),
            skills_loading: false,
            skill_selected: 0,
        };
        proof {
            reveal(id_set);
            reveal(AppView::wf);
            assert(app@.initial_scan_seen =~= Set::empty());
            assert(app@.reply_drafts =~= seq![]);
            assert(app@.pending_calls =~= seq![]);
            assert(app@.queued_replies =~= seq![]);
            assert(app@.live_item_kinds =~= seq![]);
            reveal(distinct_keys);
        }
        app
    }

    /// The directory of the dashboard.
    pub fn cwd(&self) -> (value: &str)
        ensures
            value@ == self@.cwd,
    {
        self.cwd.as_str()
    }

    /// Whether every session is shown.
    pub fn show_all(&self) -> (value: bool)
        ensures
            value == self@.show_all,
    {
        self.show_all
    }

    /// The registry of sessions.
    pub fn lifecycle(&self) -> (value: &LifecycleStore)
        ensures
            value@ == self@.lifecycle,
    {
        &self.lifecycle
    }

    /// The registry of sessions, to be changed.
    pub fn lifecycle_mut(&mut self) -> (place: &mut LifecycleStore)
        ensures
            place@ == old(self)@.lifecycle,
            final(self)@ == (AppView { lifecycle: final(place)@, ..old(self)@ }),
            old(self)@.wf() ==> final(self)@.wf(),
    {
        reveal(AppView::wf);
        &mut self.lifecycle
    }

    /// The sessions of the first scan.
    pub(crate) fn initial_scan_seen(&self) -> (value: &Vec<String>)
        ensures
            id_set(value@) == self@.initial_scan_seen,
    {
        &self.initial_scan_seen
    }

    pub(crate) fn initial_scan_seen_mut(&mut self) -> (place: &mut Vec<String>)
        ensures
            id_set(place@) == old(self)@.initial_scan_seen,
            final(self)@ == (AppView { initial_scan_seen: id_set(final(place)@), ..old(self)@ }),
            old(self)@.wf() ==> final(self)@.wf(),
    {
        reveal(AppView::wf);
        &mut self.initial_scan_seen
    }

    /// The sessions that are shown.
    pub fn sessions(&self) -> (value: &Vec<Session>)
        ensures
            views(value@) == self@.sessions,
    {
        &self.sessions
    }

    /// The sessions that are shown, to be changed.
    pub fn sessions_mut(&mut self) -> (place: &mut Vec<Session>)
        ensures
            views(place@) == old(self)@.sessions,
            final(self)@ == (AppView { sessions: views(final(place)@), ..old(self)@ }),
            old(self)@.wf() ==> final(self)@.wf(),
    {
        reveal(AppView::wf);
        &mut self.sessions
    }

    pub(crate) fn put_sessions(&mut self, value: Vec<Session>)
        ensures
            final(self)@ == (AppView { sessions: views(value@), ..old(self)@ }),
            old(self)@.wf() ==> final(self)@.wf(),
    {
        reveal(AppView::wf);
        self.sessions = value;
    }

    /// The sessions that can be resumed.
    pub fn history(&self) -> (value: &Vec<Session>)
        ensures
            views(value@) == self@.history,
    {
        &self.history
    }

    pub(crate) fn history_mut(&mut self) -> (place: &mut Vec<Session>)
        ensures
            views(place@) == old(self)@.history,
            final(self)@ == (AppView { history: views(final(place)@), ..old(self)@ }),
            old(self)@.wf() ==> final(self)@.wf(),
    {
        reveal(AppView::wf);
        &mut self.history
    }

    /// The row that was selected last.
    pub(crate) fn selected(&self) -> (value: usize)
        ensures
            value == self@.selected,
    {
        self.selected
    }

    pub(crate) fn put_selected(&mut self, value: usize)
        ensures
            final(self)@ == (AppView { selected: value as int, ..old(self)@ }),
            old(self)@.wf() ==> final(self)@.wf(),
    {
        reveal(AppView::wf);
        self.selected = value;
    }

    /// The composer.
    pub fn composer(&self) -> (value: &Composer)
        ensures
            value@ == self@.composer,
            self@.wf() ==> value@.wf(),
    {
        reveal(AppView::wf);
        &self.composer
    }

    /// The composer, to be changed.
    pub fn composer_mut(&mut self) -> (place: &mut Composer)
        ensures
            place@ == old(self)@.composer,
            final(self)@ == (AppView { composer: final(place)@, ..old(self)@ }),
            old(self)@.wf() ==> place@.wf(),
            old(self)@.wf() && final(place)@.wf() ==> final(self)@.wf(),
    {
        reveal(AppView::wf);
        &mut self.composer
    }

    pub(crate) fn put_composer(&mut self, value: Composer)
        ensures
            final(self)@ == (AppView { composer: value@, ..old(self)@ }),
            old(self)@.wf() && value@.wf() ==> final(self)@.wf(),
    {
        reveal(AppView::wf);
        self.composer = value;
    }

    /// The draft of a new task.
    pub(crate) fn new_draft(&self) -> (value: &Composer)
        ensures
            value@ == self@.new_draft,
            self@.wf() ==> value@.wf(),
    {
        reveal(AppView::wf);
        &self.new_draft
    }

    pub(crate) fn put_new_draft(&mut self, value: Composer)
        ensures
            final(self)@ == (AppView { new_draft: value@, ..old(self)@ }),
            old(self)@.wf() && value@.wf() ==> final(self)@.wf(),
    {
        reveal(AppView::wf);
        self.new_draft = value;
    }

    /// The drafts of replies.
    pub(crate) fn reply_drafts(&self) -> (value: &Vec<(String, Composer)>)
        ensures
            draft_views(value@) == self@.reply_drafts,
            self@.wf() ==> drafts_wf(draft_views(value@)),
    {
        reveal(AppView::wf);
        &self.reply_drafts
    }

    pub(crate) fn reply_drafts_mut(&mut self) -> (place: &mut Vec<(String, Composer)>)
        ensures
            draft_views(place@) == old(self)@.reply_drafts,
            final(self)@ == (AppView { reply_drafts: draft_views(final(place)@), ..old(self)@ }),
            old(self)@.wf() ==> drafts_wf(draft_views(place@)),
            old(self)@.wf() && drafts_wf(draft_views(final(place)@)) ==> final(self)@.wf(),
    {
        reveal(AppView::wf);
        &mut self.reply_drafts
    }

    /// The requests that wait for an answer.
    pub(crate) fn pending_calls(&self) -> (value: &Vec<(u64, PendingCall)>)
        ensures
            call_views(value@) == self@.pending_calls,
    {
        &self.pending_calls
    }

    pub(crate) fn pending_calls_mut(&mut self) -> (place: &mut Vec<(u64, PendingCall)>)
        ensures
            call_views(place@) == old(self)@.pending_calls,
            final(self)@ == (AppView { pending_calls: call_views(final(place)@), ..old(self)@ }),
            old(self)@.wf() ==> distinct_keys(call_views(place@)),
            old(self)@.wf() && distinct_keys(call_views(final(place)@)) ==> final(self)@.wf(),
    {
        reveal(AppView::wf);
        &mut self.pending_calls
    }

    /// The requests of the app-server that wait for the user.
    pub(crate) fn pending_requests(&self) -> (value: &Vec<PendingRequest>)
        ensures
            views(value@) == self@.pending_requests,
    {
        &self.pending_requests
    }

    pub(crate) fn pending_requests_mut(&mut self) -> (place: &mut Vec<PendingRequest>)
        ensures
            views(place@) == old(self)@.pending_requests,
            final(self)@ == (AppView { pending_requests: views(final(place)@), ..old(self)@ }),
            old(self)@.wf() ==> final(self)@.wf(),
    {
        reveal(AppView::wf);
        &mut self.pending_requests
    }

    /// The replies that follow a declined request.
    pub(crate) fn queued_replies(&self) -> (value: &Vec<(String, String)>)
        ensures
            reply_views(value@) == self@.queued_replies,
    {
        &self.queued_replies
    }

    pub(crate) fn queued_replies_mut(&mut self) -> (place: &mut Vec<(String, String)>)
        ensures
            reply_views(place@) == old(self)@.queued_replies,
            final(self)@ == (AppView { queued_replies: reply_views(final(place)@), ..old(self)@ }),
            old(self)@.wf() ==> distinct_keys(reply_views(place@)),
            old(self)@.wf() && distinct_keys(reply_views(final(place)@)) ==> final(self)@.wf(),
    {
        reveal(AppView::wf);
        &mut self.queued_replies
    }

    /// What the items of running turns are.
    pub(crate) fn live_item_kinds(&self) -> (value: &Vec<((String, String), MessageKind)>)
        ensures
            kind_views(value@) == self@.live_item_kinds,
    {
        &self.live_item_kinds
    }

    pub(crate) fn live_item_kinds_mut(&mut self) -> (place: &mut Vec<((String, String), MessageKind)>)
        ensures
            kind_views(place@) == old(self)@.live_item_kinds,
            final(self)@ == (AppView { live_item_kinds: kind_views(final(place)@), ..old(self)@ }),
            old(self)@.wf() ==> distinct_keys(kind_views(place@)),
            old(self)@.wf() && distinct_keys(kind_views(final(place)@)) ==> final(self)@.wf(),
    {
        reveal(AppView::wf);
        &mut self.live_item_kinds
    }

    /// Whether the app-server has answered.
    pub(crate) fn initialized(&self) -> (value: bool)
        ensures
            value == self@.initialized,
    {
        self.initialized
    }

    pub(crate) fn put_initialized(&mut self, value: bool)
        ensures
            final(self)@ == (AppView { initialized: value, ..old(self)@ }),
            old(self)@.wf() ==> final(self)@.wf(),
    {
        reveal(AppView::wf);
        self.initialized = value;
    }

    /// Whether the first list has come.
    pub fn initial_load_complete(&self) -> (value: bool)
        ensures
            value == self@.initial_load_complete,
    {
        self.initial_load_complete
    }

    pub(crate) fn put_initial_load_complete(&mut self, value: bool)
        ensures
            final(self)@ == (AppView { initial_load_complete: value, ..old(self)@ }),
            old(self)@.wf() ==> final(self)@.wf(),
    {
        reveal(AppView::wf);
        self.initial_load_complete = value;
    }

    /// Whether a list has been asked for.
    pub(crate) fn list_inflight(&self) -> (value: bool)
        ensures
            value == self@.list_inflight,
    {
        self.list_inflight
    }

    pub(crate) fn put_list_inflight(&mut self, value: bool)
        ensures
            final(self)@ == (AppView { list_inflight: value, ..old(self)@ }),
            old(self)@.wf() ==> final(self)@.wf(),
    {
        reveal(AppView::wf);
        self.list_inflight = value;
    }

    /// When the last list was asked for, in milliseconds.
    pub(crate) fn last_refresh(&self) -> (value: u64)
        ensures
            value == self@.last_refresh,
    {
        self.last_refresh
    }

    pub(crate) fn put_last_refresh(&mut self, value: u64)
        ensures
            final(self)@ == (AppView { last_refresh: value, ..old(self)@ }),
            old(self)@.wf() ==> final(self)@.wf(),
    {
        reveal(AppView::wf);
        self.last_refresh = value;
    }

    /// The time in milliseconds.
    pub(crate) fn clock(&self) -> (value: u64)
        ensures
            value == self@.clock,
    {
        self.clock
    }

    pub(crate) fn put_clock(&mut self, value: u64)
        ensures
            final(self)@ == (AppView { clock: value, ..old(self)@ }),
            old(self)@.wf() ==> final(self)@.wf(),
    {
        reveal(AppView::wf);
        self.clock = value;
    }

    /// The time in seconds.
    pub(crate) fn unix_time(&self) -> (value: i64)
        ensures
            value == self@.unix_time,
    {
        self.unix_time
    }

    pub(crate) fn put_unix_time(&mut self, value: i64)
        ensures
            final(self)@ == (AppView { unix_time: value, ..old(self)@ }),
            old(self)@.wf() ==> final(self)@.wf(),
    {
        reveal(AppView::wf);
        self.unix_time = value;
    }

    /// Whether the dashboard should close.
    pub fn should_quit(&self) -> (value: bool)
        ensures
            value == self@.should_quit,
    {
        self.should_quit
    }

    pub(crate) fn put_should_quit(&mut self, value: bool)
        ensures
            final(self)@ == (AppView { should_quit: value, ..old(self)@ }),
            old(self)@.wf() ==> final(self)@.wf(),
    {
        reveal(AppView::wf);
        self.should_quit = value;
    }

    /// The notice.
    pub fn notice(&self) -> (value: &str)
        ensures
            value@ == self@.notice,
    {
        self.notice.as_str()
    }

    pub(crate) fn put_notice(&mut self, value: String)
        ensures
            final(self)@ == old(self)@.noting(value@),
            old(self)@.wf() ==> final(self)@.wf(),
    {
        reveal(AppView::wf);
        reveal(AppView::noting);
        self.notice = value;
    }

    /// How far the preview is scrolled back.
    pub fn scroll_back(&self) -> (value: usize)
        ensures
            value == self@.scroll_back,
    {
        self.scroll_back
    }

    pub(crate) fn put_scroll_back(&mut self, value: usize)
        ensures
            final(self)@ == (AppView { scroll_back: value as int, ..old(self)@ }),
            old(self)@.wf() ==> final(self)@.wf(),
    {
        reveal(AppView::wf);
        self.scroll_back = value;
    }

    /// The height of the preview.
    pub fn message_view_height(&self) -> (value: usize)
        ensures
            value == self@.message_view_height,
    {
        self.message_view_height
    }

    pub(crate) fn put_message_view_height(&mut self, value: usize)
        ensures
            final(self)@ == (AppView { message_view_height: value as int, ..old(self)@ }),
            old(self)@.wf() ==> final(self)@.wf(),
    {
        reveal(AppView::wf);
        self.message_view_height = value;
    }

    /// The session to attach to.
    pub fn attach_requested(&self) -> (value: &Option<AttachRequest>)
        ensures
            option_view((*value)) == self@.attach_requested,
    {
        &self.attach_requested
    }

    pub(crate) fn put_attach_requested(&mut self, value: Option<AttachRequest>)
        ensures
            final(self)@ == (AppView { attach_requested: option_view(value), ..old(self)@ }),
            old(self)@.wf() ==> final(self)@.wf(),
    {
        reveal(AppView::wf);
        self.attach_requested = value;
    }

    /// Whether one more Right attaches.
    pub(crate) fn attach_right_armed(&self) -> (value: bool)
        ensures
            value == self@.attach_right_armed,
    {
        self.attach_right_armed
    }

    pub(crate) fn put_attach_right_armed(&mut self, value: bool)
        ensures
            final(self)@ == (AppView { attach_right_armed: value, ..old(self)@ }),
            old(self)@.wf() ==> final(self)@.wf(),
    {
        reveal(AppView::wf);
        self.attach_right_armed = value;
    }

    /// The draft before a rename.
    pub(crate) fn rename_previous(&self) -> (value: &Option<Composer>)
        ensures
            option_view((*value)) == self@.rename_previous,
            self@.wf() ==> (*value matches Some(previous) ==> previous@.wf()),
    {
        reveal(AppView::wf);
        &self.rename_previous
    }

    pub(crate) fn put_rename_previous(&mut self, value: Option<Composer>)
        ensures
            final(self)@ == (AppView { rename_previous: option_view(value), ..old(self)@ }),
            old(self)@.wf() && (value matches Some(previous) ==> previous@.wf()) ==> final(self)@.wf(),
    {
        reveal(AppView::wf);
        self.rename_previous = value;
    }

    /// The session that is renamed.
    pub(crate) fn rename_thread_id(&self) -> (value: &Option<String>)
        ensures
            option_text((*value)) == self@.rename_thread_id,
    {
        &self.rename_thread_id
    }

    pub(crate) fn put_rename_thread_id(&mut self, value: Option<String>)
        ensures
            final(self)@ == (AppView { rename_thread_id: option_text(value), ..old(self)@ }),
            old(self)@.wf() ==> final(self)@.wf(),
    {
        reveal(AppView::wf);
        self.rename_thread_id = value;
    }

    /// Whether the rename has opened the composer.
    pub(crate) fn rename_opened(&self) -> (value: bool)
        ensures
            value == self@.rename_opened,
    {
        self.rename_opened
    }

    pub(crate) fn put_rename_opened(&mut self, value: bool)
        ensures
            final(self)@ == (AppView { rename_opened: value, ..old(self)@ }),
            old(self)@.wf() ==> final(self)@.wf(),
    {
        reveal(AppView::wf);
        self.rename_opened = value;
    }

    /// Whether the composer is open.
    pub fn composer_open(&self) -> (value: bool)
        ensures
            value == self@.composer_open,
    {
        self.composer_open
    }

    pub(crate) fn put_composer_open(&mut self, value: bool)
        ensures
            final(self)@ == (AppView { composer_open: value, ..old(self)@ }),
            old(self)@.wf() ==> final(self)@.wf(),
    {
        reveal(AppView::wf);
        self.composer_open = value;
    }

    /// Whether the help is shown.
    pub fn help_open(&self) -> (value: bool)
        ensures
            value == self@.help_open,
    {
        self.help_open
    }

    pub(crate) fn put_help_open(&mut self, value: bool)
        ensures
            final(self)@ == (AppView { help_open: value, ..old(self)@ }),
            old(self)@.wf() ==> final(self)@.wf(),
    {
        reveal(AppView::wf);
        self.help_open = value;
    }

    /// The menu.
    pub fn menu(&self) -> (value: &Option<Menu>)
        ensures
            option_view((*value)) == self@.menu,
    {
        &self.menu
    }

    pub(crate) fn put_menu(&mut self, value: Option<Menu>)
        ensures
            final(self)@ == (AppView { menu: option_view(value), ..old(self)@ }),
            old(self)@.wf() ==> final(self)@.wf(),
    {
        reveal(AppView::wf);
        self.menu = value;
    }

    /// Whether one more Left opens the menu.
    pub(crate) fn menu_left_armed(&self) -> (value: bool)
        ensures
            value == self@.menu_left_armed,
    {
        self.menu_left_armed
    }

    pub(crate) fn put_menu_left_armed(&mut self, value: bool)
        ensures
            final(self)@ == (AppView { menu_left_armed: value, ..old(self)@ }),
            old(self)@.wf() ==> final(self)@.wf(),
    {
        reveal(AppView::wf);
        self.menu_left_armed = value;
    }

    /// The session that one more Ctrl+X stops.
    pub(crate) fn ctrl_x_armed(&self) -> (value: &Option<String>)
        ensures
            option_text((*value)) == self@.ctrl_x_armed,
    {
        &self.ctrl_x_armed
    }

    pub(crate) fn put_ctrl_x_armed(&mut self, value: Option<String>)
        ensures
            final(self)@ == (AppView { ctrl_x_armed: option_text(value), ..old(self)@ }),
            old(self)@.wf() ==> final(self)@.wf(),
    {
        reveal(AppView::wf);
        self.ctrl_x_armed = value;
    }

    /// Whether one more Esc quits.
    pub(crate) fn esc_armed(&self) -> (value: bool)
        ensures
            value == self@.esc_armed,
    {
        self.esc_armed
    }

    pub(crate) fn put_esc_armed(&mut self, value: bool)
        ensures
            final(self)@ == (AppView { esc_armed: value, ..old(self)@ }),
            old(self)@.wf() ==> final(self)@.wf(),
    {
        reveal(AppView::wf);
        self.esc_armed = value;
    }

    /// The width of the composer.
    pub(crate) fn composer_width(&self) -> (value: usize)
        ensures
            value == self@.composer_width,
    {
        self.composer_width
    }

    pub(crate) fn put_composer_width(&mut self, value: usize)
        ensures
            final(self)@ == (AppView { composer_width: value as nat, ..old(self)@ }),
            old(self)@.wf() ==> final(self)@.wf(),
    {
        reveal(AppView::wf);
        self.composer_width = value;
    }

    /// The width of the first row's prefix.
    pub(crate) fn composer_prefix_width(&self) -> (value: usize)
        ensures
            value == self@.composer_prefix_width,
    {
        self.composer_prefix_width
    }

    pub(crate) fn put_composer_prefix_width(&mut self, value: usize)
        ensures
            final(self)@ == (AppView { composer_prefix_width: value as nat, ..old(self)@ }),
            old(self)@.wf() ==> final(self)@.wf(),
    {
        reveal(AppView::wf);
        self.composer_prefix_width = value;
    }

    /// The selection in the preview.
    pub fn preview(&self) -> (value: &PreviewSelection)
        ensures
            value@ == self@.preview,
    {
        &self.preview
    }

    pub(crate) fn preview_mut(&mut self) -> (place: &mut PreviewSelection)
        ensures
            place@ == old(self)@.preview,
            final(self)@ == (AppView { preview: final(place)@, ..old(self)@ }),
            old(self)@.wf() ==> final(self)@.wf(),
    {
        reveal(AppView::wf);
        &mut self.preview
    }

    /// Whether the clipboard should be read.
    pub fn clipboard_requested(&self) -> (value: bool)
        ensures
            value == self@.clipboard_requested,
    {
        self.clipboard_requested
    }

    pub(crate) fn put_clipboard_requested(&mut self, value: bool)
        ensures
            final(self)@ == (AppView { clipboard_requested: value, ..old(self)@ }),
            old(self)@.wf() ==> final(self)@.wf(),
    {
        reveal(AppView::wf);
        self.clipboard_requested = value;
    }

    /// The transcript that should be read.
    pub fn history_requested(&self) -> (value: &Option<HistoryRequest>)
        ensures
            option_view((*value)) == self@.history_requested,
    {
        &self.history_requested
    }

    pub(crate) fn put_history_requested(&mut self, value: Option<HistoryRequest>)
        ensures
            final(self)@ == (AppView { history_requested: option_view(value), ..old(self)@ }),
            old(self)@.wf() ==> final(self)@.wf(),
    {
        reveal(AppView::wf);
        self.history_requested = value;
    }

    /// The skills that are known.
    pub(crate) fn skills(&self) -> (value: &Option<Vec<Skill>>)
        ensures
            option_views(*value) == self@.skills,
    {
        &self.skills
    }

    pub(crate) fn put_skills(&mut self, value: Option<Vec<Skill>>)
        ensures
            final(self)@ == (AppView { skills: option_views(value), ..old(self)@ }),
            old(self)@.wf() ==> final(self)@.wf(),
    {
        reveal(AppView::wf);
        self.skills = value;
    }

    /// The directory that the skills are for.
    pub(crate) fn skills_cwd(&self) -> (value: &str)
        ensures
            value@ == self@.skills_cwd,
    {
        self.skills_cwd.as_str()
    }

    pub(crate) fn put_skills_cwd(&mut self, value: String)
        ensures
            final(self)@ == (AppView { skills_cwd: value@, ..old(self)@ }),
            old(self)@.wf() ==> final(self)@.wf(),
    {
        reveal(AppView::wf);
        self.skills_cwd = value;
    }

    /// Whether the skills have been asked for.
    pub(crate) fn skills_loading(&self) -> (value: bool)
        ensures
            value == self@.skills_loading,
    {
        self.skills_loading
    }

    pub(crate) fn put_skills_loading(&mut self, value: bool)
        ensures
            final(self)@ == (AppView { skills_loading: value, ..old(self)@ }),
            old(self)@.wf() ==> final(self)@.wf(),
    {
        reveal(AppView::wf);
        self.skills_loading = value;
    }

    /// The skill that is chosen in the picker.
    pub(crate) fn skill_selected(&self) -> (value: usize)
        ensures
            value == self@.skill_selected,
    {
        self.skill_selected
    }

    pub(crate) fn put_skill_selected(&mut self, value: usize)
        ensures
            final(self)@ == (AppView { skill_selected: value as int, ..old(self)@ }),
            old(self)@.wf() ==> final(self)@.wf(),
    {
        reveal(AppView::wf);
        self.skill_selected = value;
    }

    pub(crate) fn swap_history_requested(&mut self) -> (request: Option<HistoryRequest>)
        ensures
            option_view(request) == old(self)@.history_requested,
            final(self)@ == (AppView { history_requested: None, ..old(self)@ }),
            old(self)@.wf() ==> final(self)@.wf(),
    {
        reveal(AppView::wf);
        self.history_requested.take()
    }

    pub(crate) fn swap_attach_requested(&mut self) -> (request: Option<AttachRequest>)
        ensures
            option_view(request) == old(self)@.attach_requested,
            final(self)@ == (AppView { attach_requested: None, ..old(self)@ }),
            old(self)@.wf() ==> final(self)@.wf(),
    {
        reveal(AppView::wf);
        self.attach_requested.take()
    }

    pub(crate) fn take_sessions(&mut self) -> (sessions: Vec<Session>)
        ensures
            views(sessions@) == old(self)@.sessions,
            final(self)@ == (AppView { sessions: seq![], ..old(self)@ }),
            old(self)@.wf() ==> final(self)@.wf(),
    {
        reveal(AppView::wf);
        let mut sessions: Vec<Session> = Vec::new();
        std::mem::swap(&mut sessions, &mut self.sessions);
        sessions
    }
}

/// Why a message of the app-server cannot be handled.
#[derive(Debug, Clone, Copy, PartialEq, Eq, Structural)]
pub enum AppError {
    /// The answer to a new task holds no thread.
    MissingThread,
    /// The answer to a new task holds a thread without an identifier.
    InvalidThread,
}

impl AppError {
    /// What the user is told.
    pub fn message(self) -> (message: String)
        ensures
            message@ == (match self {
                AppError::MissingThread => "thread/start response missing thread"@,
                AppError::InvalidThread => "thread/start response has invalid thread"@,
            }),
    {
        match self {
            AppError::MissingThread => "thread/start response missing thread".to_owned(),
            AppError::InvalidThread => "thread/start response has invalid thread".to_owned(),
        }
    }
}

} // verus!
