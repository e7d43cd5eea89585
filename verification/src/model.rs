//! Sessions and their messages.

use vstd::prelude::*;

use crate::json::{Json, json_views, JsonView, lemma_object_view};
use crate::paths::{file_name, path_file_name};
use crate::text::{
    concat_text, copy_option, is_blank, lines_of, option_text, own_option, same_text, text_is_blank,
    text_lines, texts, trim, trim_text,
};
use crate::views::{group_views, views};

verus! {

broadcast use group_views;

/// How a session stands.
#[derive(Debug, Clone, Copy, PartialEq, Eq, PartialOrd, Ord, Structural)]
pub enum SessionStatus {
    NeedsInput,
    Working,
    Completed,
    Failed,
}

/// Whether a flag of an active thread says that it waits for the user.
pub open spec fn is_waiting_flag(flag: JsonView) -> bool {
    match flag.as_str() {
        Some(text) => text == "waitingOnApproval"@ || text == "waitingOnUserInput"@,
        None => false,
    }
}

/// The status that a thread's status object stands for.
#[verifier::opaque]
pub open spec fn protocol_status(value: JsonView) -> SessionStatus {
    match value.get_str("type"@) {
        Some(kind) => if kind == "active"@ {
            let flags = value.get_items("activeFlags"@);
            if exists|i: int| 0 <= i < flags.len() && is_waiting_flag(#[trigger] flags[i]) {
                SessionStatus::NeedsInput
            } else {
                SessionStatus::Working
            }
        } else if kind == "systemError"@ {
            SessionStatus::Failed
        } else {
            SessionStatus::Completed
        },
        None => SessionStatus::Completed,
    }
}

/// The rank of a status among sessions of one group.
pub open spec fn status_rank(status: SessionStatus) -> int {
    match status {
        SessionStatus::NeedsInput => 0,
        SessionStatus::Working => 1,
        SessionStatus::Failed => 2,
        SessionStatus::Completed => 3,
    }
}

/// Whether a session with this status has a turn going on.
pub open spec fn status_is_live(status: SessionStatus) -> bool {
    status == SessionStatus::NeedsInput || status == SessionStatus::Working
}

impl SessionStatus {
    /// Reads a thread's status object.
    pub fn from_protocol(value: &Json) -> (status: SessionStatus)
        ensures
            status == protocol_status(value@),
    {
        reveal(protocol_status);
        match value.get_str("type") {
            Some(kind) => {
                if same_text(kind, "active") {
                    let ghost flags = value@.get_items("activeFlags"@);
                    if let Some(items) = value.get_array("activeFlags") {
                        let mut i: usize = 0;
                        while i < items.len()
                            invariant
                                i <= items.len(),
                                flags == json_views(items@),
                                forall|j: int|
                                    0 <= j < i ==> !is_waiting_flag(#[trigger] flags[j]),
                                flags == value@.get_items("activeFlags"@),
                                value@.get_str("type"@) == Some("active"@),
                            decreases items.len() - i,
                        {
                            assert(flags[i as int] == items@[i as int]@);
                            if let Some(flag) = items[i].as_str() {
                                if same_text(flag, "waitingOnApproval") || same_text(
                                    flag,
                                    "waitingOnUserInput",
                                ) {
                                    assert(is_waiting_flag(flags[i as int]));
                                    reveal(protocol_status);
                                    return SessionStatus::NeedsInput;
                                }
                            }
                            i += 1;
                        }
                    }
                    SessionStatus::Working
                } else if same_text(kind, "systemError") {
                    SessionStatus::Failed
                } else {
                    SessionStatus::Completed
                }
            },
            None => SessionStatus::Completed,
        }
    }

    /// The rank of the status among sessions of one group.
    pub fn sort_rank(self) -> (rank: u8)
        ensures
            rank == status_rank(self),
    {
        match self {
            SessionStatus::NeedsInput => 0,
            SessionStatus::Working => 1,
            SessionStatus::Failed => 2,
            SessionStatus::Completed => 3,
        }
    }

    /// Whether a session with this status has a turn going on.
    pub fn is_live(self) -> (live: bool)
        ensures
            live == status_is_live(self),
    {
        match self {
            SessionStatus::NeedsInput | SessionStatus::Working => true,
            SessionStatus::Completed | SessionStatus::Failed => false,
        }
    }
}

/// What a message of a conversation is.
#[derive(Debug, Clone, Copy, PartialEq, Eq, Structural)]
pub enum MessageKind {
    User,
    Thinking,
    Progress,
    Final,
    Question,
    System,
}

/// How much of a conversation the preview shows.
#[derive(Debug, Clone, Copy, PartialEq, Eq, Structural)]
pub enum PreviewVerbosity {
    Full,
    Progress,
    Final,
}

impl Default for PreviewVerbosity {
    fn default() -> (verbosity: PreviewVerbosity)
        ensures
            verbosity == PreviewVerbosity::Full,
    {
        PreviewVerbosity::Full
    }
}

/// Whether a preview shows messages of a kind.
pub open spec fn shows(verbosity: PreviewVerbosity, kind: MessageKind) -> bool {
    match kind {
        MessageKind::Thinking => verbosity == PreviewVerbosity::Full,
        MessageKind::Progress => verbosity != PreviewVerbosity::Final,
        _ => true,
    }
}

impl PreviewVerbosity {
    /// Whether the preview shows messages of a kind.
    pub fn includes(self, kind: MessageKind) -> (included: bool)
        ensures
            included == shows(self, kind),
    {
        match kind {
            MessageKind::Thinking => self == PreviewVerbosity::Full,
            MessageKind::Progress => self != PreviewVerbosity::Final,
            MessageKind::User | MessageKind::Final | MessageKind::Question
            | MessageKind::System => true,
        }
    }
}

/// Each level shows all that the next one shows, and at every level prompts,
/// final replies, questions and system messages stay visible.
pub proof fn law_verbosity_levels(kind: MessageKind)
    ensures
        shows(PreviewVerbosity::Final, kind) ==> shows(PreviewVerbosity::Progress, kind),
        shows(PreviewVerbosity::Progress, kind) ==> shows(PreviewVerbosity::Full, kind),
        shows(PreviewVerbosity::Full, kind),
        kind != MessageKind::Thinking && kind != MessageKind::Progress ==> shows(
            PreviewVerbosity::Final,
            kind,
        ),
{
}

/// A message of a conversation.
#[derive(Debug, PartialEq, Eq)]
pub struct MessageEntry {
    pub id: String,
    pub kind: MessageKind,
    pub text: String,
}

/// The mathematical form of a message.
#[verifier::ext_equal]
pub struct MessageView {
    pub id: Seq<char>,
    pub kind: MessageKind,
    pub text: Seq<char>,
}

impl View for MessageEntry {
    type V = MessageView;

    open spec fn view(&self) -> MessageView {
        MessageView { id: self.id@, kind: self.kind, text: self.text@ }
    }
}

impl Clone for MessageEntry {
    fn clone(&self) -> (copy: MessageEntry)
        ensures
            copy@ == self@,
    {
        MessageEntry { id: self.id.clone(), kind: self.kind, text: self.text.clone() }
    }
}

/// A thread of the app-server as the dashboard shows it.
#[derive(Debug)]
pub struct Session {
    pub id: String,
    pub title: String,
    pub preview: String,
    pub cwd: String,
    pub path: Option<String>,
    pub updated_at: i64,
    pub source: String,
    pub thread_source: Option<String>,
    pub status: SessionStatus,
    pub active_turn_id: Option<String>,
    pub messages: Vec<MessageEntry>,
    pub history_loaded: bool,
}

/// The mathematical form of a session.
#[verifier::ext_equal]
pub struct SessionView {
    pub id: Seq<char>,
    pub title: Seq<char>,
    pub preview: Seq<char>,
    pub cwd: Seq<char>,
    pub path: Option<Seq<char>>,
    pub updated_at: int,
    pub source: Seq<char>,
    pub thread_source: Option<Seq<char>>,
    pub status: SessionStatus,
    pub active_turn_id: Option<Seq<char>>,
    pub messages: Seq<MessageView>,
    pub history_loaded: bool,
}

impl Clone for Session {
    fn clone(&self) -> (copy: Session)
        ensures
            copy@ == self@,
    {
        let mut messages: Vec<MessageEntry> = Vec::new();
        let mut i: usize = 0;
        while i < self.messages.len()
            invariant
                i <= self.messages.len(),
                messages.len() == i,
                forall|j: int| 0 <= j < i ==> (#[trigger] messages@[j])@ == self.messages@[j]@,
            decreases self.messages.len() - i,
        {
            messages.push(self.messages[i].clone());
            i += 1;
        }
        assert(views(messages@) =~= views(self.messages@));
        Session {
            id: self.id.clone(),
            title: self.title.clone(),
            preview: self.preview.clone(),
            cwd: self.cwd.clone(),
            path: copy_option(&self.path),
            updated_at: self.updated_at,
            source: self.source.clone(),
            thread_source: copy_option(&self.thread_source),
            status: self.status,
            active_turn_id: copy_option(&self.active_turn_id),
            messages,
            history_loaded: self.history_loaded,
        }
    }
}

impl View for Session {
    type V = SessionView;

    open spec fn view(&self) -> SessionView {
        SessionView {
            id: self.id@,
            title: self.title@,
            preview: self.preview@,
            cwd: self.cwd@,
            path: option_text(self.path),
            updated_at: self.updated_at as int,
            source: self.source@,
            thread_source: option_text(self.thread_source),
            status: self.status,
            active_turn_id: option_text(self.active_turn_id),
            messages: views(self.messages@),
            history_loaded: self.history_loaded,
        }
    }
}

/// The text, or an empty one where it is absent.
pub open spec fn or_empty(text: Option<Seq<char>>) -> Seq<char> {
    match text {
        Some(text) => text,
        None => seq![],
    }
}

/// The first line that is not blank.
pub open spec fn first_visible_line(lines: Seq<Seq<char>>) -> Option<Seq<char>>
    decreases lines.len(),
{
    if lines.len() == 0 {
        None
    } else if !is_blank(lines[0]) {
        Some(lines[0])
    } else {
        first_visible_line(lines.drop_first())
    }
}

/// The title of a thread: its name, or else the first line of its preview that is
/// not blank.
pub open spec fn thread_title(name: Option<Seq<char>>, preview: Seq<char>) -> Seq<char> {
    let named = match name {
        Some(name) => !is_blank(name),
        None => false,
    };
    if named {
        trim(name->0)
    } else {
        match first_visible_line(lines_of(preview)) {
            Some(line) => trim(line),
            None => trim("Untitled session"@),
        }
    }
}

/// The time of a thread's last change, in seconds.
pub open spec fn thread_time(thread: JsonView) -> int {
    let value = match thread.get("recencyAt"@) {
        Some(value) => Some(value),
        None => thread.get("updatedAt"@),
    };
    match value {
        Some(value) => match value.as_i64() {
            Some(time) => time,
            None => 0,
        },
        None => 0,
    }
}

/// What started a thread: a plain name, or the first key of an object.
pub open spec fn thread_origin(source: Option<JsonView>) -> Seq<char> {
    match source {
        Some(JsonView::Text(source)) => source,
        Some(JsonView::Object(members)) => if members.len() > 0 {
            members[0].0
        } else {
            "unknown"@
        },
        _ => "unknown"@,
    }
}

/// The session that a thread of the protocol stands for; nothing where it has no
/// identifier.
#[verifier::opaque]
pub open spec fn thread_session(thread: JsonView) -> Option<SessionView> {
    match thread.get_str("id"@) {
        Some(id) => {
            let preview = or_empty(thread.get_str("preview"@));
            Some(
                SessionView {
                    id,
                    title: thread_title(thread.get_str("name"@), preview),
                    preview,
                    cwd: or_empty(thread.get_str("cwd"@)),
                    path: thread.get_str("path"@),
                    updated_at: thread_time(thread),
                    source: thread_origin(thread.get("source"@)),
                    thread_source: thread.get_str("threadSource"@),
                    status: match thread.get("status"@) {
                        Some(status) => protocol_status(status),
                        None => protocol_status(JsonView::Null),
                    },
                    active_turn_id: None,
                    messages: seq![],
                    history_loaded: false,
                },
            )
        },
        None => None,
    }
}

/// The position of the first message with an identifier.
pub open spec fn message_index(messages: Seq<MessageView>, id: Seq<char>) -> Option<int>
    decreases messages.len(),
{
    if messages.len() == 0 {
        None
    } else if messages[0].id == id {
        Some(0)
    } else {
        match message_index(messages.drop_first(), id) {
            Some(i) => Some(i + 1),
            None => None,
        }
    }
}

/// The messages with one replaced by its newer form, or added at the end.
pub open spec fn upsert(messages: Seq<MessageView>, entry: MessageView) -> Seq<MessageView> {
    match message_index(messages, entry.id) {
        Some(i) => messages.update(i, entry),
        None => messages.push(entry),
    }
}

/// The messages with a piece of text added to one of them, or a new message.
pub open spec fn extend_message(
    messages: Seq<MessageView>,
    id: Seq<char>,
    kind: MessageKind,
    delta: Seq<char>,
) -> Seq<MessageView> {
    match message_index(messages, id) {
        Some(i) => messages.update(
            i,
            MessageView { text: messages[i].text + delta, ..messages[i] },
        ),
        None => messages.push(MessageView { id, kind, text: delta }),
    }
}

pub proof fn lemma_message_index(messages: Seq<MessageView>, id: Seq<char>)
    ensures
        match message_index(messages, id) {
            Some(i) => 0 <= i < messages.len() && messages[i].id == id && forall|j: int|
                0 <= j < i ==> (#[trigger] messages[j]).id != id,
            None => forall|j: int| 0 <= j < messages.len() ==> (#[trigger] messages[j]).id != id,
        },
    decreases messages.len(),
{
    if messages.len() > 0 && messages[0].id != id {
        let rest = messages.drop_first();
        lemma_message_index(rest, id);
        assert forall|j: int| 0 < j < messages.len() implies #[trigger] messages[j] == rest[j
            - 1] by {}
    }
}

/// Finds the first message with an identifier.
pub fn find_message(messages: &Vec<MessageEntry>, id: &str) -> (found: Option<usize>)
    ensures
        match found {
            Some(i) => i < messages.len() && message_index(views(messages@), id@) == Some(i as int),
            None => message_index(views(messages@), id@) is None,
        },
{
    let ghost all = views(messages@);
    let mut i: usize = 0;
    assert(all.skip(0) =~= all);
    while i < messages.len()
        invariant
            i <= messages.len(),
            all == views(messages@),
            message_index(all, id@) == (match message_index(all.skip(i as int), id@) {
                Some(k) => Some(k + i),
                None => None,
            }),
        decreases messages.len() - i,
    {
        assert(all.skip(i as int)[0] == messages@[i as int]@);
        assert(all.skip(i as int).drop_first() =~= all.skip(i + 1));
        if same_text(messages[i].id.as_str(), id) {
            return Some(i);
        }
        i += 1;
    }
    None
}

fn text_or_empty(text: Option<&str>) -> (owned: String)
    ensures
        owned@ == (match text {
            Some(text) => text@,
            None => seq![],
        }),
{
    match text {
        Some(text) => text.to_owned(),
        None => {
            let empty = String::new();
            assert(empty@ =~= seq![]);
            empty
        },
    }
}

fn title_of(name: Option<&str>, preview: &str) -> (title: String)
    ensures
        title@ == thread_title(
            match name {
                Some(name) => Some(name@),
                None => None,
            },
            preview@,
        ),
{
    if let Some(name) = name {
        if !text_is_blank(name) {
            return trim_text(name);
        }
    }
    let lines = text_lines(preview);
    let ghost all = texts(lines@);
    let mut i: usize = 0;
    assert(all.skip(0) =~= all);
    while i < lines.len()
        invariant
            i <= lines.len(),
            all == texts(lines@),
            all == lines_of(preview@),
            first_visible_line(all.skip(i as int)) == first_visible_line(all),
            name matches Some(name) ==> is_blank(name@),
        decreases lines.len() - i,
    {
        proof {
            assert(all.skip(i as int)[0] == lines@[i as int]@);
            assert(all.skip(i as int).drop_first() =~= all.skip(i + 1));
        }
        if !text_is_blank(lines[i].as_str()) {
            return trim_text(lines[i].as_str());
        }
        i += 1;
    }
    trim_text("Untitled session")
}

/// What started a thread: a plain name, or the first key of an object.
pub fn source_label(value: Option<&Json>) -> (label: String)
    ensures
        label@ == thread_origin(
            match value {
                Some(value) => Some(value@),
                None => None,
            },
        ),
{
    match value {
        Some(Json::Text(source)) => source.clone(),
        Some(Json::Object(members)) => {
            proof {
                lemma_object_view(*members);
            }
            if members.len() > 0 {
                members[0].0.clone()
            } else {
                "unknown".to_owned()
            }
        },
        _ => "unknown".to_owned(),
    }
}

impl Session {
    /// Reads a thread of the protocol.
    pub fn from_thread(value: &Json) -> (session: Option<Session>)
        ensures
            match session {
                Some(session) => thread_session(value@) == Some(session@),
                None => thread_session(value@) is None,
            },
    {
        reveal(thread_session);
        let id = match value.get_str("id") {
            Some(id) => id.to_owned(),
            None => {
                return None;
            },
        };
        let preview = text_or_empty(value.get_str("preview"));
        let title = title_of(value.get_str("name"), preview.as_str());
        let cwd = text_or_empty(value.get_str("cwd"));
        let path = own_option(value.get_str("path"));
        let time = match value.get("recencyAt") {
            Some(time) => Some(time),
            None => value.get("updatedAt"),
        };
        let updated_at: i64 = match time {
            Some(time) => match time.as_i64() {
                Some(time) => time,
                None => 0,
            },
            None => 0,
        };
        let source = source_label(value.get("source"));
        let thread_source = own_option(value.get_str("threadSource"));
        let status = match value.get("status") {
            Some(status) => SessionStatus::from_protocol(status),
            None => SessionStatus::from_protocol(&Json::Null),
        };
        Some(
            Session {
                id,
                title,
                preview,
                cwd,
                path,
                updated_at,
                source,
                thread_source,
                status,
                active_turn_id: None,
                messages: Vec::new(),
                history_loaded: false,
            },
        )
    }

    /// The name of the directory that the session works in.
    pub fn leaf_directory(&self) -> (name: String)
        ensures
            name@ == (match file_name(self.cwd@) {
                Some(name) => name,
                None => self.cwd@,
            }),
    {
        match path_file_name(self.cwd.as_str()) {
            Some(name) => name,
            None => self.cwd.clone(),
        }
    }

    /// Replaces the message with the same identifier, or adds the message.
    pub fn upsert_message(&mut self, entry: MessageEntry)
        ensures
            final(self)@ == (SessionView {
                messages: upsert(old(self)@.messages, entry@),
                ..old(self)@
            }),
    {
        match find_message(&self.messages, entry.id.as_str()) {
            Some(i) => {
                self.messages.set(i, entry);
            },
            None => {
                self.messages.push(entry);
            },
        }
    }

    /// Adds a piece of text to a message, or starts that message.
    pub fn append_delta(&mut self, id: &str, kind: MessageKind, delta: &str)
        ensures
            final(self)@ == (SessionView {
                messages: extend_message(old(self)@.messages, id@, kind, delta@),
                ..old(self)@
            }),
    {
        match find_message(&self.messages, id) {
            Some(i) => {
                let entry = &self.messages[i];
                let longer = MessageEntry {
                    id: entry.id.clone(),
                    kind: entry.kind,
                    text: concat_text(entry.text.as_str(), delta),
                };
                self.messages.set(i, longer);
            },
            None => {
                self.messages.push(
                    MessageEntry { id: id.to_owned(), kind, text: delta.to_owned() },
                );
            },
        }
    }
}

/// After an update a message is found under its identifier, and no message with
/// another identifier has changed its place or its contents.
pub proof fn law_upsert_keeps_other_messages(messages: Seq<MessageView>, entry: MessageView)
    ensures
        ({
            let after = upsert(messages, entry);
            &&& message_index(after, entry.id) matches Some(i) && after[i] == entry
            &&& messages.len() <= after.len() <= messages.len() + 1
            &&& forall|j: int|
                0 <= j < messages.len() && (#[trigger] messages[j]).id != entry.id ==> after[j]
                    == messages[j]
            &&& upsert(after, entry) == after
        }),
{
    lemma_message_index(messages, entry.id);
    let after = upsert(messages, entry);
    lemma_message_index(after, entry.id);
    match message_index(messages, entry.id) {
        Some(i) => {
            assert(after[i] == entry);
            if let Some(k) = message_index(after, entry.id) {
                if k < i {
                    assert(messages[k].id != entry.id);
                } else if i < k {
                    assert(after[i].id != entry.id);
                }
            }
            assert(after.update(i, entry) =~= after);
        },
        None => {
            assert(after[messages.len() as int] == entry);
            if let Some(k) = message_index(after, entry.id) {
                if k < messages.len() {
                    assert(messages[k].id != entry.id);
                }
                assert(after.update(k, entry) =~= after);
            }
        },
    }
}

} // verus!
