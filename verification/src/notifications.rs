//! What the app-server tells without being asked.

use vstd::prelude::*;

use crate::assoc::law_keys_stay_distinct;
use crate::deck::turn_notice;
use crate::json::Json;
use crate::model::{find_message, MessageEntry, MessageKind, Session, SessionStatus};
use crate::protocol::{
    item_kind, message_from_item, notification_message, remove_matching_local_user,
    turn_error_message,
};
use crate::slots::{drop_requests, find_session, kind_of, put_kind};
use crate::state::{App, AppView, kind_views};
use crate::text::{chars_of, option_text, own_option, same_text, text_is_empty};
use crate::views::group_views;

verus! {

broadcast use group_views;

/// The notice at the end of a turn.
fn turn_notice_text(turn: &Json) -> (notice: &'static str)
    ensures
        notice@ == turn_notice(turn@),
{
    match turn.get_str("status") {
        Some(status) => if same_text(status, "failed") {
            "Session failed"
        } else if same_text(status, "interrupted") {
            "Session interrupted"
        } else {
            "Session completed"
        },
        None => "Session completed",
    }
}

impl App {
    fn begin_turn(&mut self, id: &str, turn: Option<String>)
        requires
            old(self)@.wf(),
        ensures
            final(self)@ == old(self)@.with_turn(id@, option_text(turn)),
            final(self)@.wf(),
    {
        reveal(AppView::with_turn);
        if let Some(i) = find_session(self.sessions(), id) {
            let now: i64 = self.unix_time();
            let sessions = self.sessions_mut();
            let session = &mut sessions[i];
            session.status = SessionStatus::Working;
            session.active_turn_id = turn;
            session.updated_at = now;
        }
    }

    fn handle_turn_started(&mut self, params: &Json)
        requires
            old(self)@.wf(),
        ensures
            final(self)@ == old(self)@.turn_started(params@),
            final(self)@.wf(),
    {
        reveal(AppView::turn_started);
        if let Some(id) = params.get_str("threadId") {
            let turn = match params.get("turn") {
                Some(turn) => own_option(turn.get_str("id")),
                None => None,
            };
            self.track_session(id);
            self.begin_turn(id, turn);
            self.sort_sessions_preserving_selection();
        }
    }

    fn end_turn(&mut self, id: &str, turn: &Json)
        requires
            old(self)@.wf(),
        ensures
            final(self)@ == old(self)@.without_turn(id@, turn@),
            final(self)@.wf(),
    {
        reveal(AppView::without_turn);
        if let Some(i) = find_session(self.sessions(), id) {
            let failed = match turn.get_str("status") {
                Some(status) => same_text(status, "failed"),
                None => false,
            };
            let error = turn_error_message(turn);
            let now: i64 = self.unix_time();
            let sessions = self.sessions_mut();
            let session = &mut sessions[i];
            session.status = if failed {
                SessionStatus::Failed
            } else {
                SessionStatus::Completed
            };
            session.active_turn_id = None;
            session.updated_at = now;
            if let Some(error) = error {
                session.upsert_message(error);
            }
        }
    }

    pub(crate) fn forget_requests(&mut self, id: &str)
        requires
            old(self)@.wf(),
        ensures
            final(self)@ == old(self)@.unasked(id@),
            final(self)@.wf(),
    {
        reveal(AppView::unasked);
        drop_requests(self.pending_requests_mut(), id);
    }

    fn handle_turn_completed(&mut self, params: &Json)
        requires
            old(self)@.wf(),
        ensures
            final(self)@ == old(self)@.turn_completed(params@),
            final(self)@.wf(),
    {
        reveal(AppView::turn_completed);
        if let Some(id) = params.get_str("threadId") {
            let turn = match params.get("turn") {
                Some(turn) => turn.duplicate(),
                None => Json::Null,
            };
            self.track_session(id);
            self.end_turn(id, &turn);
            self.forget_requests(id);
            self.note(turn_notice_text(&turn));
            self.sort_sessions_preserving_selection();
        }
    }

    fn note_item_kind(&mut self, id: &str, item_id: &str, item: &Json)
        requires
            old(self)@.wf(),
        ensures
            final(self)@ == old(self)@.with_kind(id@, item_id@, item@),
            final(self)@.wf(),
    {
        reveal(AppView::with_kind);
        if let Some(kind) = item_kind(item) {
            let kinds = self.live_item_kinds_mut();
            proof {
                law_keys_stay_distinct(kind_views(kinds@), (id@, item_id@), kind);
            }
            put_kind(kinds, id, item_id, kind);
        }
    }

    fn show_item(&mut self, id: &str, entry: MessageEntry)
        requires
            old(self)@.wf(),
        ensures
            final(self)@ == old(self)@.with_item(id@, entry@),
            final(self)@.wf(),
    {
        reveal(AppView::with_item);
        if let Some(i) = find_session(self.sessions(), id) {
            let sessions = self.sessions_mut();
            let session = &mut sessions[i];
            if entry.kind == MessageKind::User {
                remove_matching_local_user(session, entry.text.as_str());
            }
            session.upsert_message(entry);
            session.history_loaded = true;
        }
    }

    fn handle_item(&mut self, params: &Json, completed: bool)
        requires
            old(self)@.wf(),
        ensures
            final(self)@ == old(self)@.item_seen(params@, completed),
            final(self)@.wf(),
    {
        reveal(AppView::item_seen);
        if let Some(id) = params.get_str("threadId") {
            if let Some(item) = params.get("item") {
                if let Some(item_id) = item.get_str("id") {
                    self.note_item_kind(id, item_id, item);
                    if let Some(entry) = message_from_item(item) {
                        if completed || !text_is_empty(entry.text.as_str()) {
                            self.show_item(id, entry);
                        }
                    }
                }
            }
        }
    }

    fn append_delta(&mut self, id: &str, item_id: &str, kind: MessageKind, delta: &str)
        requires
            old(self)@.wf(),
        ensures
            final(self)@ == old(self)@.delta_seen(id@, item_id@, kind, delta@),
            final(self)@.wf(),
    {
        reveal(AppView::delta_seen);
        if let Some(i) = find_session(self.sessions(), id) {
            let sessions = self.sessions_mut();
            let session = &mut sessions[i];
            session.append_delta(item_id, kind, delta);
            session.history_loaded = true;
        }
    }

    fn handle_agent_delta(&mut self, params: &Json)
        requires
            old(self)@.wf(),
        ensures
            final(self)@ == old(self)@.agent_delta(params@),
            final(self)@.wf(),
    {
        reveal(AppView::agent_delta);
        if let Some(id) = params.get_str("threadId") {
            if let Some(item_id) = params.get_str("itemId") {
                if let Some(delta) = params.get_str("delta") {
                    let kind = match kind_of(self.live_item_kinds(), id, item_id) {
                        Some(kind) => kind,
                        None => MessageKind::Progress,
                    };
                    self.append_delta(id, item_id, kind, delta);
                }
            }
        }
    }

    fn handle_reasoning_delta(&mut self, params: &Json)
        requires
            old(self)@.wf(),
        ensures
            final(self)@ == old(self)@.reasoning_delta(params@),
            final(self)@.wf(),
    {
        reveal(AppView::reasoning_delta);
        if let Some(id) = params.get_str("threadId") {
            if let Some(item_id) = params.get_str("itemId") {
                if let Some(delta) = params.get_str("delta") {
                    self.append_delta(id, item_id, MessageKind::Thinking, delta);
                }
            }
        }
    }

    fn handle_reasoning_part(&mut self, params: &Json)
        requires
            old(self)@.wf(),
        ensures
            final(self)@ == old(self)@.reasoning_part(params@),
            final(self)@.wf(),
    {
        reveal(AppView::reasoning_part);
        if let Some(id) = params.get_str("threadId") {
            if let Some(item_id) = params.get_str("itemId") {
                if let Some(i) = find_session(self.sessions(), id) {
                    if let Some(k) = find_message(&self.sessions()[i].messages, item_id) {
                        let broken = ends_open(self.sessions()[i].messages[k].text.as_str());
                        if broken {
                            let sessions = self.sessions_mut();
                            let session = &mut sessions[i];
                            let entry = &mut session.messages[k];
                            entry.text.push('\n');
                        }
                    }
                }
            }
        }
    }

    fn forget_thread(&mut self, params: &Json)
        requires
            old(self)@.wf(),
        ensures
            final(self)@ == old(self)@.thread_gone(params@),
            final(self)@.wf(),
    {
        reveal(AppView::thread_gone);
        if let Some(id) = params.get_str("threadId") {
            let was_selected = match self.selected_session() {
                Some(session) => same_text(session.id.as_str(), id),
                None => false,
            };
            self.drop_session(id);
            self.unlist_session(id);
            self.discard_reply_draft(id, was_selected);
        }
    }

    fn set_status(&mut self, id: &str, status: SessionStatus)
        requires
            old(self)@.wf(),
        ensures
            final(self)@ == old(self)@.with_status(id@, status),
            final(self)@.wf(),
    {
        reveal(AppView::with_status);
        if let Some(i) = find_session(self.sessions(), id) {
            let sessions = self.sessions_mut();
            let session = &mut sessions[i];
            session.status = status;
            self.sort_sessions_preserving_selection();
        }
    }

    fn set_title(&mut self, id: &str, title: &str)
        requires
            old(self)@.wf(),
        ensures
            final(self)@ == old(self)@.with_title(id@, title@),
            final(self)@.wf(),
    {
        reveal(AppView::with_title);
        if let Some(i) = find_session(self.sessions(), id) {
            let sessions = self.sessions_mut();
            let session = &mut sessions[i];
            session.title = title.to_owned();
            self.sort_sessions_preserving_selection();
        }
    }
}

impl App {
    fn handle_thread_started(&mut self, params: &Json)
        requires
            old(self)@.wf(),
        ensures
            final(self)@ == old(self)@.thread_started(params@),
            final(self)@.wf(),
    {
        reveal(AppView::thread_started);
        if let Some(thread) = params.get("thread") {
            if let Some(session) = Session::from_thread(thread) {
                let id = session.id.clone();
                self.track_session(id.as_str());
                self.merge_session(session);
                self.unlist_session(id.as_str());
            }
        }
    }

    fn handle_status_changed(&mut self, params: &Json)
        requires
            old(self)@.wf(),
        ensures
            final(self)@ == old(self)@.status_changed(params@),
            final(self)@.wf(),
    {
        reveal(AppView::status_changed);
        if let Some(id) = params.get_str("threadId") {
            if let Some(status) = params.get("status") {
                let status = SessionStatus::from_protocol(status);
                if status.is_live() {
                    self.track_session(id);
                    self.set_status(id, status);
                } else {
                    self.set_status(id, status);
                }
            }
        }
    }

    fn handle_name_updated(&mut self, params: &Json)
        requires
            old(self)@.wf(),
        ensures
            final(self)@ == old(self)@.name_updated(params@),
            final(self)@.wf(),
    {
        reveal(AppView::name_updated);
        let name = match params.get("threadName") {
            Some(name) => Some(name),
            None => params.get("name"),
        };
        if let Some(id) = params.get_str("threadId") {
            if let Some(name) = name {
                if let Some(title) = name.as_str() {
                    self.set_title(id, title);
                }
            }
        }
    }

    fn handle_warning(&mut self, method: &str, params: &Json)
        requires
            old(self)@.wf(),
        ensures
            final(self)@ == old(self)@.warned(method@, params@),
            final(self)@.wf(),
    {
        reveal(AppView::warned);
        match notification_message(params) {
            Some(text) => self.put_notice(text),
            None => self.note(method),
        }
    }

    /// Takes a notification.
    pub fn handle_notification(&mut self, method: &str, params: &Json)
        requires
            old(self)@.wf(),
        ensures
            final(self)@ == old(self)@.notified(method@, params@),
            final(self)@.wf(),
    {
        reveal(AppView::notified);
        if same_text(method, "thread/started") {
            self.handle_thread_started(params);
            return;
        }
        if same_text(method, "thread/status/changed") {
            self.handle_status_changed(params);
            return;
        }
        if same_text(method, "thread/name/updated") {
            self.handle_name_updated(params);
            return;
        }
        if same_text(method, "thread/deleted") || same_text(method, "thread/archived") {
            self.forget_thread(params);
            return;
        }
        if same_text(method, "turn/started") {
            self.handle_turn_started(params);
            return;
        }
        if same_text(method, "turn/completed") {
            self.handle_turn_completed(params);
            return;
        }
        if same_text(method, "item/started") {
            self.handle_item(params, false);
            return;
        }
        if same_text(method, "item/completed") {
            self.handle_item(params, true);
            return;
        }
        if same_text(method, "item/agentMessage/delta") {
            self.handle_agent_delta(params);
            return;
        }
        if same_text(method, "item/reasoning/summaryTextDelta") {
            self.handle_reasoning_delta(params);
            return;
        }
        if same_text(method, "item/reasoning/summaryPartAdded") {
            self.handle_reasoning_part(params);
            return;
        }
        if same_text(method, "skills/changed") {
            self.forget_skills();
            return;
        }
        if same_text(method, "error") || same_text(method, "warning") || same_text(
            method,
            "configWarning",
        ) || same_text(method, "deprecationNotice") {
            self.handle_warning(method, params);
        }
    }
}

/// Whether a text needs a line break before more can follow on a new line.
fn ends_open(text: &str) -> (open: bool)
    ensures
        open == (text@.len() > 0 && text@.last() != '\n'),
{
    let chars = chars_of(text);
    chars.len() > 0 && chars[chars.len() - 1] != '\n'
}

} // verus!
