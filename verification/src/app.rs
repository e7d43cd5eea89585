//! The dashboard: sessions, drafts and what the app-server says.

use vstd::prelude::*;

use crate::deck::refreshed;
use crate::json::{Json, json_views};
use crate::lifecycle::insert_id;
use crate::model::{Session, SessionStatus};
use crate::order::order_sessions;
use crate::protocol::{active_turn_id, messages_from_thread};
use crate::slots::{drop_sessions, find_session, put_session};
use crate::state::{App, AppView, AttachRequest};
use crate::text::{concat_text, option_text, same_text, text_is_empty};
use crate::views::group_views;

verus! {

broadcast use group_views;

impl App {
    /// The position of the selected session.
    pub fn selected_index(&self) -> (index: usize)
        ensures
            index == self@.selected_index(),
            self@.sessions.len() > 0 ==> index < self@.sessions.len(),
    {
        let count: usize = self.sessions().len();
        if count == 0 {
            0
        } else if self.selected() < count {
            self.selected()
        } else {
            count - 1
        }
    }

    /// The selected session.
    pub fn selected_session(&self) -> (session: Option<&Session>)
        ensures
            match session {
                Some(session) => self@.selected_session() == Some(session@),
                None => self@.selected_session() is None,
            },
    {
        if self.sessions().len() == 0 {
            None
        } else {
            Some(&self.sessions()[self.selected_index()])
        }
    }

    pub(crate) fn selected_id(&self) -> (id: Option<String>)
        ensures
            option_text(id) == self@.selected_id(),
    {
        match self.selected_session() {
            Some(session) => Some(session.id.clone()),
            None => None,
        }
    }

    pub(crate) fn session(&self, id: &str) -> (session: Option<&Session>)
        ensures
            match session {
                Some(session) => self@.session(id@) == Some(session@),
                None => self@.session(id@) is None,
            },
    {
        match find_session(self.sessions(), id) {
            Some(i) => Some(&self.sessions()[i]),
            None => None,
        }
    }

    pub(crate) fn session_title(&self, id: &str) -> (title: String)
        ensures
            title@ == self@.session_title(id@),
    {
        match self.session(id) {
            Some(session) => session.title.clone(),
            None => "session".to_owned(),
        }
    }

    pub(crate) fn note(&mut self, notice: &str)
        requires
            old(self)@.wf(),
        ensures
            final(self)@ == old(self)@.noting(notice@),
            final(self)@.wf(),
    {
        self.put_notice(notice.to_owned());
    }

    /// Shows a notice.
    pub fn set_notice(&mut self, notice: String)
        requires
            old(self)@.wf(),
        ensures
            final(self)@ == old(self)@.noting(notice@),
            final(self)@.wf(),
    {
        self.put_notice(notice);
    }

    pub(crate) fn select_session(&mut self, id: &str)
        requires
            old(self)@.wf(),
        ensures
            final(self)@ == old(self)@.selecting(id@),
            final(self)@.wf(),
    {
        reveal(AppView::selecting);
        if let Some(i) = find_session(self.sessions(), id) {
            self.put_selected(i);
        }
    }

    fn sort_sessions(&mut self)
        requires
            old(self)@.wf(),
        ensures
            final(self)@ == old(self)@.sorted(),
            final(self)@.wf(),
    {
        reveal(AppView::sorted);
        let sessions = self.take_sessions();
        let ordered = order_sessions(sessions, self.lifecycle());
        self.put_sessions(ordered);
        let index: usize = self.selected_index();
        self.put_selected(index);
    }

    pub(crate) fn sort_sessions_preserving_selection(&mut self)
        requires
            old(self)@.wf(),
        ensures
            final(self)@ == old(self)@.resorted(),
            final(self)@.wf(),
    {
        reveal(AppView::resorted);
        let selected = self.selected_id();
        self.sort_sessions();
        if let Some(id) = selected {
            self.select_session(id.as_str());
        }
    }

    pub(crate) fn track_session(&mut self, id: &str)
        requires
            old(self)@.wf(),
        ensures
            final(self)@ == old(self)@.adopting(id@),
            final(self)@.wf(),
    {
        reveal(AppView::adopting);
        if !self.lifecycle().is_initialized() {
            insert_id(self.initial_scan_seen_mut(), id);
        }
        self.lifecycle_mut().track(id);
    }

    fn should_track(&self, session: &Session) -> (wanted: bool)
        ensures
            wanted == self@.should_track(session@),
    {
        reveal(AppView::should_track);
        if self.lifecycle().contains(session.id.as_str()) || session.status.is_live() {
            return true;
        }
        if self.lifecycle().is_initialized() {
            return false;
        }
        match &session.thread_source {
            Some(source) => same_text(source.as_str(), "codex-deck"),
            None => false,
        }
    }

    fn should_include(&self, session: &Session) -> (shown: bool)
        ensures
            shown == self@.should_include(session@),
    {
        reveal(AppView::should_include);
        self.show_all() || self.should_track(session)
    }

    /// Takes a session that the app-server tells of.
    pub fn merge_session(&mut self, incoming: Session)
        requires
            old(self)@.wf(),
        ensures
            final(self)@ == old(self)@.merging(incoming@),
            final(self)@.wf(),
    {
        reveal(AppView::merging);
        match find_session(self.sessions(), incoming.id.as_str()) {
            Some(i) => {
                refresh_session(&mut self.sessions_mut()[i], incoming);
            },
            None => {
                self.sessions_mut().push(incoming);
            },
        }
        self.sort_sessions_preserving_selection();
    }

    pub(crate) fn unlist_session(&mut self, id: &str)
        requires
            old(self)@.wf(),
        ensures
            final(self)@ == old(self)@.unlisted(id@),
            final(self)@.wf(),
    {
        reveal(AppView::unlisted);
        drop_sessions(self.history_mut(), id);
    }

    fn place_session(&mut self, session: Session)
        requires
            old(self)@.wf(),
        ensures
            final(self)@ == old(self)@.placing(session@),
            final(self)@.wf(),
    {
        reveal(AppView::placing);
        if self.should_include(&session) {
            let id = session.id.clone();
            self.merge_session(session);
            self.unlist_session(id.as_str());
        } else {
            put_session(self.history_mut(), session);
        }
    }

    fn list_thread(&mut self, thread: &Json)
        requires
            old(self)@.wf(),
        ensures
            final(self)@ == old(self)@.listing(thread@),
            final(self)@.wf(),
    {
        reveal(AppView::listing);
        if let Some(session) = Session::from_thread(thread) {
            let id = session.id.clone();
            insert_id(self.initial_scan_seen_mut(), id.as_str());
            if self.should_track(&session) {
                self.lifecycle_mut().track(id.as_str());
            }
            self.place_session(session);
        }
    }

    /// Takes a page of the list of threads.
    pub fn merge_thread_list(&mut self, result: &Json)
        requires
            old(self)@.wf(),
        ensures
            final(self)@ == old(self)@.merging_list(result@),
            final(self)@.wf(),
    {
        reveal(AppView::merging_list);
        reveal_with_fuel(AppView::listing_all, 1);
        let selected = self.selected_id();
        let ghost before = self@;
        let ghost all = result@.get_items("data"@);
        if let Some(threads) = result.get_array("data") {
            let mut i: usize = 0;
            assert(all.take(0) =~= seq![]);
            while i < threads.len()
                invariant
                    i <= threads.len(),
                    all == json_views(threads@),
                    self@ == before.listing_all(all.take(i as int)),
                    self@.wf(),
                decreases threads.len() - i,
            {
                reveal_with_fuel(AppView::listing_all, 1);
                proof {
                    assert(all.take(i + 1).drop_last() =~= all.take(i as int));
                    assert(all.take(i + 1).last() == threads@[i as int]@);
                }
                self.list_thread(&threads[i]);
                i += 1;
            }
            assert(all.take(all.len() as int) =~= all);
        }
        self.sort_sessions();
        if let Some(id) = selected {
            self.select_session(id.as_str());
        }
    }

    pub(crate) fn apply_thread_history(&mut self, id: &str, thread: &Json)
        requires
            old(self)@.wf(),
        ensures
            final(self)@ == old(self)@.with_history(id@, thread@),
            final(self)@.wf(),
    {
        reveal(AppView::with_history);
        let messages = messages_from_thread(thread);
        let turn = active_turn_id(thread);
        if let Some(i) = find_session(self.sessions(), id) {
            let sessions = self.sessions_mut();
            let session = &mut sessions[i];
            if messages.len() > 0 {
                session.messages = messages;
            }
            session.history_loaded = true;
            if turn.is_some() {
                session.active_turn_id = turn;
            }
        }
        self.put_scroll_back(0);
    }

    pub(crate) fn apply_resumed_thread(&mut self, id: &str, thread: &Json)
        requires
            old(self)@.wf(),
        ensures
            final(self)@ == old(self)@.with_resumed(id@, thread@),
            final(self)@.wf(),
    {
        reveal(AppView::with_resumed);
        let messages = messages_from_thread(thread);
        let turn = active_turn_id(thread);
        if let Some(i) = find_session(self.sessions(), id) {
            let sessions = self.sessions_mut();
            let session = &mut sessions[i];
            if let Some(status) = thread.get("status") {
                session.status = SessionStatus::from_protocol(status);
                session.active_turn_id = turn;
            }
            if messages.len() > 0 {
                session.messages = messages;
                session.history_loaded = true;
            }
        }
    }

    /// Whether a session is pinned.
    pub fn is_pinned(&self, id: &str) -> (pinned: bool)
        ensures
            pinned == self@.lifecycle.pinned.contains(id@),
    {
        self.lifecycle().is_pinned(id)
    }

    /// Pins the selected session, or takes its pin away.
    pub fn toggle_pin_selected(&mut self)
        requires
            old(self)@.wf(),
        ensures
            final(self)@ == old(self)@.toggling_pin(),
            final(self)@.wf(),
    {
        reveal(AppView::toggling_pin);
        match self.selected_session() {
            Some(session) => {
                let id = session.id.clone();
                let title = session.title.clone();
                let pinned = self.lifecycle_mut().toggle_pin(id.as_str());
                self.sort_sessions_preserving_selection();
                self.select_session(id.as_str());
                let notice = if pinned {
                    concat_text("Pinned ", title.as_str())
                } else {
                    concat_text("Unpinned ", title.as_str())
                };
                self.put_notice(notice);
            },
            None => self.note("No session selected"),
        }
    }

    pub(crate) fn drop_session(&mut self, id: &str)
        requires
            old(self)@.wf(),
        ensures
            final(self)@ == old(self)@.dropping(id@),
            final(self)@.wf(),
    {
        reveal(AppView::dropping);
        drop_sessions(self.sessions_mut(), id);
        self.lifecycle_mut().dismiss(id);
        let index: usize = self.selected_index();
        self.put_selected(index);
    }

    /// Asks for the selected session to be opened in the native interface.
    pub fn request_attach(&mut self)
        requires
            old(self)@.wf(),
        ensures
            final(self)@ == old(self)@.attaching(),
            final(self)@.wf(),
    {
        reveal(AppView::attaching);
        reveal(AppView::adopting);
        self.put_attach_right_armed(false);
        let (id, cwd) = match self.selected_session() {
            Some(session) => (session.id.clone(), session.cwd.clone()),
            None => {
                self.note("No session selected");
                return;
            },
        };
        self.track_session(id.as_str());
        let cwd = if text_is_empty(cwd.as_str()) {
            self.cwd().to_owned()
        } else {
            cwd
        };
        self.put_attach_requested(Some(AttachRequest { thread_id: id, cwd }));
        self.note("Attaching to native Codex…");
    }

    /// Attaches the selected session at the second press of a key.
    pub fn confirm_attach(&mut self)
        requires
            old(self)@.wf(),
        ensures
            final(self)@ == old(self)@.confirming_attach(),
            final(self)@.wf(),
    {
        reveal(AppView::confirming_attach);
        if self.attach_right_armed() {
            self.request_attach();
        } else {
            self.put_attach_right_armed(true);
            self.note("Press → again to attach");
        }
    }
}

/// Brings a session up to date.
fn refresh_session(existing: &mut Session, incoming: Session)
    ensures
        final(existing)@ == refreshed(old(existing)@, incoming@),
{
    existing.title = incoming.title;
    existing.preview = incoming.preview;
    existing.cwd = incoming.cwd;
    existing.path = incoming.path;
    existing.updated_at = incoming.updated_at;
    existing.source = incoming.source;
    existing.thread_source = incoming.thread_source;
    existing.status = incoming.status;
}

} // verus!
