//! Keys, pasted text and the mouse.

use vstd::prelude::*;

use crate::clipboard::image_paths_from_paste;
use crate::composer::{ComposerView, ComposeTarget};
use crate::deck::{LONG_PASTE_CHARS, matches_query, matching_sessions};
use crate::desk::{Desk, desk};
use crate::keys::{KeyCode, KeyEvent, KeyKind};
use crate::model::{PreviewVerbosity, Session};
use crate::params::interrupt_params_json;
use crate::rpc::RpcOutbox;
use crate::selection::clamped;
use crate::slots::put_session;
use crate::state::{App, AppView, Menu, MenuTab, PendingCall};
use crate::text::{
    byte_len, chars_of, concat_text, lower_text, option_text, same_text, string_of, text_contains,
    text_is_empty, texts,
};
use crate::views::{group_views, views};

verus! {

broadcast use group_views;

/// Whether a session's title or directory holds what is searched for.
fn session_matches(session: &Session, query: &str) -> (found: bool)
    ensures
        found == matches_query(session@, query@),
{
    let wanted = lower_text(query);
    text_contains(lower_text(session.title.as_str()).as_str(), wanted.as_str()) || text_contains(
        lower_text(session.cwd.as_str()).as_str(),
        wanted.as_str(),
    )
}

/// The sessions that the menu offers for a search.
pub fn offered_sessions(history: &Vec<Session>, query: &str) -> (offered: Vec<Session>)
    ensures
        views(offered@) == matching_sessions(views(history@), query@),
{
    let ghost all = views(history@);
    let mut offered: Vec<Session> = Vec::new();
    let mut i: usize = 0;
    assert(all.take(0) =~= seq![]);
    while i < history.len()
        invariant
            i <= history.len(),
            all == views(history@),
            views(offered@) == matching_sessions(all.take(i as int), query@),
        decreases history.len() - i,
    {
        proof {
            assert(all.take(i + 1).drop_last() =~= all.take(i as int));
            assert(all.take(i + 1).last() == history@[i as int]@);
        }
        if session_matches(&history[i], query) {
            offered.push(history[i].clone());
        }
        i += 1;
    }
    assert(all.take(all.len() as int) =~= all);
    offered
}

/// The row that a number of rows leads to from another, with a last row.
fn row_after(selected: usize, last: usize, delta: isize) -> (row: usize)
    ensures
        row == (if delta < 0 {
            clamped(selected + delta, 0, usize::MAX as int)
        } else {
            clamped(selected + delta, 0, last as int)
        }),
{
    if delta == isize::MIN {
        let limit: usize = isize::MAX as usize;
        selected.saturating_sub(limit).saturating_sub(1)
    } else if delta < 0 {
        selected.saturating_sub((-delta) as usize)
    } else {
        let next: usize = selected.saturating_add(delta as usize);
        if next < last {
            next
        } else {
            last
        }
    }
}

impl Clone for Menu {
    fn clone(&self) -> (copy: Menu)
        ensures
            copy@ == self@,
    {
        Menu {
            tab: self.tab,
            verbosity: self.verbosity,
            query: self.query.clone(),
            selected: self.selected,
        }
    }
}

impl Menu {
    fn turn(&mut self)
        ensures
            final(self)@ == old(self)@.other_tab(),
    {
        self.tab = match self.tab {
            MenuTab::Resume => MenuTab::Settings,
            MenuTab::Settings => MenuTab::Resume,
        };
    }

    fn move_up(&mut self)
        ensures
            final(self)@ == old(self)@.above(),
    {
        match self.tab {
            MenuTab::Settings => {
                self.verbosity = match self.verbosity {
                    PreviewVerbosity::Final => PreviewVerbosity::Progress,
                    PreviewVerbosity::Progress => PreviewVerbosity::Full,
                    PreviewVerbosity::Full => PreviewVerbosity::Full,
                };
            },
            MenuTab::Resume => {
                if self.selected > 0 {
                    self.selected = self.selected - 1;
                }
            },
        }
    }

    fn move_down(&mut self, offered: usize)
        ensures
            final(self)@ == old(self)@.below(offered as nat),
    {
        match self.tab {
            MenuTab::Settings => {
                self.verbosity = match self.verbosity {
                    PreviewVerbosity::Full => PreviewVerbosity::Progress,
                    PreviewVerbosity::Progress => PreviewVerbosity::Final,
                    PreviewVerbosity::Final => PreviewVerbosity::Final,
                };
            },
            MenuTab::Resume => {
                if offered > 0 && self.selected < offered - 1 {
                    self.selected = self.selected + 1;
                }
            },
        }
    }

    fn erase(&mut self)
        ensures
            final(self)@ == old(self)@.erased(),
    {
        if self.tab == MenuTab::Resume && !text_is_empty(self.query.as_str()) {
            let chars = chars_of(self.query.as_str());
            let last: usize = chars.len() - 1;
            assert(self.query@.take(last as int) =~= self.query@.drop_last());
            self.query = string_of(&chars, 0, last);
            self.selected = 0;
        }
    }

    fn search_for(&mut self, c: char)
        ensures
            final(self)@ == old(self)@.typed(c),
    {
        if self.tab == MenuTab::Resume {
            self.query.push(c);
            self.selected = 0;
        }
    }
}

impl App {
    fn disarm(&mut self, key: KeyEvent)
        requires
            old(self)@.wf(),
        ensures
            final(self)@ == old(self)@.disarmed(key),
            final(self)@.wf(),
    {
        reveal(AppView::disarmed);
        let empty = text_is_empty(self.composer().text.as_str()) && self.composer().target
            != ComposeTarget::Rename;
        let attach = self.attach_right_armed() && key.code == KeyCode::Right && key.bare() && empty;
        let menu = self.menu_left_armed() && key.code == KeyCode::Left && key.bare() && (empty
            || self.menu().is_some());
        let esc = self.esc_armed() && key.code == KeyCode::Esc;
        self.put_attach_right_armed(attach);
        self.put_menu_left_armed(menu);
        self.put_esc_armed(esc);
        if !(key.code == KeyCode::Char('x') && key.modifiers.control) {
            self.put_ctrl_x_armed(None);
        }
    }

    /// Opens the menu.
    pub fn open_menu(&mut self)
        requires
            old(self)@.wf(),
        ensures
            final(self)@ == old(self)@.with_menu(),
            final(self)@.wf(),
    {
        reveal(AppView::with_menu);
        let menu = Menu {
            tab: MenuTab::Resume,
            verbosity: self.lifecycle().preview_verbosity(),
            query: String::new(),
            selected: 0,
        };
        self.put_menu(Some(menu));
        self.put_menu_left_armed(false);
    }

    fn confirm_menu(&mut self)
        requires
            old(self)@.wf(),
        ensures
            final(self)@ == old(self)@.confirming_menu(),
            final(self)@.wf(),
    {
        reveal(AppView::confirming_menu);
        if self.menu_left_armed() {
            if self.menu().is_some() {
                self.put_menu(None);
                self.put_menu_left_armed(false);
            } else {
                self.open_menu();
            }
            return;
        }
        let open = self.menu().is_some();
        self.put_menu_left_armed(true);
        if !open {
            self.note("Press ← again to open the menu");
        }
    }

    fn escape(&mut self, key: KeyEvent)
        requires
            old(self)@.wf(),
        ensures
            final(self)@ == old(self)@.escaping(key),
            final(self)@.wf(),
    {
        reveal(AppView::escaping);
        if self.composer_open() {
            if self.composer().target == ComposeTarget::Rename {
                self.cancel_rename();
                self.note("Rename cancelled");
                self.put_composer_open(false);
            } else {
                self.put_composer_open(false);
                self.put_esc_armed(false);
            }
            return;
        }
        if key.kind != KeyKind::Press {
            return;
        }
        if self.esc_armed() {
            self.put_should_quit(true);
        } else {
            self.put_esc_armed(true);
            self.note("Press Esc again to close Codeck");
        }
    }

    fn insert_char(&mut self, c: char)
        requires
            old(self)@.wf(),
        ensures
            final(self)@ == old(self)@.with_composer(old(self)@.composer.insert(seq![c])),
            final(self)@.wf(),
    {
        reveal(AppView::with_composer);
        let mut text = String::new();
        text.push(c);
        assert(text@ =~= seq![c]);
        self.composer_mut().insert(text.as_str());
    }

    fn type_char(&mut self, c: char)
        requires
            old(self)@.wf(),
        ensures
            final(self)@ == old(self)@.typing(c),
            final(self)@.wf(),
    {
        reveal(AppView::typing);
        if !self.composer_open() {
            if c == ' ' {
                self.open_composer();
            } else if c == '?' {
                self.put_help_open(true);
            }
            return;
        }
        if c == ' ' && text_is_empty(self.composer().text.as_str())
            && self.composer().images.len() == 0 && self.composer().target
            != ComposeTarget::Rename {
            self.put_composer_open(false);
        } else {
            self.insert_char(c);
        }
    }

    fn erase_char(&mut self)
        requires
            old(self)@.wf(),
        ensures
            final(self)@ == old(self)@.with_composer(old(self)@.composer.backspace()),
            final(self)@.wf(),
    {
        reveal(AppView::with_composer);
        self.composer_mut().backspace();
    }

    fn drop_last_image(&mut self)
        requires
            old(self)@.wf(),
            old(self)@.composer.images.len() > 0,
        ensures
            final(self)@ == old(self)@.with_composer(
                (ComposerView {
                    images: old(self)@.composer.images.drop_last(),
                    ..old(self)@.composer
                }),
            ),
            final(self)@.wf(),
    {
        reveal(AppView::with_composer);
        self.composer_mut().drop_last_image();
    }

    fn erase(&mut self)
        requires
            old(self)@.wf(),
        ensures
            final(self)@ == old(self)@.erasing(),
            final(self)@.wf(),
    {
        reveal(AppView::erasing);
        if text_is_empty(self.composer().text.as_str()) && self.composer().images.len() > 0 {
            self.drop_last_image();
            self.note("Removed last image");
        } else {
            self.erase_char();
        }
    }

    fn delete_char(&mut self)
        requires
            old(self)@.wf(),
        ensures
            final(self)@ == old(self)@.with_composer(old(self)@.composer.delete()),
            final(self)@.wf(),
    {
        reveal(AppView::with_composer);
        self.composer_mut().delete();
    }

    fn cursor_left(&mut self)
        requires
            old(self)@.wf(),
        ensures
            final(self)@ == old(self)@.with_composer(old(self)@.composer.move_left()),
            final(self)@.wf(),
    {
        reveal(AppView::with_composer);
        self.composer_mut().move_left();
    }

    fn cursor_right(&mut self)
        requires
            old(self)@.wf(),
        ensures
            final(self)@ == old(self)@.with_composer(old(self)@.composer.move_right()),
            final(self)@.wf(),
    {
        reveal(AppView::with_composer);
        self.composer_mut().move_right();
    }

    fn cursor_home(&mut self)
        requires
            old(self)@.wf(),
        ensures
            final(self)@ == old(self)@.with_composer(old(self)@.composer.at(0)),
            final(self)@.wf(),
    {
        reveal(AppView::with_composer);
        self.composer_mut().move_to_start();
    }

    fn cursor_end(&mut self)
        requires
            old(self)@.wf(),
        ensures
            final(self)@ == old(self)@.with_composer(
                old(self)@.composer.at(byte_len(old(self)@.composer.text) as int),
            ),
            final(self)@.wf(),
    {
        reveal(AppView::with_composer);
        self.composer_mut().move_to_end();
    }

    fn cursor_row(&mut self, direction: isize)
        requires
            old(self)@.wf(),
        ensures
            final(self)@ == old(self)@.with_composer(
                old(self)@.composer.move_vertical(
                    direction as int,
                    old(self)@.composer_width,
                    old(self)@.composer_prefix_width,
                ),
            ),
            final(self)@.wf(),
    {
        reveal(AppView::with_composer);
        let width: usize = self.composer_width();
        let prefix: usize = self.composer_prefix_width();
        self.composer_mut().move_vertical(direction, width, prefix);
    }

    fn insert_line(&mut self)
        requires
            old(self)@.wf(),
        ensures
            final(self)@ == old(self)@.with_composer(old(self)@.composer.insert("\n"@)),
            final(self)@.wf(),
    {
        reveal(AppView::with_composer);
        self.composer_mut().insert("\n");
    }

    /// Moves the preview by a number of lines.
    pub fn scroll_preview(&mut self, lines: isize)
        requires
            old(self)@.wf(),
        ensures
            final(self)@ == old(self)@.scrolled(lines as int),
            final(self)@.wf(),
    {
        reveal(AppView::scrolled);
        let back: usize = self.scroll_back();
        let moved: usize = if lines >= 0 {
            back.saturating_add(lines as usize)
        } else if lines == isize::MIN {
            let limit: usize = isize::MAX as usize;
            back.saturating_sub(limit).saturating_sub(1)
        } else {
            back.saturating_sub((-lines) as usize)
        };
        self.put_scroll_back(moved);
    }

    fn scroll_page(&mut self, up: bool)
        requires
            old(self)@.wf(),
        ensures
            final(self)@ == old(self)@.scrolled(
                if up {
                    old(self)@.page()
                } else {
                    -old(self)@.page()
                },
            ),
            final(self)@.wf(),
    {
        reveal(AppView::scrolled);
        let height: usize = self.message_view_height();
        let page: usize = if height > 2 {
            height - 1
        } else {
            1
        };
        let back: usize = self.scroll_back();
        let moved: usize = if up {
            back.saturating_add(page)
        } else {
            back.saturating_sub(page)
        };
        self.put_scroll_back(moved);
    }

    fn tab(&mut self)
        requires
            old(self)@.wf(),
        ensures
            final(self)@ == old(self)@.tab_key(),
            final(self)@.wf(),
    {
        reveal(AppView::tab_key);
        if self.composer_open() {
            self.toggle_compose_target();
        }
    }

    fn arrows_are_free(&self, key: KeyEvent) -> (free: bool)
        ensures
            free == self@.arrows_are_free(key),
    {
        text_is_empty(self.composer().text.as_str()) && self.composer().target
            != ComposeTarget::Rename && key.bare()
    }

    fn left(&mut self, key: KeyEvent)
        requires
            old(self)@.wf(),
        ensures
            final(self)@ == old(self)@.left_key(key),
            final(self)@.wf(),
    {
        reveal(AppView::left_key);
        if !self.arrows_are_free(key) {
            self.cursor_left();
        } else if key.kind == KeyKind::Press {
            self.confirm_menu();
        }
    }

    fn right(&mut self, key: KeyEvent)
        requires
            old(self)@.wf(),
        ensures
            final(self)@ == old(self)@.right_key(key),
            final(self)@.wf(),
    {
        reveal(AppView::right_key);
        if !self.arrows_are_free(key) {
            self.cursor_right();
        } else if key.kind == KeyKind::Press {
            self.confirm_attach();
        }
    }

    fn edit(&mut self, key: KeyEvent)
        requires
            old(self)@.wf(),
        ensures
            final(self)@ == old(self)@.edit_key(key),
            final(self)@.wf(),
    {
        reveal(AppView::edit_key);
        match key.code {
            KeyCode::PageUp => self.scroll_page(true),
            KeyCode::PageDown => self.scroll_page(false),
            KeyCode::Tab => self.tab(),
            KeyCode::BackTab => self.tab(),
            KeyCode::Backspace => if self.composer_open() {
                self.erase()
            },
            KeyCode::Delete => if self.composer_open() {
                self.delete_char()
            },
            KeyCode::Left => self.left(key),
            KeyCode::Right => self.right(key),
            KeyCode::Home => self.cursor_home(),
            KeyCode::End => self.cursor_end(),
            KeyCode::Esc => self.escape(key),
            KeyCode::Char(c) => if key.bare() {
                self.type_char(c)
            },
            _ => {},
        }
    }

    fn step_selection(&mut self, delta: isize)
        requires
            old(self)@.wf(),
            old(self)@.sessions.len() > 0,
        ensures
            final(self)@ == old(self)@.stepped(delta as int),
            final(self)@.wf(),
    {
        reveal(AppView::stepped);
        let last: usize = self.sessions().len() - 1;
        let moved: usize = row_after(self.selected(), last, delta);
        self.put_selected(moved);
    }

    fn draft_follows(&self) -> (follows: bool)
        ensures
            follows == self@.follows_selection(),
    {
        match self.composer().target {
            ComposeTarget::Reply => true,
            ComposeTarget::NewTask => text_is_empty(self.composer().text.as_str())
                && self.composer().images.len() == 0,
            ComposeTarget::Rename => false,
        }
    }

    fn select_by(&mut self, delta: isize)
        requires
            old(self)@.wf(),
            old(self)@.sessions.len() > 0,
        ensures
            final(self)@ == old(self)@.moved(delta as int),
            final(self)@.wf(),
    {
        reveal(AppView::moved);
        reveal(AppView::caching_draft);
        let follows = self.draft_follows();
        self.cache_current_draft();
        self.step_selection(delta);
        if follows {
            self.load_selected_reply_draft();
            self.show_end();
        } else {
            self.show_end();
        }
    }

    /// Selects another session, by a number of rows.
    pub fn move_selection(&mut self, delta: isize, sender: &mut RpcOutbox)
        requires
            old(self)@.wf(),
        ensures
            desk(final(self)@, final(sender)@) == desk(
                old(self)@,
                old(sender)@,
            ).moving_selection(delta as int),
            final(self)@.wf(),
    {
        reveal(Desk::moving_selection);
        self.end_rename();
        if self.sessions().len() == 0 {
            self.switch_to_new_draft();
        } else {
            self.select_by(delta);
            self.ensure_selected_history(sender);
        }
    }

    fn stop_turn(&mut self, session: &Session, sender: &mut RpcOutbox)
        requires
            old(self)@.wf(),
        ensures
            desk(final(self)@, final(sender)@) == desk(old(self)@, old(sender)@).stopping_turn(
                session@,
            ),
            final(self)@.wf(),
    {
        reveal(Desk::stopping_turn);
        match &session.active_turn_id {
            Some(turn) => self.call_out(
                "turn/interrupt",
                interrupt_params_json(session.id.as_str(), turn.as_str()),
                PendingCall::TurnInterrupt { thread_id: session.id.clone() },
                "Stopping session…",
                sender,
            ),
            None => {
                self.note("Loading the active turn before stopping it…");
                self.ensure_selected_history(sender);
            },
        }
    }

    fn relist_session(&mut self, session: Session)
        requires
            old(self)@.wf(),
        ensures
            final(self)@ == old(self)@.relisted(session@),
            final(self)@.wf(),
    {
        reveal(AppView::relisted);
        put_session(self.history_mut(), session);
    }

    fn remove_session(&mut self, session: Session)
        requires
            old(self)@.wf(),
        ensures
            final(self)@ == old(self)@.removing(session@),
            final(self)@.wf(),
    {
        reveal(AppView::removing);
        let id = session.id.clone();
        self.drop_session(id.as_str());
        self.forget_requests(id.as_str());
        self.relist_session(session);
        self.discard_reply_draft(id.as_str(), true);
        self.show_end();
        self.note("Reviewed session removed from the deck; Codex history was kept");
    }

    /// Stops the selected session, or takes it out of the dashboard.
    pub fn stop_or_remove_selected(&mut self, sender: &mut RpcOutbox)
        requires
            old(self)@.wf(),
        ensures
            desk(final(self)@, final(sender)@) == desk(old(self)@, old(sender)@).stopping(),
            final(self)@.wf(),
    {
        reveal(Desk::stopping);
        if self.show_all() {
            self.note("Remove is available in the lifecycle view, without --all");
            return;
        }
        match self.selected_session() {
            Some(session) => {
                let session = session.clone();
                if session.status.is_live() {
                    self.stop_turn(&session, sender);
                } else {
                    self.remove_session(session);
                    self.ensure_selected_history(sender);
                }
            },
            None => self.note("No session selected"),
        }
    }

    fn arm_stop(&mut self, id: Option<String>)
        requires
            old(self)@.wf(),
        ensures
            final(self)@ == old(self)@.arming_stop(option_text(id)),
            final(self)@.wf(),
    {
        reveal(AppView::arming_stop);
        self.put_ctrl_x_armed(id);
    }

    fn stop_is_armed(&self, id: &str) -> (armed: bool)
        ensures
            armed == (self@.ctrl_x_armed == Some(id@)),
    {
        match self.ctrl_x_armed() {
            Some(armed) => same_text(armed.as_str(), id),
            None => false,
        }
    }

    fn confirm_stop(&mut self, key: KeyEvent, sender: &mut RpcOutbox)
        requires
            old(self)@.wf(),
        ensures
            desk(final(self)@, final(sender)@) == desk(
                old(self)@,
                old(sender)@,
            ).confirming_stop(key),
            final(self)@.wf(),
    {
        reveal(Desk::confirming_stop);
        if key.kind != KeyKind::Press {
            return;
        }
        match self.selected_id() {
            Some(id) => {
                if self.stop_is_armed(id.as_str()) {
                    self.arm_stop(None);
                    self.stop_or_remove_selected(sender);
                } else {
                    self.arm_stop(Some(id));
                }
            },
            None => self.note("No session selected"),
        }
    }

    fn leave_menu(&mut self)
        requires
            old(self)@.wf(),
        ensures
            final(self)@ == old(self)@.menu_left(),
            final(self)@.wf(),
    {
        reveal(AppView::menu_left);
        self.put_menu(None);
        self.put_composer_open(true);
        self.put_scroll_back(0);
    }

    fn bring_back(&mut self, session: Session)
        requires
            old(self)@.wf(),
        ensures
            final(self)@ == old(self)@.brought_back(session@),
            final(self)@.wf(),
    {
        reveal(AppView::brought_back);
        let id = session.id.clone();
        let notice = concat_text("Added ", session.title.as_str());
        self.end_rename();
        self.cache_current_draft();
        self.track_session(id.as_str());
        self.merge_session(session);
        self.unlist_session(id.as_str());
        self.select_session(id.as_str());
        self.load_reply_draft(id.as_str());
        self.leave_menu();
        self.put_notice(notice);
    }

    fn keep_level(&mut self, verbosity: PreviewVerbosity)
        requires
            old(self)@.wf(),
        ensures
            final(self)@ == old(self)@.with_level(verbosity),
            final(self)@.wf(),
    {
        reveal(AppView::with_level);
        self.lifecycle_mut().set_preview_verbosity(verbosity);
        self.put_menu(None);
        self.note("Preview level saved");
    }

    fn choose_in_menu(&mut self, menu: &Menu, sender: &mut RpcOutbox)
        requires
            old(self)@.wf(),
        ensures
            desk(final(self)@, final(sender)@) == desk(old(self)@, old(sender)@).menu_chosen(
                menu@,
            ),
            final(self)@.wf(),
    {
        reveal(Desk::menu_chosen);
        reveal(Desk::resuming);
        if menu.tab == MenuTab::Settings {
            self.keep_level(menu.verbosity);
            return;
        }
        let offered = offered_sessions(self.history(), menu.query.as_str());
        if menu.selected < offered.len() {
            self.bring_back(offered[menu.selected].clone());
            self.ensure_selected_history(sender);
        }
    }

    fn show_menu(&mut self, menu: Menu)
        requires
            old(self)@.wf(),
        ensures
            final(self)@ == old(self)@.showing(menu@),
            final(self)@.wf(),
    {
        reveal(AppView::showing);
        self.put_menu(Some(menu));
    }

    fn escape_menu(&mut self)
        requires
            old(self)@.wf(),
        ensures
            final(self)@ == old(self)@.menu_escaped(),
            final(self)@.wf(),
    {
        reveal(AppView::menu_escaped);
        self.put_menu(None);
        self.put_esc_armed(true);
    }

    fn menu_key(&mut self, menu: Menu, key: KeyEvent, sender: &mut RpcOutbox)
        requires
            old(self)@.wf(),
        ensures
            desk(final(self)@, final(sender)@) == desk(old(self)@, old(sender)@).menu_key(
                menu@,
                key,
            ),
            final(self)@.wf(),
    {
        reveal(Desk::menu_key);
        let mut menu = menu;
        match key.code {
            KeyCode::Esc => self.escape_menu(),
            KeyCode::Left => if key.bare() && key.kind == KeyKind::Press {
                self.confirm_menu()
            },
            KeyCode::Tab => {
                menu.turn();
                self.show_menu(menu);
            },
            KeyCode::BackTab => {
                menu.turn();
                self.show_menu(menu);
            },
            KeyCode::Up => {
                menu.move_up();
                self.show_menu(menu);
            },
            KeyCode::Down => {
                let offered = offered_sessions(self.history(), menu.query.as_str());
                menu.move_down(offered.len());
                self.show_menu(menu);
            },
            KeyCode::Enter => self.choose_in_menu(&menu, sender),
            KeyCode::Backspace => {
                menu.erase();
                self.show_menu(menu);
            },
            KeyCode::Char(c) => if key.bare() {
                menu.search_for(c);
                self.show_menu(menu);
            },
            _ => {},
        }
    }

    /// Starts a new task.
    pub fn begin_new_task(&mut self)
        requires
            old(self)@.wf(),
        ensures
            final(self)@ == old(self)@.new_task(),
            final(self)@.wf(),
    {
        reveal(AppView::new_task);
        self.cancel_rename();
        self.switch_to_new_draft();
        self.show_composer();
        self.note("New task");
    }

    fn want_clipboard(&mut self)
        requires
            old(self)@.wf(),
        ensures
            final(self)@ == old(self)@.wanting_clipboard(),
            final(self)@.wf(),
    {
        reveal(AppView::wanting_clipboard);
        self.put_clipboard_requested(true);
    }

    fn control_key(&mut self, c: char, key: KeyEvent, sender: &mut RpcOutbox) -> (done: bool)
        requires
            old(self)@.wf(),
        ensures
            match desk(old(self)@, old(sender)@).control_key(c, key) {
                Some(next) => done && desk(final(self)@, final(sender)@) == next,
                None => !done && desk(final(self)@, final(sender)@) == desk(
                    old(self)@,
                    old(sender)@,
                ),
            },
            final(self)@.wf(),
    {
        reveal(Desk::control_key);
        if c == 'n' {
            self.begin_new_task();
            return true;
        }
        if c == 'r' {
            self.start_rename();
            return true;
        }
        if c == 'u' {
            self.empty_composer();
            return true;
        }
        if c == 'v' {
            self.want_clipboard();
            return true;
        }
        if c == 't' {
            self.toggle_pin_selected();
            return true;
        }
        if c == 'x' {
            self.confirm_stop(key, sender);
            return true;
        }
        false
    }

    fn row_key(&mut self, delta: isize, sender: &mut RpcOutbox)
        requires
            old(self)@.wf(),
        ensures
            desk(final(self)@, final(sender)@) == desk(old(self)@, old(sender)@).row_key(
                delta as int,
            ),
            final(self)@.wf(),
    {
        reveal(Desk::row_key);
        if self.composer_open() {
            self.cursor_row(delta);
        } else {
            self.move_selection(delta, sender);
        }
    }

    fn enter_key(&mut self, key: KeyEvent, sender: &mut RpcOutbox)
        requires
            old(self)@.wf(),
        ensures
            desk(final(self)@, final(sender)@) == desk(old(self)@, old(sender)@).enter_key(key),
            final(self)@.wf(),
    {
        reveal(Desk::enter_key);
        if !self.composer_open() {
            return;
        }
        if key.modifiers.shift {
            self.insert_line();
        } else {
            self.submit(sender);
        }
    }

    fn deck_key(&mut self, key: KeyEvent, sender: &mut RpcOutbox)
        requires
            old(self)@.wf(),
        ensures
            desk(final(self)@, final(sender)@) == desk(old(self)@, old(sender)@).deck_key(key),
            final(self)@.wf(),
    {
        reveal(Desk::deck_key);
        match key.code {
            KeyCode::Up => self.row_key(-1, sender),
            KeyCode::Down => self.row_key(1, sender),
            KeyCode::Enter => self.enter_key(key, sender),
            _ => self.edit(key),
        }
    }

    fn command_key(&mut self, key: KeyEvent, sender: &mut RpcOutbox)
        requires
            old(self)@.wf(),
        ensures
            desk(final(self)@, final(sender)@) == desk(old(self)@, old(sender)@).command_key(key),
            final(self)@.wf(),
    {
        reveal(Desk::command_key);
        if let KeyCode::Char(c) = key.code {
            if key.modifiers.control {
                if self.control_key(c, key, sender) {
                    return;
                }
            }
        }
        if key.modifiers.command && key.code == KeyCode::Char('v') {
            self.want_clipboard();
        } else {
            self.deck_key(key, sender);
        }
    }

    fn open_key(&mut self, key: KeyEvent, sender: &mut RpcOutbox)
        requires
            old(self)@.wf(),
        ensures
            desk(final(self)@, final(sender)@) == desk(old(self)@, old(sender)@).open_key(key),
            final(self)@.wf(),
    {
        reveal(Desk::open_key);
        if let Some((start, query)) = self.skill_search() {
            if self.picker_takes(query.as_str(), key) {
                self.pick_key(start, query.as_str(), key);
                return;
            }
        }
        self.leave_picker();
        self.command_key(key, sender);
        self.ensure_skills(sender);
    }

    fn quit(&mut self)
        requires
            old(self)@.wf(),
        ensures
            final(self)@ == old(self)@.quitting(),
            final(self)@.wf(),
    {
        reveal(AppView::quitting);
        self.put_should_quit(true);
    }

    fn leave_help(&mut self)
        requires
            old(self)@.wf(),
        ensures
            final(self)@ == old(self)@.help_left(),
            final(self)@.wf(),
    {
        reveal(AppView::help_left);
        self.put_help_open(false);
        self.put_esc_armed(false);
    }

    fn pressed(&mut self, key: KeyEvent, sender: &mut RpcOutbox)
        requires
            old(self)@.wf(),
        ensures
            desk(final(self)@, final(sender)@) == desk(old(self)@, old(sender)@).pressed(key),
            final(self)@.wf(),
    {
        reveal(Desk::pressed);
        if key.modifiers.control && key.code == KeyCode::Char('c') {
            self.quit();
            return;
        }
        if self.help_open() {
            if key.code == KeyCode::Esc || key.code == KeyCode::Char('?') {
                self.leave_help();
            }
            return;
        }
        match self.menu() {
            Some(menu) => {
                let menu = menu.clone();
                self.menu_key(menu, key, sender);
            },
            None => self.open_key(key, sender),
        }
    }

    /// Takes a key.
    pub fn handle_key(&mut self, key: KeyEvent, sender: &mut RpcOutbox)
        requires
            old(self)@.wf(),
        ensures
            desk(final(self)@, final(sender)@) == desk(old(self)@, old(sender)@).key(key),
            final(self)@.wf(),
    {
        reveal(Desk::key);
        if key.kind == KeyKind::Release {
            return;
        }
        self.disarm(key);
        self.pressed(key, sender);
    }

    fn disarm_attach(&mut self)
        requires
            old(self)@.wf(),
        ensures
            final(self)@ == old(self)@.unarmed(),
            final(self)@.wf(),
    {
        reveal(AppView::unarmed);
        self.put_attach_right_armed(false);
    }

    fn collapse_paste(&mut self, text: &str)
        requires
            old(self)@.wf(),
        ensures
            final(self)@ == old(self)@.with_composer(
                old(self)@.composer.attach_pasted_text(text@),
            ),
            final(self)@.wf(),
    {
        reveal(AppView::with_composer);
        self.composer_mut().attach_pasted_text(text.to_owned());
    }

    fn insert_plain(&mut self, text: &str)
        requires
            old(self)@.wf(),
        ensures
            final(self)@ == old(self)@.with_composer(old(self)@.composer.insert(text@)),
            final(self)@.wf(),
    {
        reveal(AppView::with_composer);
        self.composer_mut().insert(text);
    }

    /// Inserts a text into the draft.
    pub fn insert_text(&mut self, text: &str)
        requires
            old(self)@.wf(),
        ensures
            final(self)@ == old(self)@.unarmed().with_composer(
                old(self)@.composer.insert(text@),
            ),
            final(self)@.wf(),
    {
        reveal(AppView::unarmed);
        self.disarm_attach();
        self.insert_plain(text);
    }

    fn insert_long(&mut self, text: &str)
        requires
            old(self)@.wf(),
        ensures
            final(self)@ == old(self)@.unarmed().with_composer(
                old(self)@.composer.attach_pasted_text(text@),
            ),
            final(self)@.wf(),
    {
        reveal(AppView::unarmed);
        self.disarm_attach();
        self.collapse_paste(text);
    }

    /// Takes a pasted text, given which of the paths in it are files.
    pub fn insert_paste(&mut self, text: &str, files: &Vec<String>)
        requires
            old(self)@.wf(),
        ensures
            final(self)@ == old(self)@.pasted(text@, texts(files@)),
            final(self)@.wf(),
    {
        reveal(AppView::pasted);
        if text_is_empty(text) {
            self.want_clipboard();
            return;
        }
        let images = image_paths_from_paste(text, files);
        if images.len() > 0 {
            self.add_images(&images);
            self.show_composer();
            return;
        }
        if chars_of(text).len() > LONG_PASTE_CHARS {
            self.insert_long(text);
            self.show_composer();
        } else {
            self.insert_text(text);
            self.show_composer();
        }
    }
}

} // verus!
