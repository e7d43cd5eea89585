//! What the keys do.

use vstd::prelude::*;

use crate::assoc::{law_put_then_lookup, lookup};
use crate::composer::{ComposerView, ComposeTarget};
use crate::deck::lemma_session_slot;
use crate::desk::Desk;
use crate::keys::{KeyCode, KeyEvent, KeyKind};
use crate::laws::{
    kept_reply, law_removed_sessions_can_be_resumed, law_sorting_keeps_the_selection,
    law_stopping_takes_two_presses,
};
use crate::model::{SessionView, status_is_live};
use crate::params::{interrupt_params, start_params};
use crate::prompt_laws::{has_content, law_new_tasks_start_threads, sent_one, written_prompt};
use crate::selection::clamped;
use crate::state::{AppView, CallView, MenuTab, MenuView};
use crate::text::{
    byte_len, head, lemma_byte_len_push, lemma_index_at, lemma_offset_ends, tail, utf8_len,
};
use crate::thread_laws::{lemma_resorted, lemma_session_found, listed_once};

verus! {

/// Neither the help nor the menu is open.
pub open spec fn at_dashboard(app: AppView) -> bool {
    !app.help_open && app.menu is None
}

/// A key without the control, alt and command keys.
pub open spec fn is_plain(key: KeyEvent) -> bool {
    !key.modifiers.control && !key.modifiers.alt && !key.modifiers.command
}

/// A key with the control key alone.
pub open spec fn is_control(key: KeyEvent, c: char) -> bool {
    key.modifiers.control && key.code == KeyCode::Char(c) && key.kind == KeyKind::Press
}

/// The dashboard with nothing armed that a key takes back.
spec fn before_key(app: AppView, key: KeyEvent) -> AppView {
    app.disarmed(key).unpicked()
}

proof fn lemma_before_key(app: AppView, key: KeyEvent)
    ensures
        ({
            let start = before_key(app, key);
            start == (AppView {
                attach_right_armed: start.attach_right_armed,
                menu_left_armed: start.menu_left_armed,
                ctrl_x_armed: start.ctrl_x_armed,
                esc_armed: start.esc_armed,
                skill_selected: 0,
                ..app
            })
        }),
{
    reveal(AppView::disarmed);
    reveal(AppView::unpicked);
    reveal(AppView::choosing);
}

proof fn lemma_skills(desk: Desk)
    ensures
        ({
            let after = desk.ensuring_skills();
            &&& after.app == (AppView {
                pending_calls: after.app.pending_calls,
                skills: after.app.skills,
                skills_cwd: after.app.skills_cwd,
                skills_loading: after.app.skills_loading,
                ..desk.app
            })
            &&& desk.app.picking() is None ==> after == desk
        }),
{
    reveal(Desk::ensuring_skills);
    reveal(Desk::calling);
    reveal(AppView::calling);
    reveal(AppView::skills_asked);
}

/// The picker leaves a key to the dashboard.
pub open spec fn picker_leaves(app: AppView, key: KeyEvent) -> bool {
    match app.picking() {
        Some(search) => app.offered_skills(search.query).len() == 0 || !key.is_bare() || (key.code
            != KeyCode::Up && key.code != KeyCode::Down && key.code != KeyCode::Tab && (key.code
            != KeyCode::Enter || key.modifiers.shift)),
        None => true,
    }
}

proof fn lemma_key(desk: Desk, key: KeyEvent)
    requires
        at_dashboard(desk.app),
        key.kind != KeyKind::Release,
        !(key.modifiers.control && key.code == KeyCode::Char('c')),
        picker_leaves(desk.app, key),
    ensures
        desk.key(key) == desk.on(before_key(desk.app, key)).command_key(key).ensuring_skills(),
{
    reveal(Desk::key);
    reveal(Desk::pressed);
    reveal(Desk::open_key);
    reveal(AppView::picker_takes);
    let app = desk.app.disarmed(key);
    assert(app == (AppView {
        attach_right_armed: app.attach_right_armed,
        menu_left_armed: app.menu_left_armed,
        ctrl_x_armed: app.ctrl_x_armed,
        esc_armed: app.esc_armed,
        ..desk.app
    })) by {
        reveal(AppView::disarmed);
    }
    assert(app.picking() == desk.app.picking());
    if let Some(search) = app.picking() {
        assert(app.offered_skills(search.query) == desk.app.offered_skills(search.query));
    }
}

/// The control key with `c` closes the dashboard, whatever is open, and does nothing
/// else.
pub proof fn law_control_c_closes_the_dashboard(desk: Desk, key: KeyEvent)
    requires
        key.modifiers.control,
        key.code == KeyCode::Char('c'),
        key.kind != KeyKind::Release,
    ensures
        desk.key(key).app.should_quit,
        desk.key(key).out == desk.out,
        desk.key(key).app.sessions == desk.app.sessions,
        desk.key(key).app.composer == desk.app.composer,
{
    reveal(Desk::key);
    reveal(Desk::pressed);
    reveal(AppView::quitting);
    reveal(AppView::disarmed);
}

/// While the composer is hidden, the keys up and down select the session above or
/// below, and stay at the ends of the list. The sessions stay as they are.
pub proof fn law_arrows_select_neighbours(desk: Desk, key: KeyEvent)
    requires
        at_dashboard(desk.app),
        !desk.app.composer_open,
        desk.app.composer.target != ComposeTarget::Rename,
        0 <= desk.app.selected < desk.app.sessions.len() <= usize::MAX,
        is_plain(key),
        key.kind != KeyKind::Release,
        key.code == KeyCode::Up || key.code == KeyCode::Down,
    ensures
        ({
            let after = desk.key(key).app;
            let last = desk.app.sessions.len() - 1;
            &&& after.sessions == desk.app.sessions
            &&& key.code == KeyCode::Up && desk.app.selected > 0 ==> after.selected
                == desk.app.selected - 1
            &&& key.code == KeyCode::Up && desk.app.selected == 0 ==> after.selected == 0
            &&& key.code == KeyCode::Down && desk.app.selected < last ==> after.selected
                == desk.app.selected + 1
            &&& key.code == KeyCode::Down && desk.app.selected == last ==> after.selected == last
            &&& !after.composer_open
            &&& after.scroll_back == 0
        }),
{
    lemma_key(desk, key);
    lemma_before_key(desk.app, key);
    let start = desk.on(before_key(desk.app, key));
    let delta = if key.code == KeyCode::Up {
        -1int
    } else {
        1
    };
    assert(start.command_key(key) == start.moving_selection(delta)) by {
        reveal(Desk::command_key);
        reveal(Desk::deck_key);
        reveal(Desk::row_key);
    }
    lemma_moved_selection(start, delta);
    lemma_skills(start.moving_selection(delta));
}

pub proof fn lemma_history(desk: Desk)
    ensures
        ({
            let seen = desk.ensuring_history();
            seen.app == (AppView {
                pending_calls: seen.app.pending_calls,
                history_requested: seen.app.history_requested,
                ..desk.app
            })
        }),
{
    reveal(Desk::ensuring_history);
    reveal(Desk::loading);
    reveal(Desk::reading);
    reveal(Desk::calling);
    reveal(AppView::calling);
    reveal(AppView::wanting_history);
}

proof fn lemma_moved(app: AppView, delta: int)
    ensures
        ({
            let moved = app.moved(delta);
            &&& moved.sessions == app.sessions
            &&& moved.composer_open == app.composer_open
            &&& moved.scroll_back == 0
            &&& moved.selected == (if delta < 0 {
                clamped(app.selected + delta, 0, usize::MAX as int)
            } else {
                clamped(app.selected + delta, 0, app.sessions.len() - 1)
            })
        }),
{
    let cached = app.caching_draft();
    assert(cached.sessions == app.sessions && cached.selected == app.selected
        && cached.composer_open == app.composer_open) by {
        reveal(AppView::caching_draft);
    }
    let stepped = cached.stepped(delta);
    assert(stepped == (AppView { selected: stepped.selected, ..cached }) && stepped.selected == (
    if delta < 0 {
        clamped(cached.selected + delta, 0, usize::MAX as int)
    } else {
        clamped(cached.selected + delta, 0, cached.sessions.len() - 1)
    })) by {
        reveal(AppView::stepped);
    }
    lemma_draft_loaded(stepped);
    reveal(AppView::moved);
    reveal(AppView::at_end);
}

proof fn lemma_draft_loaded(app: AppView)
    ensures
        app.with_selected_draft() == (AppView {
            composer: app.with_selected_draft().composer,
            ..app
        }),
{
    reveal(AppView::with_selected_draft);
    reveal(AppView::with_reply_draft);
    reveal(AppView::with_new_draft);
}

proof fn lemma_moved_selection(desk: Desk, delta: int)
    requires
        desk.app.composer.target != ComposeTarget::Rename,
        desk.app.sessions.len() > 0,
    ensures
        ({
            let after = desk.moving_selection(delta).app;
            &&& after.sessions == desk.app.sessions
            &&& after.composer_open == desk.app.composer_open
            &&& after.scroll_back == 0
            &&& after.selected == (if delta < 0 {
                clamped(desk.app.selected + delta, 0, usize::MAX as int)
            } else {
                clamped(desk.app.selected + delta, 0, desk.app.sessions.len() - 1)
            })
        }),
{
    assert(desk.moving_selection(delta) == desk.on(desk.app.moved(delta)).ensuring_history()) by {
        reveal(Desk::moving_selection);
        reveal(AppView::at_rest);
    }
    lemma_moved(desk.app, delta);
    lemma_history(desk.on(desk.app.moved(delta)));
}

/// The page keys scroll the preview by one line less than it is high, and at least by
/// one, and change nothing else that is shown.
pub proof fn law_page_keys_scroll_the_preview(desk: Desk, key: KeyEvent)
    requires
        at_dashboard(desk.app),
        is_plain(key),
        key.kind != KeyKind::Release,
        key.code == KeyCode::PageUp || key.code == KeyCode::PageDown,
        0 <= desk.app.scroll_back,
        desk.app.scroll_back + desk.app.message_view_height < usize::MAX,
        desk.app.message_view_height >= 1,
    ensures
        ({
            let after = desk.key(key).app;
            let page = if desk.app.message_view_height > 2 {
                desk.app.message_view_height - 1
            } else {
                1
            };
            &&& key.code == KeyCode::PageUp ==> after.scroll_back == desk.app.scroll_back + page
            &&& key.code == KeyCode::PageDown && desk.app.scroll_back >= page ==> after.scroll_back
                == desk.app.scroll_back - page
            &&& key.code == KeyCode::PageDown && desk.app.scroll_back < page ==> after.scroll_back
                == 0
            &&& after.sessions == desk.app.sessions
            &&& after.selected == desk.app.selected
            &&& after.composer == desk.app.composer
        }),
{
    lemma_key(desk, key);
    lemma_before_key(desk.app, key);
    let start = desk.on(before_key(desk.app, key));
    reveal(Desk::command_key);
    reveal(Desk::deck_key);
    reveal(AppView::edit_key);
    reveal(AppView::scrolled);
    lemma_skills(start.command_key(key));
}

/// A key that edits the draft: what is left is what the edit makes of it.
pub proof fn lemma_edited(desk: Desk, key: KeyEvent)
    requires
        at_dashboard(desk.app),
        is_plain(key),
        key.kind != KeyKind::Release,
        key.code == KeyCode::Home || key.code == KeyCode::End || key.code == KeyCode::Backspace
            || key.code == KeyCode::Delete,
    ensures
        exists|start: AppView|
            start.composer == desk.app.composer && start.composer_open == desk.app.composer_open
                && desk.key(key).app.composer == (#[trigger] start.edit_key(key)).composer
                && desk.key(key).app.composer_open == start.edit_key(key).composer_open,
{
    lemma_key(desk, key);
    lemma_before_key(desk.app, key);
    let start = desk.on(before_key(desk.app, key));
    assert(start.command_key(key) == start.on(start.app.edit_key(key))) by {
        reveal(Desk::command_key);
        reveal(Desk::deck_key);
    }
    lemma_skills(start.on(start.app.edit_key(key)));
    assert(desk.key(key).app.composer == start.app.edit_key(key).composer);
}

proof fn lemma_typed(desk: Desk, key: KeyEvent, c: char)
    requires
        at_dashboard(desk.app),
        is_plain(key),
        key.kind != KeyKind::Release,
        key.code == KeyCode::Char(c),
    ensures
        ({
            let start = before_key(desk.app, key);
            let after = desk.key(key).app;
            let typed = start.typing(c);
            after == (AppView {
                pending_calls: after.pending_calls,
                skills: after.skills,
                skills_cwd: after.skills_cwd,
                skills_loading: after.skills_loading,
                ..typed
            })
        }),
{
    lemma_key(desk, key);
    let start = desk.on(before_key(desk.app, key));
    assert(start.command_key(key) == start.on(start.app.typing(c))) by {
        reveal(Desk::command_key);
        reveal(Desk::deck_key);
        reveal(AppView::edit_key);
    }
    lemma_skills(start.on(start.app.typing(c)));
}

/// What is typed into the open composer stands at its cursor, and the cursor behind it.
/// What stands before and behind the cursor stays.
pub proof fn law_characters_are_typed_at_the_cursor(desk: Desk, key: KeyEvent, c: char)
    requires
        at_dashboard(desk.app),
        desk.app.composer_open,
        is_plain(key),
        key.kind != KeyKind::Release,
        key.code == KeyCode::Char(c),
        c != ' ' || desk.app.composer.text.len() > 0 || desk.app.composer.images.len() > 0
            || desk.app.composer.target == ComposeTarget::Rename,
    ensures
        ({
            let before = desk.app.composer;
            let after = desk.key(key).app.composer;
            &&& after.text == head(before.text, before.cursor) + seq![c] + tail(
                before.text,
                before.cursor,
            )
            &&& after.cursor == before.cursor + utf8_len(c)
            &&& after.target == before.target
            &&& after.images == before.images
            &&& after.skills == before.skills
            &&& desk.key(key).app.composer_open
            &&& desk.key(key).app.selected == desk.app.selected
        }),
{
    lemma_typed(desk, key, c);
    lemma_before_key(desk.app, key);
    reveal(AppView::typing);
    reveal(AppView::with_composer);
    lemma_byte_len_push(seq![], c);
    assert(Seq::<char>::empty().push(c) =~= seq![c]);
    assert(byte_len(Seq::<char>::empty()) == 0);
}

/// The space key opens the hidden composer on the reply to the selected session, with
/// the draft that was kept for it, and closes the composer again while it is empty.
pub proof fn law_space_opens_the_reply(desk: Desk, key: KeyEvent)
    requires
        at_dashboard(desk.app),
        is_plain(key),
        key.kind != KeyKind::Release,
        key.code == KeyCode::Char(' '),
        0 <= desk.app.selected < desk.app.sessions.len(),
        desk.app.composer.target == ComposeTarget::NewTask,
    ensures
        ({
            let id = desk.app.sessions[desk.app.selected].id;
            let after = desk.key(key).app;
            let empty = desk.app.composer.text.len() == 0 && desk.app.composer.images.len() == 0;
            &&& !desk.app.composer_open ==> after.composer_open && after.composer == kept_reply(
                desk.app,
                id,
            ) && after.new_draft == desk.app.composer
            &&& desk.app.composer_open && empty ==> !after.composer_open && after.composer
                == desk.app.composer
            &&& after.sessions == desk.app.sessions && after.selected == desk.app.selected
        }),
{
    lemma_typed(desk, key, ' ');
    lemma_before_key(desk.app, key);
    reveal(AppView::typing);
    let start = before_key(desk.app, key);
    if !desk.app.composer_open {
        reveal(AppView::opening_composer);
        reveal(AppView::at_rest);
        reveal(AppView::turned_to_reply);
        reveal(AppView::caching_draft);
        reveal(AppView::with_selected_draft);
        reveal(AppView::with_reply_draft);
    } else {
        reveal(AppView::with_composer);
    }
}

/// The question mark shows the help while the composer is hidden, and the help takes
/// the escape key and the question mark to be hidden again.
pub proof fn law_the_help_opens_and_closes(desk: Desk, key: KeyEvent, leave: KeyEvent)
    requires
        at_dashboard(desk.app),
        !desk.app.composer_open,
        is_plain(key),
        key.kind != KeyKind::Release,
        key.code == KeyCode::Char('?'),
        is_plain(leave),
        leave.kind != KeyKind::Release,
        leave.code == KeyCode::Esc || leave.code == KeyCode::Char('?'),
    ensures
        desk.key(key).app.help_open,
        !desk.key(key).key(leave).app.help_open,
        desk.key(key).key(leave).app.sessions == desk.app.sessions,
        desk.key(key).key(leave).app.composer == desk.app.composer,
        !desk.key(key).key(leave).app.should_quit || desk.app.should_quit,
{
    lemma_typed(desk, key, '?');
    lemma_before_key(desk.app, key);
    reveal(AppView::typing);
    let open = desk.key(key);
    reveal(Desk::key);
    reveal(Desk::pressed);
    reveal(AppView::help_left);
    reveal(AppView::disarmed);
}

/// The enter key sends a new task that is in the open composer.
pub proof fn law_enter_sends_a_new_task(desk: Desk, key: KeyEvent)
    requires
        at_dashboard(desk.app),
        desk.app.composer_open,
        desk.app.composer.target == ComposeTarget::NewTask,
        has_content(written_prompt(desk.app)),
        is_plain(key),
        !key.modifiers.shift,
        key.kind != KeyKind::Release,
        key.code == KeyCode::Enter,
        desk.app.picking() is None,
    ensures
        sent_one(desk.out, desk.key(key).out, "thread/start"@, start_params(desk.app.cwd)),
        lookup(desk.key(key).app.pending_calls, desk.out.next_id) == Some(
            CallView::ThreadStart { draft: written_prompt(desk.app) },
        ),
        !desk.key(key).app.composer_open,
        desk.key(key).app.composer == ComposerView::empty(ComposeTarget::NewTask),
{
    lemma_key(desk, key);
    lemma_before_key(desk.app, key);
    let start = desk.on(before_key(desk.app, key));
    assert(start.command_key(key) == start.submitting()) by {
        reveal(Desk::command_key);
        reveal(Desk::deck_key);
        reveal(Desk::enter_key);
    }
    law_new_tasks_start_threads(start);
    lemma_skills(start.submitting());
}

/// The enter key with the shift key breaks the line of the open composer. While the
/// composer is hidden it sends nothing and changes no draft.
pub proof fn law_shift_and_enter_break_the_line(desk: Desk, key: KeyEvent)
    requires
        at_dashboard(desk.app),
        is_plain(key),
        key.kind != KeyKind::Release,
        key.code == KeyCode::Enter,
        desk.app.picking() is None,
    ensures
        ({
            let after = desk.key(key);
            let before = desk.app.composer;
            &&& !desk.app.composer_open ==> after.out == desk.out && after.app.composer == before
                && after.app.sessions == desk.app.sessions
            &&& desk.app.composer_open && key.modifiers.shift ==> after.app.composer.text == head(
                before.text,
                before.cursor,
            ) + seq!['\n'] + tail(before.text, before.cursor) && after.app.composer_open
        }),
{
    lemma_key(desk, key);
    lemma_before_key(desk.app, key);
    let start = desk.on(before_key(desk.app, key));
    reveal(Desk::command_key);
    reveal(Desk::deck_key);
    reveal(Desk::enter_key);
    reveal(AppView::with_composer);
    reveal_strlit("\n");
    assert("\n"@ =~= seq!['\n']);
    lemma_skills(start.command_key(key));
    if !desk.app.composer_open {
        assert(start.app.picking() is None);
    }
}

/// The escape key hides the open composer and keeps what is in it. While nothing is
/// open, the first press only warns, and the second closes the dashboard.
pub proof fn law_escape_hides_then_closes(desk: Desk, key: KeyEvent)
    requires
        at_dashboard(desk.app),
        is_plain(key),
        key.kind == KeyKind::Press,
        key.code == KeyCode::Esc,
        !desk.app.should_quit,
        !desk.app.esc_armed,
        desk.app.composer.target != ComposeTarget::Rename,
    ensures
        desk.app.composer_open ==> !desk.key(key).app.composer_open && desk.key(key).app.composer
            == desk.app.composer && !desk.key(key).app.should_quit,
        !desk.app.composer_open ==> !desk.key(key).app.should_quit && desk.key(key).key(
            key,
        ).app.should_quit,
        desk.key(key).app.sessions == desk.app.sessions,
        desk.key(key).app.reply_drafts == desk.app.reply_drafts,
        desk.key(key).app.new_draft == desk.app.new_draft,
{
    lemma_escape(desk, key);
    if !desk.app.composer_open {
        lemma_escape(desk.key(key), key);
    }
}

proof fn lemma_escape(desk: Desk, key: KeyEvent)
    requires
        at_dashboard(desk.app),
        is_plain(key),
        key.kind == KeyKind::Press,
        key.code == KeyCode::Esc,
        desk.app.composer.target != ComposeTarget::Rename,
    ensures
        ({
            let after = desk.key(key).app;
            &&& after.composer == desk.app.composer
            &&& after.sessions == desk.app.sessions
            &&& after.reply_drafts == desk.app.reply_drafts
            &&& after.new_draft == desk.app.new_draft
            &&& after.help_open == desk.app.help_open
            &&& after.menu == desk.app.menu
            &&& !after.composer_open
            &&& desk.app.composer_open ==> after.should_quit == desk.app.should_quit
            &&& !desk.app.composer_open ==> after.esc_armed && after.should_quit
                == (desk.app.should_quit || desk.app.esc_armed)
        }),
{
    lemma_key(desk, key);
    lemma_before_key(desk.app, key);
    let start = desk.on(before_key(desk.app, key));
    assert(start.command_key(key) == start.on(start.app.escaping(key))) by {
        reveal(Desk::command_key);
        reveal(Desk::deck_key);
        reveal(AppView::edit_key);
    }
    assert(start.app.esc_armed == desk.app.esc_armed) by {
        reveal(AppView::disarmed);
        reveal(AppView::unpicked);
        reveal(AppView::choosing);
    }
    reveal(AppView::escaping);
    reveal(AppView::noting);
    lemma_skills(start.on(start.app.escaping(key)));
}

/// The tab key turns the open composer from a new task to the reply to the selected
/// session and back, with the drafts that were kept, and does nothing while the
/// composer is hidden.
pub proof fn law_tab_turns_the_composer(desk: Desk, key: KeyEvent)
    requires
        at_dashboard(desk.app),
        is_plain(key),
        key.kind != KeyKind::Release,
        key.code == KeyCode::Tab || key.code == KeyCode::BackTab,
        desk.app.picking() is None,
        0 <= desk.app.selected < desk.app.sessions.len(),
    ensures
        ({
            let app = desk.app;
            let id = app.sessions[app.selected].id;
            let after = desk.key(key).app;
            &&& !app.composer_open ==> after.composer == app.composer && !after.composer_open
            &&& app.composer_open && app.composer.target == ComposeTarget::NewTask
                ==> after.composer == kept_reply(app, id) && after.new_draft == app.composer
            &&& app.composer_open && app.composer.target == ComposeTarget::Reply ==> after.composer
                == (ComposerView { target: ComposeTarget::NewTask, ..app.new_draft }) && lookup(
                after.reply_drafts,
                id,
            ) == Some(app.composer)
            &&& app.composer_open && app.composer.target != ComposeTarget::Rename
                ==> after.composer_open
        }),
{
    lemma_key(desk, key);
    lemma_before_key(desk.app, key);
    let start = desk.on(before_key(desk.app, key));
    assert(start.command_key(key) == start.on(start.app.tab_key())) by {
        reveal(Desk::command_key);
        reveal(Desk::deck_key);
        reveal(AppView::edit_key);
    }
    reveal(AppView::tab_key);
    reveal(AppView::toggling_target);
    reveal(AppView::switching_to_new);
    reveal(AppView::caching_draft);
    reveal(AppView::with_new_draft);
    reveal(AppView::with_selected_draft);
    reveal(AppView::with_reply_draft);
    law_put_then_lookup(
        desk.app.reply_drafts,
        desk.app.sessions[desk.app.selected].id,
        desk.app.composer,
        desk.app.sessions[desk.app.selected].id,
    );
    lemma_skills(start.on(start.app.tab_key()));
}

proof fn lemma_arrow(desk: Desk, key: KeyEvent)
    requires
        at_dashboard(desk.app),
        is_plain(key),
        key.kind != KeyKind::Release,
        key.code == KeyCode::Left || key.code == KeyCode::Right,
    ensures
        ({
            let start = before_key(desk.app, key);
            let turned = if key.code == KeyCode::Left {
                start.left_key(key)
            } else {
                start.right_key(key)
            };
            let after = desk.key(key).app;
            after == (AppView {
                pending_calls: after.pending_calls,
                skills: after.skills,
                skills_cwd: after.skills_cwd,
                skills_loading: after.skills_loading,
                ..turned
            })
        }),
{
    lemma_key(desk, key);
    let start = desk.on(before_key(desk.app, key));
    reveal(Desk::command_key);
    reveal(Desk::deck_key);
    reveal(AppView::edit_key);
    lemma_skills(start.command_key(key));
}

/// The right key attaches the selected session at its second press, while there is no
/// text: the first press asks for nothing, a repeated key never does, and the request
/// names the session with its directory.
pub proof fn law_right_twice_attaches(desk: Desk, key: KeyEvent, session: SessionView)
    requires
        at_dashboard(desk.app),
        is_plain(key),
        key.kind == KeyKind::Press,
        key.code == KeyCode::Right,
        desk.app.composer.text.len() == 0,
        desk.app.composer.target != ComposeTarget::Rename,
        desk.app.selected_session() == Some(session),
        !desk.app.attach_right_armed,
        desk.app.attach_requested is None,
    ensures
        desk.key(key).app.attach_requested is None,
        desk.key(key).app.attach_right_armed,
        desk.key(key).key(key).app.attach_requested matches Some(request) && request.thread_id
            == session.id && request.cwd == (if session.cwd.len() == 0 {
            desk.app.cwd
        } else {
            session.cwd
        }),
        !desk.key(key).key(key).app.attach_right_armed,
        desk.key(key).key(key).app.sessions == desk.app.sessions,
        desk.key(key).key(key).app.lifecycle.adopted.contains(session.id),
        forall|held: KeyEvent|
            held.code == KeyCode::Right && is_plain(held) && held.kind == KeyKind::Repeat ==> (
            #[trigger] desk.key(held)).app.attach_requested is None,
{
    let app = desk.app;
    lemma_arrow(desk, key);
    lemma_before_key(app, key);
    reveal(AppView::right_key);
    reveal(AppView::confirming_attach);
    reveal(AppView::noting);
    assert(!before_key(app, key).attach_right_armed) by {
        reveal(AppView::disarmed);
        reveal(AppView::unpicked);
        reveal(AppView::choosing);
    }
    let armed = desk.key(key);
    lemma_arrow(armed, key);
    lemma_before_key(armed.app, key);
    assert(before_key(armed.app, key).attach_right_armed) by {
        reveal(AppView::disarmed);
        reveal(AppView::unpicked);
        reveal(AppView::choosing);
    }
    assert(before_key(armed.app, key).selected_session() == Some(session));
    reveal(AppView::attaching);
    reveal(AppView::adopting);
    assert forall|held: KeyEvent|
        held.code == KeyCode::Right && is_plain(held) && held.kind == KeyKind::Repeat implies (
    #[trigger] desk.key(held)).app.attach_requested is None by {
        lemma_arrow(desk, held);
        lemma_before_key(app, held);
    }
}

/// The left key opens the menu at its second press, while there is no text, on the tab
/// of sessions to resume and with the preview level that is in use.
pub proof fn law_left_twice_opens_the_menu(desk: Desk, key: KeyEvent)
    requires
        at_dashboard(desk.app),
        is_plain(key),
        key.kind == KeyKind::Press,
        key.code == KeyCode::Left,
        desk.app.composer.text.len() == 0,
        desk.app.composer.target != ComposeTarget::Rename,
        !desk.app.menu_left_armed,
    ensures
        desk.key(key).app.menu is None,
        desk.key(key).key(key).app.menu == Some(
            MenuView {
                tab: MenuTab::Resume,
                verbosity: desk.app.lifecycle.verbosity,
                query: seq![],
                selected: 0,
            },
        ),
        desk.key(key).key(key).app.sessions == desk.app.sessions,
{
    let app = desk.app;
    lemma_arrow(desk, key);
    lemma_before_key(app, key);
    reveal(AppView::left_key);
    reveal(AppView::confirming_menu);
    reveal(AppView::noting);
    assert(!before_key(app, key).menu_left_armed) by {
        reveal(AppView::disarmed);
        reveal(AppView::unpicked);
        reveal(AppView::choosing);
    }
    let armed = desk.key(key);
    lemma_arrow(armed, key);
    lemma_before_key(armed.app, key);
    assert(before_key(armed.app, key).menu_left_armed) by {
        reveal(AppView::disarmed);
        reveal(AppView::unpicked);
        reveal(AppView::choosing);
    }
    reveal(AppView::with_menu);
}

/// With a text in the composer the arrow keys move its cursor and nothing is attached
/// or opened.
pub proof fn law_arrows_move_the_cursor_in_a_text(desk: Desk, key: KeyEvent)
    requires
        at_dashboard(desk.app),
        is_plain(key),
        key.kind != KeyKind::Release,
        key.code == KeyCode::Left || key.code == KeyCode::Right,
        desk.app.composer.text.len() > 0,
    ensures
        ({
            let after = desk.key(key).app;
            &&& after.composer == (if key.code == KeyCode::Left {
                desk.app.composer.move_left()
            } else {
                desk.app.composer.move_right()
            })
            &&& after.menu is None
            &&& after.attach_requested == desk.app.attach_requested
            &&& !after.attach_right_armed && !after.menu_left_armed
        }),
{
    lemma_arrow(desk, key);
    lemma_before_key(desk.app, key);
    reveal(AppView::left_key);
    reveal(AppView::right_key);
    reveal(AppView::with_composer);
    assert(!before_key(desk.app, key).attach_right_armed && !before_key(
        desk.app,
        key,
    ).menu_left_armed) by {
        reveal(AppView::disarmed);
        reveal(AppView::unpicked);
        reveal(AppView::choosing);
    }
}

proof fn lemma_control(desk: Desk, key: KeyEvent, c: char, done: Desk)
    requires
        at_dashboard(desk.app),
        is_control(key, c),
        c != 'c',
        desk.on(before_key(desk.app, key)).control_key(c, key) == Some(done),
    ensures
        desk.key(key) == done.ensuring_skills(),
{
    lemma_key(desk, key);
    reveal(Desk::command_key);
}

/// The control key with a letter: `n` begins a new task, `u` empties the composer, `v`
/// asks for the clipboard, and `r` puts the title of the selected session into the
/// composer to be renamed.
pub proof fn law_control_keys_of_the_composer(desk: Desk, key: KeyEvent, c: char)
    requires
        at_dashboard(desk.app),
        is_control(key, c),
        desk.app.composer.target != ComposeTarget::Rename,
        desk.app.rename_previous is None,
    ensures
        ({
            let app = desk.app;
            let after = desk.key(key).app;
            &&& c == 'n' ==> after.composer_open && after.composer.target == ComposeTarget::NewTask
                && after.composer.text == (if app.composer.target == ComposeTarget::NewTask {
                app.composer.text
            } else {
                app.new_draft.text
            })
            &&& c == 'u' ==> after.composer == ComposerView::empty(app.composer.target)
            &&& c == 'v' ==> after.clipboard_requested
            &&& c == 'r' ==> (app.selected_session() matches Some(session) ==> {
                &&& after.composer.target == ComposeTarget::Rename
                &&& after.composer.text == session.title
                &&& after.composer.cursor == byte_len(session.title)
                &&& after.rename_thread_id == Some(session.id)
                &&& after.composer_open
            })
            &&& c == 'n' || c == 'u' || c == 'v' || c == 'r' ==> after.sessions == app.sessions
        }),
{
    let app = desk.app;
    lemma_before_key(app, key);
    let start = desk.on(before_key(app, key));
    reveal(Desk::control_key);
    if c == 'n' {
        lemma_control(desk, key, c, start.on(start.app.new_task()));
        lemma_skills(start.on(start.app.new_task()));
        reveal(AppView::new_task);
        reveal(AppView::without_rename);
        reveal(AppView::switching_to_new);
        reveal(AppView::caching_draft);
        reveal(AppView::with_new_draft);
        reveal(AppView::opened);
        reveal(AppView::noting);
    } else if c == 'u' {
        lemma_control(desk, key, c, start.on(start.app.emptied()));
        lemma_skills(start.on(start.app.emptied()));
        reveal(AppView::emptied);
        reveal(AppView::with_composer);
    } else if c == 'v' {
        lemma_control(desk, key, c, start.on(start.app.wanting_clipboard()));
        lemma_skills(start.on(start.app.wanting_clipboard()));
        reveal(AppView::wanting_clipboard);
    } else if c == 'r' {
        lemma_control(desk, key, c, start.on(start.app.renaming()));
        lemma_skills(start.on(start.app.renaming()));
        reveal(AppView::renaming);
        reveal(AppView::noting);
        if let Some(session) = app.selected_session() {
            lemma_emptied_insert(session.title);
        }
    }
}

proof fn lemma_emptied_insert(title: Seq<char>)
    ensures
        ComposerView::empty(ComposeTarget::Rename).insert(title).text == title,
        ComposerView::empty(ComposeTarget::Rename).insert(title).cursor == byte_len(title),
        ComposerView::empty(ComposeTarget::Rename).insert(title).target == ComposeTarget::Rename,
{
    let none = Seq::<char>::empty();
    lemma_offset_ends(none);
    lemma_index_at(none, 0);
    assert(none.take(0) + title + none.skip(0) =~= title);
}

/// The control key with `t` pins the selected session, or takes its pin away. It stays
/// selected.
pub proof fn law_control_t_pins_the_session(desk: Desk, key: KeyEvent, session: SessionView)
    requires
        at_dashboard(desk.app),
        is_control(key, 't'),
        listed_once(desk.app.sessions),
        desk.app.selected_session() == Some(session),
        desk.app.selected >= 0,
    ensures
        ({
            let after = desk.key(key).app;
            let was = desk.app.lifecycle.pinned.contains(session.id);
            &&& after.lifecycle.pinned.contains(session.id) == !was
            &&& forall|other: Seq<char>|
                other != session.id ==> #[trigger] after.lifecycle.pinned.contains(other)
                    == desk.app.lifecycle.pinned.contains(other)
            &&& !was ==> after.lifecycle.adopted.contains(session.id)
            &&& after.session(session.id) == desk.app.session(session.id)
            &&& after.selected_id() == Some(session.id)
            &&& after.notice == (if was {
                "Unpinned "@ + session.title
            } else {
                "Pinned "@ + session.title
            })
        }),
{
    let app = desk.app;
    lemma_before_key(app, key);
    let start = desk.on(before_key(app, key));
    reveal(Desk::control_key);
    lemma_control(desk, key, 't', start.on(start.app.toggling_pin()));
    lemma_skills(start.on(start.app.toggling_pin()));
    reveal(AppView::toggling_pin);
    reveal(AppView::noting);
    let turned = AppView {
        lifecycle: start.app.lifecycle.toggle_pin(session.id),
        ..start.app
    };
    lemma_resorted(turned);
    law_sorting_keeps_the_selection(turned);
    let sorted = turned.resorted();
    assert(turned.selected_id() == Some(session.id));
    let k = app.selected_index();
    lemma_session_found(app, k);
    assert(sorted.session(session.id) == turned.session(session.id));
    assert(turned.session(session.id) == app.session(session.id));
    lemma_session_slot(sorted.sessions, session.id);
    reveal(AppView::selecting);
}

/// The control key with `x` stops or removes the selected session at its second press.
/// The first press changes no session and sends nothing. The second sends a request to
/// stop the turn of a session that works, and takes one that does not out of the
/// dashboard, where it can be resumed from the menu.
pub proof fn law_control_x_twice_stops_or_removes(
    desk: Desk,
    key: KeyEvent,
    session: SessionView,
)
    requires
        at_dashboard(desk.app),
        is_control(key, 'x'),
        listed_once(desk.app.sessions),
        desk.app.selected_session() == Some(session),
        desk.app.ctrl_x_armed is None,
        !desk.app.show_all,
        !desk.app.composer_open,
    ensures
        ({
            let first = desk.key(key);
            let second = first.key(key);
            &&& first.out == desk.out
            &&& first.app.sessions == desk.app.sessions
            &&& first.app.lifecycle == desk.app.lifecycle
            &&& status_is_live(session.status) && session.active_turn_id is Some ==> sent_one(
                desk.out,
                second.out,
                "turn/interrupt"@,
                interrupt_params(session.id, session.active_turn_id->0),
            ) && second.app.sessions == desk.app.sessions
            &&& !status_is_live(session.status) ==> {
                &&& second.app.session(session.id) is None
                &&& !second.app.lifecycle.adopted.contains(session.id)
                &&& second.app.history.contains(session)
            }
        }),
{
    let app = desk.app;
    lemma_before_key(app, key);
    let start = desk.on(before_key(app, key));
    reveal(Desk::control_key);
    lemma_control(desk, key, 'x', start.confirming_stop(key));
    assert(start.app.ctrl_x_armed is None) by {
        reveal(AppView::disarmed);
        reveal(AppView::unpicked);
        reveal(AppView::choosing);
    }
    law_stopping_takes_two_presses(start, key);
    let armed = start.confirming_stop(key);
    lemma_skills(armed);
    assert(armed.app.picking() is None);
    let first = desk.key(key);
    assert(first == armed);
    lemma_before_key(first.app, key);
    let next = first.on(before_key(first.app, key));
    assert(next.app.ctrl_x_armed == Some(session.id)) by {
        reveal(AppView::disarmed);
        reveal(AppView::unpicked);
        reveal(AppView::choosing);
    }
    lemma_control(first, key, 'x', next.confirming_stop(key));
    reveal(Desk::confirming_stop);
    reveal(AppView::arming_stop);
    let ready = next.on(AppView { ctrl_x_armed: None, ..next.app });
    assert(next.confirming_stop(key) == ready.stopping());
    assert(ready.app.selected_session() == Some(session));
    reveal(Desk::stopping);
    if status_is_live(session.status) {
        if session.active_turn_id is Some {
            reveal(Desk::stopping_turn);
            reveal(Desk::calling_out);
            reveal(Desk::calling);
            reveal(AppView::calling);
            reveal(AppView::noting);
            lemma_skills(ready.stopping());
            assert(ready.stopping().app.picking() is None);
        }
    } else {
        law_removed_sessions_can_be_resumed(ready.app, session);
        let gone = ready.on(ready.app.removing(session));
        let seen = gone.ensuring_history();
        lemma_history(gone);
        lemma_skills(seen);
    }
}

} // verus!
