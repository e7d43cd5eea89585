//! The drafts of new tasks and replies, renaming and attached images.

use vstd::prelude::*;

use crate::assoc::{law_keys_stay_distinct, lemma_key_slot, put, without_key};
use crate::composer::{Composer, ComposerView, ComposeTarget};
use crate::deck::{attached_notice, drafts_wf};
use crate::slots::{draft_of, drop_draft, put_draft};
use crate::state::{App, AppView, draft_views};
use crate::text::{concat_text, decimal_text, same_text, texts};
use crate::views::group_views;

verus! {

broadcast use group_views;

proof fn lemma_put_keeps_wf(
    drafts: Seq<(Seq<char>, ComposerView)>,
    id: Seq<char>,
    draft: ComposerView,
)
    requires
        draft.wf(),
        drafts_wf(drafts),
    ensures
        drafts_wf(put(drafts, id, draft)),
{
    lemma_key_slot(drafts, id);
    law_keys_stay_distinct(drafts, id, draft);
}

proof fn lemma_without_keeps_wf(drafts: Seq<(Seq<char>, ComposerView)>, id: Seq<char>)
    requires
        drafts_wf(drafts),
    ensures
        drafts_wf(without_key(drafts, id)),
{
    lemma_key_slot(drafts, id);
    law_keys_stay_distinct(drafts, id, ComposerView::empty(ComposeTarget::Reply));
}

impl App {
    pub(crate) fn cache_current_draft(&mut self)
        requires
            old(self)@.wf(),
        ensures
            final(self)@ == old(self)@.caching_draft(),
            final(self)@.wf(),
    {
        reveal(AppView::caching_draft);
        let draft = self.composer().clone();
        match draft.target {
            ComposeTarget::NewTask => self.put_new_draft(draft),
            ComposeTarget::Reply => {
                if let Some(id) = self.selected_id() {
                    let drafts = self.reply_drafts_mut();
                    proof {
                        lemma_put_keeps_wf(draft_views(drafts@), id@, draft@);
                    }
                    put_draft(drafts, id.as_str(), draft);
                }
            },
            ComposeTarget::Rename => {},
        }
    }

    pub(crate) fn use_new_draft(&mut self)
        requires
            old(self)@.wf(),
        ensures
            final(self)@ == old(self)@.with_new_draft(),
            final(self)@.wf(),
    {
        reveal(AppView::with_new_draft);
        let mut draft = self.new_draft().clone();
        draft.aim(ComposeTarget::NewTask);
        self.put_composer(draft);
    }

    pub(crate) fn switch_to_new_draft(&mut self)
        requires
            old(self)@.wf(),
        ensures
            final(self)@ == old(self)@.switching_to_new(),
            final(self)@.wf(),
    {
        reveal(AppView::switching_to_new);
        self.cache_current_draft();
        self.use_new_draft();
    }

    pub(crate) fn load_reply_draft(&mut self, id: &str)
        requires
            old(self)@.wf(),
        ensures
            final(self)@ == old(self)@.with_reply_draft(id@),
            final(self)@.wf(),
    {
        reveal(AppView::with_reply_draft);
        proof {
            lemma_key_slot(self@.reply_drafts, id@);
        }
        let mut draft = match draft_of(self.reply_drafts(), id) {
            Some(draft) => draft,
            None => Composer::default(),
        };
        draft.aim(ComposeTarget::Reply);
        self.put_composer(draft);
    }

    pub(crate) fn load_selected_reply_draft(&mut self)
        requires
            old(self)@.wf(),
        ensures
            final(self)@ == old(self)@.with_selected_draft(),
            final(self)@.wf(),
    {
        reveal(AppView::with_selected_draft);
        match self.selected_id() {
            Some(id) => self.load_reply_draft(id.as_str()),
            None => self.use_new_draft(),
        }
    }

    /// Ends a rename: the composer holds what it held before.
    pub fn cancel_rename(&mut self)
        requires
            old(self)@.wf(),
        ensures
            final(self)@ == old(self)@.without_rename(),
            final(self)@.wf(),
    {
        reveal(AppView::without_rename);
        match self.rename_previous() {
            Some(previous) => {
                let draft = previous.clone();
                self.put_composer(draft);
                self.put_rename_previous(None);
            },
            None => {
                if self.composer().target == ComposeTarget::Rename {
                    self.put_composer(Composer::default());
                }
            },
        }
        self.put_rename_thread_id(None);
        let open = self.composer_open() && !self.rename_opened();
        self.put_composer_open(open);
        self.put_rename_opened(false);
    }

    /// Starts to rename the selected session.
    pub fn start_rename(&mut self)
        requires
            old(self)@.wf(),
        ensures
            final(self)@ == old(self)@.renaming(),
            final(self)@.wf(),
    {
        reveal(AppView::renaming);
        match self.selected_session() {
            Some(session) => {
                let id = session.id.clone();
                let mut composer = Composer::default();
                composer.aim(ComposeTarget::Rename);
                composer.insert(session.title.as_str());
                if self.composer().target != ComposeTarget::Rename {
                    let previous = self.composer().clone();
                    self.put_rename_previous(Some(previous));
                    let opened = !self.composer_open();
                    self.put_rename_opened(opened);
                }
                self.put_rename_thread_id(Some(id));
                self.put_composer(composer);
                self.put_composer_open(true);
                self.note("Edit the name and press Enter · Tab cancels");
            },
            None => self.note("No session selected"),
        }
    }

    /// Turns the composer from a new task to a reply, or back.
    pub fn toggle_compose_target(&mut self)
        requires
            old(self)@.wf(),
        ensures
            final(self)@ == old(self)@.toggling_target(),
            final(self)@.wf(),
    {
        reveal(AppView::toggling_target);
        match self.composer().target {
            ComposeTarget::Rename => {
                self.cancel_rename();
                self.note("Rename cancelled");
            },
            ComposeTarget::NewTask => {
                if self.sessions().len() > 0 {
                    self.cache_current_draft();
                    self.load_selected_reply_draft();
                }
            },
            ComposeTarget::Reply => self.switch_to_new_draft(),
        }
    }

    pub(crate) fn discard_reply_draft(&mut self, id: &str, was_selected: bool)
        requires
            old(self)@.wf(),
        ensures
            final(self)@ == old(self)@.discarding_draft(id@, was_selected),
            final(self)@.wf(),
    {
        reveal(AppView::discarding_draft);
        let drafts = self.reply_drafts_mut();
        proof {
            lemma_without_keeps_wf(draft_views(drafts@), id@);
        }
        drop_draft(drafts, id);
        let renamed = match self.rename_thread_id() {
            Some(renamed) => same_text(renamed.as_str(), id),
            None => false,
        };
        if renamed {
            self.cancel_rename();
        }
        if was_selected && self.composer().target == ComposeTarget::Reply {
            self.load_selected_reply_draft();
        }
    }

    /// Attaches images to the draft.
    pub fn add_images(&mut self, paths: &Vec<String>)
        requires
            old(self)@.wf(),
        ensures
            final(self)@ == old(self)@.with_images(texts(paths@)),
            final(self)@.wf(),
    {
        reveal(AppView::with_images);
        let mut composer = self.composer().clone();
        let before: usize = composer.images.len();
        composer.attach_images(paths);
        let added: usize = composer.images.len() - before;
        self.put_composer(composer);
        self.put_attach_right_armed(false);
        self.put_notice(attached_text(added));
    }

    pub(crate) fn end_rename(&mut self)
        requires
            old(self)@.wf(),
        ensures
            final(self)@ == old(self)@.at_rest(),
            final(self)@.wf(),
    {
        reveal(AppView::at_rest);
        if self.composer().target == ComposeTarget::Rename {
            self.cancel_rename();
        }
    }

    fn turn_to_reply(&mut self)
        requires
            old(self)@.wf(),
        ensures
            final(self)@ == old(self)@.turned_to_reply(),
            final(self)@.wf(),
    {
        reveal(AppView::turned_to_reply);
        if self.sessions().len() > 0 {
            self.cache_current_draft();
            self.load_selected_reply_draft();
        } else {
            self.switch_to_new_draft();
        }
    }

    /// Opens the composer on the reply to the selected session.
    pub fn open_composer(&mut self)
        requires
            old(self)@.wf(),
        ensures
            final(self)@ == old(self)@.opening_composer(),
            final(self)@.wf(),
    {
        reveal(AppView::opening_composer);
        self.end_rename();
        self.turn_to_reply();
        self.put_composer_open(true);
    }
}

fn attached_text(added: usize) -> (notice: String)
    ensures
        notice@ == attached_notice(added as nat),
{
    if added == 0 {
        return "Image is already attached".to_owned();
    }
    let mut notice = concat_text("Attached ", decimal_text(added as u64).as_str());
    notice.append(" image");
    if added == 1 {
        notice.append("");
    } else {
        notice.append("s");
    }
    notice.append(" · Backspace on empty input removes the last one");
    notice
}

} // verus!
