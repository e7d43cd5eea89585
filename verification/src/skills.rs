//! The skill picker: searching for a skill with `$`, and putting it into the
//! prompt.

use vstd::prelude::*;

use crate::composer::{
    Composer, ComposerToken, ComposerView, ComposeTarget, range_is_plain, SkillReference, SkillView,
};
use crate::desk::{Desk, desk};
use crate::json::{Json, json_views, JsonView};
use crate::keys::{KeyCode, KeyEvent};
use crate::labels::{max_int, min_int};
use crate::menus::{SkillItem, SkillItemView, SkillPickerView};
use crate::model::or_empty;
use crate::params::skills_params_json;
use crate::rpc::RpcOutbox;
use crate::state::{App, AppView, option_view, PendingCall};
use crate::text::{
    char_is_white, chars_of, contains_text, head, index_at, is_offset, is_white, lemma_is_offset,
    lemma_offset_mono, lower, lower_text, offset_at, same_text, split_text, string_of,
    text_contains, text_is_empty, text_len,
};
use crate::views::{group_views, views};

verus! {

broadcast use group_views;

/// A skill of the app-server.
#[derive(Debug)]
pub struct Skill {
    pub name: String,
    pub description: String,
    pub path: String,
    pub scope: String,
}

/// The mathematical form of a skill.
#[verifier::ext_equal]
pub struct SkillEntryView {
    pub name: Seq<char>,
    pub description: Seq<char>,
    pub path: Seq<char>,
    pub scope: Seq<char>,
}

impl View for Skill {
    type V = SkillEntryView;

    open spec fn view(&self) -> SkillEntryView {
        SkillEntryView {
            name: self.name@,
            description: self.description@,
            path: self.path@,
            scope: self.scope@,
        }
    }
}

impl Clone for Skill {
    fn clone(&self) -> (copy: Skill)
        ensures
            copy@ == self@,
    {
        Skill {
            name: self.name.clone(),
            description: self.description.clone(),
            path: self.path.clone(),
            scope: self.scope.clone(),
        }
    }
}

/// What an entry of the list of skills says; nothing without a name and a path.
pub open spec fn skill_entry(entry: JsonView) -> Option<SkillEntryView> {
    match (entry.get_str("name"@), entry.get_str("path"@)) {
        (Some(name), Some(path)) => Some(
            SkillEntryView {
                name,
                description: or_empty(entry.get_str("description"@)),
                path,
                scope: or_empty(entry.get_str("scope"@)),
            },
        ),
        _ => None,
    }
}

/// The skills among some entries.
pub open spec fn skill_entries(entries: Seq<JsonView>) -> Seq<SkillEntryView>
    decreases entries.len(),
{
    if entries.len() == 0 {
        seq![]
    } else {
        let before = skill_entries(entries.drop_last());
        match skill_entry(entries.last()) {
            Some(skill) => before.push(skill),
            None => before,
        }
    }
}

/// The skills of some directories.
pub open spec fn directory_skills(directories: Seq<JsonView>) -> Seq<SkillEntryView>
    decreases directories.len(),
{
    if directories.len() == 0 {
        seq![]
    } else {
        directory_skills(directories.drop_last()) + skill_entries(
            directories.last().get_items("skills"@),
        )
    }
}

/// The skills in the answer of the app-server.
#[verifier::opaque]
pub open spec fn skills_in(result: JsonView) -> Seq<SkillEntryView> {
    directory_skills(result.get_items("data"@))
}

fn parse_skill(entry: &Json) -> (skill: Option<Skill>)
    ensures
        option_view(skill) == skill_entry(entry@),
{
    let name = match entry.get_str("name") {
        Some(name) => name.to_owned(),
        None => return None,
    };
    let path = match entry.get_str("path") {
        Some(path) => path.to_owned(),
        None => return None,
    };
    let description = match entry.get_str("description") {
        Some(text) => text.to_owned(),
        None => String::new(),
    };
    let scope = match entry.get_str("scope") {
        Some(text) => text.to_owned(),
        None => String::new(),
    };
    Some(Skill { name, description, path, scope })
}

fn push_entries(skills: &mut Vec<Skill>, entries: &Vec<Json>)
    ensures
        views(final(skills)@) == views(old(skills)@) + skill_entries(json_views(entries@)),
{
    let ghost before = views(skills@);
    let ghost all = json_views(entries@);
    let mut i: usize = 0;
    assert(all.take(0) =~= seq![]);
    assert(before + Seq::<SkillEntryView>::empty() =~= before);
    while i < entries.len()
        invariant
            i <= entries.len(),
            all == json_views(entries@),
            views(skills@) == before + skill_entries(all.take(i as int)),
        decreases entries.len() - i,
    {
        proof {
            assert(all.take(i + 1).drop_last() =~= all.take(i as int));
            assert(all.take(i + 1).last() == entries@[i as int]@);
        }
        match parse_skill(&entries[i]) {
            Some(skill) => {
                let ghost found = skill@;
                skills.push(skill);
                assert(views(skills@) =~= before + skill_entries(all.take(i as int)).push(found));
            },
            None => {},
        }
        i += 1;
    }
    assert(all.take(all.len() as int) =~= all);
}

/// The skills in the answer of the app-server.
pub fn parse_skills(result: &Json) -> (skills: Vec<Skill>)
    ensures
        views(skills@) == skills_in(result@),
{
    reveal(skills_in);
    let ghost all = result@.get_items("data"@);
    let mut skills: Vec<Skill> = Vec::new();
    if let Some(directories) = result.get_array("data") {
        let mut i: usize = 0;
        assert(all.take(0) =~= seq![]);
        while i < directories.len()
            invariant
                i <= directories.len(),
                all == json_views(directories@),
                views(skills@) == directory_skills(all.take(i as int)),
            decreases directories.len() - i,
        {
            proof {
                assert(all.take(i + 1).drop_last() =~= all.take(i as int));
                assert(all.take(i + 1).last() == directories@[i as int]@);
            }
            match directories[i].get_array("skills") {
                Some(entries) => push_entries(&mut skills, entries),
                None => {
                    assert(views(skills@) + Seq::<SkillEntryView>::empty() =~= views(skills@));
                },
            }
            i += 1;
        }
        assert(all.take(all.len() as int) =~= all);
    }
    skills
}

/// The last dollar sign of a text.
pub open spec fn last_dollar(s: Seq<char>) -> Option<int>
    decreases s.len(),
{
    if s.len() == 0 {
        None
    } else if s.last() == '$' {
        Some(s.len() - 1)
    } else {
        last_dollar(s.drop_last())
    }
}

/// Whether a text has no white space.
pub open spec fn is_one_word(s: Seq<char>) -> bool {
    forall|i: int| 0 <= i < s.len() ==> !is_white(#[trigger] s[i])
}

/// Where the name of a skill is being typed at the end of a text: behind a dollar
/// sign that begins a word.
pub open spec fn typed_name(before: Seq<char>) -> Option<int> {
    match last_dollar(before) {
        Some(i) => if (i == 0 || is_white(before[i - 1])) && is_one_word(before.skip(i + 1)) {
            Some(i)
        } else {
            None
        },
        None => None,
    }
}

/// A search for a skill: the byte where it begins, and what is searched for.
pub struct SkillSearch {
    pub start: int,
    pub query: Seq<char>,
}

impl ComposerView {
    /// The search for a skill before the cursor. A skill that is in the prompt
    /// already is no search.
    #[verifier::opaque]
    pub open spec fn skill_search(self) -> Option<SkillSearch> {
        let before = head(self.text, self.cursor);
        match typed_name(before) {
            Some(i) => {
                let start = offset_at(before, i) as int;
                if range_is_plain(self.tokens, start, self.cursor) {
                    Some(SkillSearch { start, query: before.skip(i + 1) })
                } else {
                    None
                }
            },
            None => None,
        }
    }
}

fn find_dollar(chars: &Vec<char>) -> (found: Option<usize>)
    ensures
        match found {
            Some(i) => last_dollar(chars@) == Some(i as int) && i < chars.len(),
            None => last_dollar(chars@) is None,
        },
{
    let ghost all = chars@;
    let mut i: usize = chars.len();
    assert(all.take(all.len() as int) =~= all);
    while i > 0
        invariant
            i <= chars.len(),
            all == chars@,
            last_dollar(all) == last_dollar(all.take(i as int)),
        decreases i,
    {
        assert(all.take(i as int).last() == all[i - 1]);
        assert(all.take(i as int).drop_last() =~= all.take(i - 1));
        if chars[i - 1] == '$' {
            return Some(i - 1);
        }
        i -= 1;
    }
    None
}

fn name_start(chars: &Vec<char>) -> (found: Option<usize>)
    ensures
        match found {
            Some(i) => typed_name(chars@) == Some(i as int) && i < chars.len(),
            None => typed_name(chars@) is None,
        },
{
    let start: usize = match find_dollar(chars) {
        Some(start) => start,
        None => return None,
    };
    if start > 0 && !char_is_white(chars[start - 1]) {
        return None;
    }
    let ghost rest = chars@.skip(start + 1);
    let mut i: usize = start + 1;
    while i < chars.len()
        invariant
            start < i <= chars.len(),
            rest == chars@.skip(start + 1),
            last_dollar(chars@) == Some(start as int),
            forall|j: int| 0 <= j < i - start - 1 ==> !is_white(#[trigger] rest[j]),
        decreases chars.len() - i,
    {
        assert(rest[i - start - 1] == chars@[i as int]);
        if char_is_white(chars[i]) {
            return None;
        }
        i += 1;
    }
    Some(start)
}

fn tokens_leave_plain(tokens: &Vec<ComposerToken>, start: usize, end: usize) -> (plain: bool)
    ensures
        plain == range_is_plain(views(tokens@), start as int, end as int),
{
    let ghost all = views(tokens@);
    let mut i: usize = 0;
    while i < tokens.len()
        invariant
            i <= tokens.len(),
            all == views(tokens@),
            forall|j: int|
                0 <= j < i ==> (#[trigger] all[j]).end <= start || end <= all[j].start,
        decreases tokens.len() - i,
    {
        assert(all[i as int] == tokens@[i as int]@);
        if tokens[i].end > start && tokens[i].start < end {
            return false;
        }
        i += 1;
    }
    true
}

/// The search for a skill before the cursor: the byte where it begins, and what is
/// searched for.
pub fn find_skill_search(composer: &Composer) -> (search: Option<(usize, String)>)
    requires
        composer@.wf(),
    ensures
        match search {
            Some((start, query)) => composer@.skill_search() == Some(
                SkillSearch { start: start as int, query: query@ },
            ) && is_offset(composer@.text, start as int) && start <= composer.cursor
                && range_is_plain(composer@.tokens, start as int, composer@.cursor),
            None => composer@.skill_search() is None,
        },
{
    reveal(ComposerView::skill_search);
    let before = split_text(composer.text.as_str(), composer.cursor).0;
    let chars = chars_of(before);
    let index: usize = match name_start(&chars) {
        Some(index) => index,
        None => return None,
    };
    let prefix = string_of(&chars, 0, index);
    let start: usize = text_len(prefix.as_str());
    let query = string_of(&chars, index + 1, chars.len());
    proof {
        let text = composer@.text;
        let cursor = composer@.cursor;
        lemma_is_offset(text, cursor);
        let count = index_at(text, cursor);
        assert(before@ == text.take(count));
        assert(prefix@ =~= before@.take(index as int));
        assert(before@.take(index as int) =~= text.take(index as int));
        lemma_offset_mono(text, index as int, count);
        assert(is_offset(text, start as int)) by {
            reveal(is_offset);
            assert(offset_at(text, index as int) == start);
        }
        assert(query@ =~= before@.skip(index + 1));
    }
    if tokens_leave_plain(&composer.tokens, start, composer.cursor) {
        Some((start, query))
    } else {
        None
    }
}

/// The skills whose name holds what is searched for, whatever its case.
pub open spec fn matching_skills(skills: Seq<SkillEntryView>, query: Seq<char>) -> Seq<
    SkillEntryView,
>
    decreases skills.len(),
{
    if skills.len() == 0 {
        seq![]
    } else {
        let before = matching_skills(skills.drop_last(), query);
        if contains_text(lower(skills.last().name), lower(query)) {
            before.push(skills.last())
        } else {
            before
        }
    }
}

fn offered_skills(skills: &Vec<Skill>, query: &str) -> (offered: Vec<Skill>)
    ensures
        views(offered@) == matching_skills(views(skills@), query@),
{
    let wanted = lower_text(query);
    let ghost all = views(skills@);
    let mut offered: Vec<Skill> = Vec::new();
    let mut i: usize = 0;
    assert(all.take(0) =~= seq![]);
    while i < skills.len()
        invariant
            i <= skills.len(),
            all == views(skills@),
            wanted@ == lower(query@),
            views(offered@) == matching_skills(all.take(i as int), query@),
        decreases skills.len() - i,
    {
        proof {
            assert(all.take(i + 1).drop_last() =~= all.take(i as int));
            assert(all.take(i + 1).last() == skills@[i as int]@);
        }
        if text_contains(lower_text(skills[i].name.as_str()).as_str(), wanted.as_str()) {
            offered.push(skills[i].clone());
        }
        i += 1;
    }
    assert(all.take(all.len() as int) =~= all);
    offered
}

/// The items of the picker for some skills.
pub open spec fn skill_items(skills: Seq<SkillEntryView>) -> Seq<SkillItemView> {
    Seq::new(
        skills.len(),
        |i: int|
            SkillItemView {
                name: skills[i].name,
                description: skills[i].description,
                scope: skills[i].scope,
            },
    )
}

impl AppView {
    /// The directory that a prompt goes to: that of the session it replies to, or
    /// that of the dashboard.
    pub open spec fn active_directory(self) -> Seq<char> {
        match self.selected_session() {
            Some(session) => if self.composer.target == ComposeTarget::Reply
                && session.cwd.len() > 0 {
                session.cwd
            } else {
                self.cwd
            },
            None => self.cwd,
        }
    }

    /// The search for a skill in the open composer.
    pub open spec fn picking(self) -> Option<SkillSearch> {
        if self.composer_open && self.composer.target != ComposeTarget::Rename {
            self.composer.skill_search()
        } else {
            None
        }
    }

    /// The skills of the active directory that fit a search.
    pub open spec fn offered_skills(self, query: Seq<char>) -> Seq<SkillEntryView> {
        match self.skills {
            Some(skills) => if self.skills_cwd == self.active_directory() {
                matching_skills(skills, query)
            } else {
                seq![]
            },
            None => seq![],
        }
    }

    /// Whether the picker takes a key: it offers a skill, and the key moves the
    /// choice or takes it.
    #[verifier::opaque]
    pub open spec fn picker_takes(self, query: Seq<char>, key: KeyEvent) -> bool {
        self.offered_skills(query).len() > 0 && key.is_bare() && match key.code {
            KeyCode::Up => true,
            KeyCode::Down => true,
            KeyCode::Tab => true,
            KeyCode::Enter => !key.modifiers.shift,
            _ => false,
        }
    }

    /// Another skill is chosen.
    #[verifier::opaque]
    pub open spec fn choosing(self, choice: int) -> AppView {
        AppView { skill_selected: choice, ..self }
    }

    /// The picker is left.
    #[verifier::opaque]
    pub open spec fn unpicked(self) -> AppView {
        self.choosing(0)
    }

    /// A skill takes the place of its search.
    #[verifier::opaque]
    pub open spec fn picked(self, start: int, skill: SkillEntryView) -> AppView {
        self.with_composer(
            self.composer.replace_with_skill(
                start,
                SkillView { name: skill.name, path: skill.path },
            ),
        ).unpicked()
    }

    /// The skill that is chosen among some.
    pub open spec fn choice_among(self, count: int) -> int {
        if self.skill_selected < count {
            self.skill_selected
        } else {
            count - 1
        }
    }

    /// A key that the picker takes.
    #[verifier::opaque]
    pub open spec fn pick_key(self, search: SkillSearch, key: KeyEvent) -> AppView {
        let offered = self.offered_skills(search.query);
        let choice = self.choice_among(offered.len() as int);
        match key.code {
            KeyCode::Up => self.choosing(max_int(choice - 1, 0)),
            KeyCode::Down => self.choosing(min_int(choice + 1, offered.len() - 1)),
            _ => self.picked(search.start, offered[choice]),
        }
    }

    /// The skills of a directory have been asked for.
    #[verifier::opaque]
    pub open spec fn skills_asked(self, cwd: Seq<char>) -> AppView {
        AppView { skills: None, skills_cwd: cwd, skills_loading: true, ..self }
    }

    /// The skills of a directory have come, where they are still wanted.
    #[verifier::opaque]
    pub open spec fn with_skills(self, cwd: Seq<char>, skills: Seq<SkillEntryView>) -> AppView {
        if self.skills_cwd == cwd {
            AppView { skills: Some(skills), skills_loading: false, ..self }
        } else {
            self
        }
    }

    /// The skills have changed: what is known of them no longer counts.
    #[verifier::opaque]
    pub open spec fn without_skills(self) -> AppView {
        AppView { skills: None, skills_loading: false, ..self }
    }
}

impl App {
    pub(crate) fn active_directory(&self) -> (cwd: String)
        ensures
            cwd@ == self@.active_directory(),
    {
        if let Some(session) = self.selected_session() {
            if self.composer().target == ComposeTarget::Reply && !text_is_empty(
                session.cwd.as_str(),
            ) {
                return session.cwd.clone();
            }
        }
        self.cwd().to_owned()
    }

    pub(crate) fn skill_search(&self) -> (search: Option<(usize, String)>)
        requires
            self@.wf(),
        ensures
            match search {
                Some((start, query)) => self@.picking() == Some(
                    SkillSearch { start: start as int, query: query@ },
                ) && is_offset(self@.composer.text, start as int) && start
                    <= self@.composer.cursor && range_is_plain(
                    self@.composer.tokens,
                    start as int,
                    self@.composer.cursor,
                ),
                None => self@.picking() is None,
            },
    {
        if !self.composer_open() || self.composer().target == ComposeTarget::Rename {
            return None;
        }
        find_skill_search(self.composer())
    }

    fn skills_for(&self, query: &str) -> (offered: Vec<Skill>)
        ensures
            views(offered@) == self@.offered_skills(query@),
    {
        if let Some(skills) = self.skills() {
            if same_text(self.skills_cwd(), self.active_directory().as_str()) {
                return offered_skills(skills, query);
            }
        }
        let none: Vec<Skill> = Vec::new();
        assert(views(none@) =~= seq![]);
        none
    }

    pub(crate) fn picker_takes(&self, query: &str, key: KeyEvent) -> (taken: bool)
        ensures
            taken == self@.picker_takes(query@, key),
    {
        reveal(AppView::picker_takes);
        if !key.bare() || self.skills_for(query).len() == 0 {
            return false;
        }
        match key.code {
            KeyCode::Up => true,
            KeyCode::Down => true,
            KeyCode::Tab => true,
            KeyCode::Enter => !key.modifiers.shift,
            _ => false,
        }
    }

    fn choose_skill(&mut self, choice: usize)
        requires
            old(self)@.wf(),
        ensures
            final(self)@ == old(self)@.choosing(choice as int),
            final(self)@.wf(),
    {
        reveal(AppView::choosing);
        self.put_skill_selected(choice);
    }

    pub(crate) fn leave_picker(&mut self)
        requires
            old(self)@.wf(),
        ensures
            final(self)@ == old(self)@.unpicked(),
            final(self)@.wf(),
    {
        reveal(AppView::unpicked);
        self.choose_skill(0);
    }

    fn insert_skill(&mut self, start: usize, skill: &Skill)
        requires
            old(self)@.wf(),
            is_offset(old(self)@.composer.text, start as int),
            range_is_plain(old(self)@.composer.tokens, start as int, old(self)@.composer.cursor),
        ensures
            final(self)@ == old(self)@.with_composer(
                old(self)@.composer.replace_with_skill(
                    start as int,
                    (SkillView { name: skill@.name, path: skill@.path }),
                ),
            ),
            final(self)@.wf(),
    {
        reveal(AppView::with_composer);
        let reference = SkillReference { name: skill.name.clone(), path: skill.path.clone() };
        self.composer_mut().replace_with_skill(start, reference);
    }

    fn take_skill(&mut self, start: usize, skill: &Skill)
        requires
            old(self)@.wf(),
            is_offset(old(self)@.composer.text, start as int),
            range_is_plain(old(self)@.composer.tokens, start as int, old(self)@.composer.cursor),
        ensures
            final(self)@ == old(self)@.picked(start as int, skill@),
            final(self)@.wf(),
    {
        reveal(AppView::picked);
        self.insert_skill(start, skill);
        self.leave_picker();
    }

    pub(crate) fn pick_key(&mut self, start: usize, query: &str, key: KeyEvent)
        requires
            old(self)@.wf(),
            old(self)@.picker_takes(query@, key),
            is_offset(old(self)@.composer.text, start as int),
            range_is_plain(old(self)@.composer.tokens, start as int, old(self)@.composer.cursor),
        ensures
            final(self)@ == old(self)@.pick_key(
                (SkillSearch { start: start as int, query: query@ }),
                key,
            ),
            final(self)@.wf(),
    {
        reveal(AppView::pick_key);
        reveal(AppView::picker_takes);
        let offered = self.skills_for(query);
        let choice: usize = if self.skill_selected() < offered.len() {
            self.skill_selected()
        } else {
            offered.len() - 1
        };
        match key.code {
            KeyCode::Up => self.choose_skill(choice.saturating_sub(1)),
            KeyCode::Down => {
                let next: usize = if choice < offered.len() - 1 {
                    choice + 1
                } else {
                    offered.len() - 1
                };
                self.choose_skill(next);
            },
            _ => self.take_skill(start, &offered[choice]),
        }
    }

    fn mark_skills_asked(&mut self, cwd: &str)
        requires
            old(self)@.wf(),
        ensures
            final(self)@ == old(self)@.skills_asked(cwd@),
            final(self)@.wf(),
    {
        reveal(AppView::skills_asked);
        self.put_skills(None);
        self.put_skills_cwd(cwd.to_owned());
        self.put_skills_loading(true);
    }

    pub(crate) fn take_skills(&mut self, cwd: &str, skills: Vec<Skill>)
        requires
            old(self)@.wf(),
        ensures
            final(self)@ == old(self)@.with_skills(cwd@, views(skills@)),
            final(self)@.wf(),
    {
        reveal(AppView::with_skills);
        if same_text(self.skills_cwd(), cwd) {
            self.put_skills(Some(skills));
            self.put_skills_loading(false);
        }
    }

    pub(crate) fn forget_skills(&mut self)
        requires
            old(self)@.wf(),
        ensures
            final(self)@ == old(self)@.without_skills(),
            final(self)@.wf(),
    {
        reveal(AppView::without_skills);
        self.put_skills(None);
        self.put_skills_loading(false);
    }

    pub(crate) fn ensure_skills(&mut self, sender: &mut RpcOutbox)
        requires
            old(self)@.wf(),
        ensures
            desk(final(self)@, final(sender)@) == desk(
                old(self)@,
                old(sender)@,
            ).ensuring_skills(),
            final(self)@.wf(),
    {
        reveal(Desk::ensuring_skills);
        if self.skill_search().is_none() {
            return;
        }
        let cwd = self.active_directory();
        if same_text(self.skills_cwd(), cwd.as_str()) && (self.skills().is_some()
            || self.skills_loading()) {
            return;
        }
        let params = skills_params_json(cwd.as_str());
        self.call("skills/list", params, PendingCall::SkillsList { cwd: cwd.clone() }, sender);
        self.mark_skills_asked(cwd.as_str());
    }

    /// The skills that fit the search in the composer.
    pub fn skill_picker_view(&self) -> (picker: Option<SkillPickerView>)
        requires
            self@.wf(),
        ensures
            match (picker, self@.picking()) {
                (Some(picker), Some(search)) => {
                    let offered = self@.offered_skills(search.query);
                    &&& views(picker.items@) == skill_items(offered)
                    &&& picker.selected == max_int(
                        self@.choice_among(offered.len() as int),
                        0,
                    )
                    &&& picker.loading == (self@.skills is None || self@.skills_cwd
                        != self@.active_directory())
                },
                (None, None) => true,
                _ => false,
            },
    {
        let query = match self.skill_search() {
            Some((_start, query)) => query,
            None => return None,
        };
        let offered = self.skills_for(query.as_str());
        let ghost all = views(offered@);
        let mut items: Vec<SkillItem> = Vec::new();
        let mut i: usize = 0;
        while i < offered.len()
            invariant
                i <= offered.len(),
                all == views(offered@),
                items.len() == i,
                forall|j: int|
                    0 <= j < i ==> (#[trigger] items@[j])@ == (SkillItemView {
                        name: all[j].name,
                        description: all[j].description,
                        scope: all[j].scope,
                    }),
            decreases offered.len() - i,
        {
            items.push(
                SkillItem {
                    name: offered[i].name.clone(),
                    description: offered[i].description.clone(),
                    scope: offered[i].scope.clone(),
                },
            );
            i += 1;
        }
        let selected: usize = if self.skill_selected() < offered.len() {
            self.skill_selected()
        } else {
            offered.len().saturating_sub(1)
        };
        let loading = self.skills().is_none() || !same_text(
            self.skills_cwd(),
            self.active_directory().as_str(),
        );
        let picker = SkillPickerView { items, selected, loading };
        assert(views(picker.items@) =~= skill_items(all));
        Some(picker)
    }
}

} // verus!
