//! Which sessions belong to the dashboard, and which are pinned.

use vstd::prelude::*;

use crate::model::PreviewVerbosity;
use crate::paths::{file_name, path_file_name};
use crate::text::{
    copy_texts, decimal, decimal_text, lemma_texts_push, same_text, texts, texts_contain,
};

verus! {

/// The version of the stored form.
pub const STATE_VERSION: u32 = 3;

/// What the dashboard remembers between runs.
#[derive(Debug, PartialEq, Eq)]
pub struct LifecycleData {
    pub version: u32,
    pub initialized: bool,
    pub tracked_sessions: Vec<String>,
    pub pinned_sessions: Vec<String>,
    pub preview_verbosity: PreviewVerbosity,
}

/// The registry of sessions, with the place of its stored form.
#[derive(Debug)]
pub struct LifecycleStore {
    pub path: String,
    pub data: LifecycleData,
    pub dirty: bool,
}

/// The mathematical form of the registry.
#[verifier::ext_equal]
pub struct LifecycleView {
    pub path: Seq<char>,
    pub version: u32,
    pub initialized: bool,
    pub adopted: Set<Seq<char>>,
    pub pinned: Set<Seq<char>>,
    pub verbosity: PreviewVerbosity,
    pub dirty: bool,
}

/// The mathematical form of what is remembered.
#[verifier::ext_equal]
pub struct DataView {
    pub version: u32,
    pub initialized: bool,
    pub adopted: Set<Seq<char>>,
    pub pinned: Set<Seq<char>>,
    pub verbosity: PreviewVerbosity,
}

/// The identifiers in a list.
#[verifier::opaque]
pub open spec fn id_set(ids: Seq<String>) -> Set<Seq<char>> {
    Set::new(|id: Seq<char>| texts(ids).contains(id))
}

/// No identifier occurs twice in a list.
#[verifier::opaque]
pub open spec fn distinct_ids(ids: Seq<String>) -> bool {
    texts(ids).no_duplicates()
}

impl View for LifecycleData {
    type V = DataView;

    open spec fn view(&self) -> DataView {
        DataView {
            version: self.version,
            initialized: self.initialized,
            adopted: id_set(self.tracked_sessions@),
            pinned: id_set(self.pinned_sessions@),
            verbosity: self.preview_verbosity,
        }
    }
}

impl View for LifecycleStore {
    type V = LifecycleView;

    open spec fn view(&self) -> LifecycleView {
        LifecycleView {
            path: self.path@,
            version: self.data.version,
            initialized: self.data.initialized,
            adopted: id_set(self.data.tracked_sessions@),
            pinned: id_set(self.data.pinned_sessions@),
            verbosity: self.data.preview_verbosity,
            dirty: self.dirty,
        }
    }
}

impl LifecycleView {
    /// A registry that was never stored.
    pub open spec fn fresh(path: Seq<char>) -> LifecycleView {
        LifecycleView {
            path,
            version: STATE_VERSION,
            initialized: false,
            adopted: Set::empty(),
            pinned: Set::empty(),
            verbosity: PreviewVerbosity::Full,
            dirty: false,
        }
    }

    /// The registry with what was stored at a path.
    pub open spec fn loaded(path: Seq<char>, stored: Option<DataView>) -> LifecycleView {
        match stored {
            Some(data) => LifecycleView {
                path,
                version: data.version,
                initialized: data.initialized,
                adopted: data.adopted,
                pinned: data.pinned,
                verbosity: data.verbosity,
                dirty: false,
            },
            None => LifecycleView::fresh(path),
        }
    }

    /// The registry when its stored form is made: a changed one has the current
    /// version from then on.
    pub open spec fn storing(self) -> LifecycleView {
        LifecycleView {
            version: if self.dirty {
                STATE_VERSION
            } else {
                self.version
            },
            ..self
        }
    }

    /// What has to be stored; nothing where the stored form is up to date.
    pub open spec fn to_store(self) -> Option<DataView> {
        if self.dirty {
            Some(
                DataView {
                    version: STATE_VERSION,
                    initialized: self.initialized,
                    adopted: self.adopted,
                    pinned: self.pinned,
                    verbosity: self.verbosity,
                },
            )
        } else {
            None
        }
    }

    /// The registry after its stored form was written.
    pub open spec fn saved(self) -> LifecycleView {
        LifecycleView { dirty: false, ..self }
    }

    /// The registry with a session in it.
    pub open spec fn track(self, id: Seq<char>) -> LifecycleView {
        LifecycleView {
            adopted: self.adopted.insert(id),
            dirty: self.dirty || !self.adopted.contains(id),
            ..self
        }
    }

    /// The registry without a session.
    pub open spec fn dismiss(self, id: Seq<char>) -> LifecycleView {
        LifecycleView {
            adopted: self.adopted.remove(id),
            pinned: self.pinned.remove(id),
            dirty: self.dirty || self.adopted.contains(id) || self.pinned.contains(id),
            ..self
        }
    }

    /// The registry with a session pinned, or no longer pinned. A pinned session
    /// is in the registry.
    pub open spec fn toggle_pin(self, id: Seq<char>) -> LifecycleView {
        if self.pinned.contains(id) {
            LifecycleView { pinned: self.pinned.remove(id), dirty: true, ..self }
        } else {
            LifecycleView {
                pinned: self.pinned.insert(id),
                adopted: self.adopted.insert(id),
                dirty: true,
                ..self
            }
        }
    }

    /// The registry after the first complete list of threads: what is not among
    /// them is forgotten.
    pub open spec fn finish_initial_scan(self, seen: Set<Seq<char>>) -> LifecycleView {
        LifecycleView {
            initialized: true,
            adopted: self.adopted.intersect(seen),
            pinned: self.pinned.intersect(seen),
            dirty: self.dirty || !self.initialized || !self.adopted.subset_of(seen)
                || !self.pinned.subset_of(seen),
            ..self
        }
    }

    /// The registry with another preview level.
    pub open spec fn with_verbosity(self, verbosity: PreviewVerbosity) -> LifecycleView {
        LifecycleView {
            verbosity,
            dirty: self.dirty || self.verbosity != verbosity,
            ..self
        }
    }
}

/// The mathematical form of what may have been stored.
pub open spec fn stored_view(stored: Option<LifecycleData>) -> Option<DataView> {
    match stored {
        Some(data) => Some(data@),
        None => None,
    }
}

/// Adds an identifier that is not there yet. Tells whether it is new.
pub fn insert_id(ids: &mut Vec<String>, id: &str) -> (added: bool)
    ensures
        added == !id_set(old(ids)@).contains(id@),
        id_set(final(ids)@) == id_set(old(ids)@).insert(id@),
        distinct_ids(old(ids)@) ==> distinct_ids(final(ids)@),
{
    reveal(id_set);
    reveal(distinct_ids);
    let ghost before = ids@;
    if texts_contain(ids, id) {
        assert(id_set(before) =~= id_set(before).insert(id@));
        return false;
    }
    let copy = id.to_owned();
    proof {
        lemma_texts_push(before, copy);
    }
    ids.push(copy);
    proof {
        let old_texts = texts(before);
        let new_texts = texts(ids@);
        assert forall|x: Seq<char>| #[trigger] id_set(ids@).contains(x) == id_set(before).insert(
            id@,
        ).contains(x) by {
            if new_texts.contains(x) {
                let i = choose|i: int| 0 <= i < new_texts.len() && new_texts[i] == x;
                if i < old_texts.len() {
                    assert(old_texts[i] == x);
                }
            }
            if old_texts.contains(x) {
                let i = choose|i: int| 0 <= i < old_texts.len() && old_texts[i] == x;
                assert(new_texts[i] == x);
            }
            assert(new_texts[old_texts.len() as int] == id@);
        }
        assert(id_set(ids@) =~= id_set(before).insert(id@));
    }
    true
}

/// Keeps the identifiers that a test accepts: those of another list, or all but
/// one.
fn keep_ids(ids: &Vec<String>, seen: Option<&Vec<String>>, unwanted: &str) -> (kept: (
    Vec<String>,
    bool,
))
    ensures
        ({
            let wanted = |x: Seq<char>|
                match seen {
                    Some(seen) => id_set(seen@).contains(x),
                    None => x != unwanted@,
                };
            &&& forall|x: Seq<char>| #[trigger]
                id_set(kept.0@).contains(x) == (id_set(ids@).contains(x) && wanted(x))
            &&& kept.1 == exists|x: Seq<char>| #[trigger] id_set(ids@).contains(x) && !wanted(x)
        }),
        distinct_ids(ids@) ==> distinct_ids(kept.0@),
{
    reveal(id_set);
    reveal(distinct_ids);
    let ghost wanted = |x: Seq<char>|
        match seen {
            Some(seen) => id_set(seen@).contains(x),
            None => x != unwanted@,
        };
    let mut kept: Vec<String> = Vec::new();
    let mut removed = false;
    let mut i: usize = 0;
    let ghost all = texts(ids@);
    while i < ids.len()
        invariant
            i <= ids.len(),
            all == texts(ids@),
            wanted == (|x: Seq<char>|
                match seen {
                    Some(seen) => id_set(seen@).contains(x),
                    None => x != unwanted@,
                }),
            forall|k: int| 0 <= k < i ==> (wanted(#[trigger] all[k]) ==> texts(kept@).contains(all[k])),
            forall|k: int|
                0 <= k < kept.len() ==> wanted((#[trigger] texts(kept@)[k])) && all.contains(
                    texts(kept@)[k],
                ),
            removed ==> exists|k: int| 0 <= k < i && !wanted(#[trigger] all[k]),
            !removed ==> forall|k: int| 0 <= k < i ==> wanted(#[trigger] all[k]),
            forall|k: int|
                0 <= k < kept.len() ==> all.take(i as int).contains(#[trigger] texts(kept@)[k]),
            all.no_duplicates() ==> texts(kept@).no_duplicates(),
        decreases ids.len() - i,
    {
        reveal(id_set);
        proof {
            let earlier = all.take(i as int);
            let later = all.take(i + 1);
            assert forall|x: Seq<char>| #[trigger] earlier.contains(x) implies later.contains(x)
                && (all.no_duplicates() ==> x != all[i as int]) by {
                let m = choose|m: int| 0 <= m < earlier.len() && earlier[m] == x;
                assert(later[m] == x && all[m] == x);
            }
            assert(later[i as int] == all[i as int]);
        }
        let id = ids[i].as_str();
        assert(all[i as int] == id@);
        assert(all.contains(id@));
        let keep = match seen {
            Some(seen) => {
                assert(id_set(seen@).contains(id@) == texts(seen@).contains(id@));
                texts_contain(seen, id)
            },
            None => !same_text(id, unwanted),
        };
        if keep {
            let copy = id.to_owned();
            let ghost before = texts(kept@);
            proof {
                lemma_texts_push(kept@, copy);
            }
            kept.push(copy);
            proof {
                assert(texts(kept@)[before.len() as int] == id@);
                assert forall|k: int| 0 <= k < i + 1 && wanted(#[trigger] all[k]) implies texts(
                    kept@,
                ).contains(all[k]) by {
                    if k < i {
                        let m = choose|m: int| 0 <= m < before.len() && before[m] == all[k];
                        assert(texts(kept@)[m] == all[k]);
                    }
                }
                assert forall|k: int| 0 <= k < kept.len() implies wanted(
                    (#[trigger] texts(kept@)[k]),
                ) && all.contains(texts(kept@)[k]) by {
                    if k < before.len() {
                        assert(texts(kept@)[k] == before[k]);
                    }
                }
            }
        } else {
            removed = true;
        }
        i += 1;
    }
    proof {
        assert forall|x: Seq<char>| #[trigger]
            id_set(kept@).contains(x) == (id_set(ids@).contains(x) && wanted(x)) by {
            if texts(kept@).contains(x) {
                let k = choose|k: int| 0 <= k < texts(kept@).len() && texts(kept@)[k] == x;
                assert(wanted(texts(kept@)[k]));
            }
            if all.contains(x) && wanted(x) {
                let k = choose|k: int| 0 <= k < all.len() && all[k] == x;
                assert(wanted(all[k]));
            }
        }
        if removed {
            let k = choose|k: int| 0 <= k < ids.len() && !wanted(#[trigger] all[k]);
            assert(id_set(ids@).contains(all[k]) && !wanted(all[k]));
        } else {
            assert forall|x: Seq<char>| #[trigger] id_set(ids@).contains(x) implies wanted(x) by {
                let k = choose|k: int| 0 <= k < all.len() && all[k] == x;
                assert(wanted(all[k]));
            }
        }
    }
    (kept, removed)
}

/// Removes an identifier. Tells whether it was there.
pub fn remove_id(ids: &mut Vec<String>, id: &str) -> (removed: bool)
    ensures
        removed == id_set(old(ids)@).contains(id@),
        id_set(final(ids)@) == id_set(old(ids)@).remove(id@),
        distinct_ids(old(ids)@) ==> distinct_ids(final(ids)@),
{
    let (kept, removed) = keep_ids(ids, None, id);
    proof {
        assert(id_set(kept@) =~= id_set(ids@).remove(id@));
        if id_set(ids@).contains(id@) {
            assert(removed);
        }
    }
    *ids = kept;
    removed
}

fn retain_ids(ids: &mut Vec<String>, seen: &Vec<String>) -> (removed: bool)
    ensures
        removed == !id_set(old(ids)@).subset_of(id_set(seen@)),
        id_set(final(ids)@) == id_set(old(ids)@).intersect(id_set(seen@)),
        distinct_ids(old(ids)@) ==> distinct_ids(final(ids)@),
{
    let (kept, removed) = keep_ids(ids, Some(seen), "");
    assert(id_set(kept@) =~= id_set(ids@).intersect(id_set(seen@)));
    *ids = kept;
    removed
}

/// The identifiers of a list, each one once.
fn unique_ids(ids: &Vec<String>) -> (unique: Vec<String>)
    ensures
        id_set(unique@) == id_set(ids@),
        distinct_ids(unique@),
{
    let mut unique: Vec<String> = Vec::new();
    let mut i: usize = 0;
    proof {
        reveal(id_set);
        reveal(distinct_ids);
        assert(id_set(unique@) =~= id_set(ids@.take(0)));
    }
    while i < ids.len()
        invariant
            i <= ids.len(),
            id_set(unique@) == id_set(ids@.take(i as int)),
            distinct_ids(unique@),
        decreases ids.len() - i,
    {
        insert_id(&mut unique, ids[i].as_str());
        proof {
            reveal(id_set);
            let front = ids@.take(i as int);
            let longer = ids@.take(i + 1);
            assert(longer =~= front.push(ids@[i as int]));
            lemma_texts_push(front, ids@[i as int]);
            assert forall|x: Seq<char>| #[trigger] id_set(longer).contains(x) == id_set(
                front,
            ).insert(ids@[i as int]@).contains(x) by {
                let old_texts = texts(front);
                let new_texts = texts(longer);
                if new_texts.contains(x) {
                    let k = choose|k: int| 0 <= k < new_texts.len() && new_texts[k] == x;
                    if k < old_texts.len() {
                        assert(old_texts[k] == x);
                    }
                }
                if old_texts.contains(x) {
                    let k = choose|k: int| 0 <= k < old_texts.len() && old_texts[k] == x;
                    assert(new_texts[k] == x);
                }
                assert(new_texts[old_texts.len() as int] == ids@[i as int]@);
            }
            assert(id_set(longer) =~= id_set(front).insert(ids@[i as int]@));
        }
        i += 1;
    }
    assert(ids@.take(ids@.len() as int) =~= ids@);
    unique
}

impl LifecycleData {
    /// Whether no session is listed twice.
    pub open spec fn wf(self) -> bool {
        distinct_ids(self.tracked_sessions@) && distinct_ids(self.pinned_sessions@)
    }

    /// What is remembered before anything was stored.
    pub fn fresh() -> (data: LifecycleData)
        ensures
            data.version == STATE_VERSION,
            !data.initialized,
            data.tracked_sessions@.len() == 0,
            data.pinned_sessions@.len() == 0,
            data.preview_verbosity == PreviewVerbosity::Full,
    {
        LifecycleData {
            version: STATE_VERSION,
            initialized: false,
            tracked_sessions: Vec::new(),
            pinned_sessions: Vec::new(),
            preview_verbosity: PreviewVerbosity::Full,
        }
    }
}

impl LifecycleStore {
    /// The registry with what was stored at a path; a fresh one where there was
    /// nothing.
    pub fn load(path: String, stored: Option<LifecycleData>) -> (store: LifecycleStore)
        ensures
            store@ == LifecycleView::loaded(path@, stored_view(stored)),
            store.data.wf(),
    {
        match stored {
            Some(data) => {
                let data = LifecycleData {
                    tracked_sessions: unique_ids(&data.tracked_sessions),
                    pinned_sessions: unique_ids(&data.pinned_sessions),
                    ..data
                };
                LifecycleStore { path, data, dirty: false }
            },
            None => {
                let store = LifecycleStore { path, data: LifecycleData::fresh(), dirty: false };
                proof {
                    reveal(id_set);
                    reveal(distinct_ids);
                    assert(store@.adopted =~= Set::empty());
                    assert(store@.pinned =~= Set::empty());
                }
                store
            },
        }
    }

    /// A fresh registry.
    pub fn for_test(path: String) -> (store: LifecycleStore)
        ensures
            store@ == LifecycleView::fresh(path@),
            store.data.wf(),
    {
        LifecycleStore::load(path, None)
    }

    /// Whether a complete list of threads was seen before.
    pub fn is_initialized(&self) -> (initialized: bool)
        ensures
            initialized == self@.initialized,
    {
        self.data.initialized
    }

    /// Whether a session belongs to the dashboard.
    pub fn contains(&self, thread_id: &str) -> (found: bool)
        ensures
            found == self@.adopted.contains(thread_id@),
    {
        reveal(id_set);
        texts_contain(&self.data.tracked_sessions, thread_id)
    }

    /// Whether a session is pinned.
    pub fn is_pinned(&self, thread_id: &str) -> (pinned: bool)
        ensures
            pinned == self@.pinned.contains(thread_id@),
    {
        reveal(id_set);
        texts_contain(&self.data.pinned_sessions, thread_id)
    }

    /// How much the preview shows.
    pub fn preview_verbosity(&self) -> (verbosity: PreviewVerbosity)
        ensures
            verbosity == self@.verbosity,
    {
        self.data.preview_verbosity
    }

    /// Chooses how much the preview shows.
    pub fn set_preview_verbosity(&mut self, verbosity: PreviewVerbosity)
        ensures
            final(self)@ == old(self)@.with_verbosity(verbosity),
            old(self).data.wf() ==> final(self).data.wf(),
    {
        if self.data.preview_verbosity != verbosity {
            self.data.preview_verbosity = verbosity;
            self.dirty = true;
        }
    }

    /// Takes a session into the dashboard.
    pub fn track(&mut self, thread_id: &str)
        ensures
            final(self)@ == old(self)@.track(thread_id@),
            old(self).data.wf() ==> final(self).data.wf(),
    {
        if insert_id(&mut self.data.tracked_sessions, thread_id) {
            self.dirty = true;
        }
    }

    /// Takes a session out of the dashboard.
    pub fn dismiss(&mut self, thread_id: &str)
        ensures
            final(self)@ == old(self)@.dismiss(thread_id@),
            old(self).data.wf() ==> final(self).data.wf(),
    {
        let removed_tracked = remove_id(&mut self.data.tracked_sessions, thread_id);
        let removed_pinned = remove_id(&mut self.data.pinned_sessions, thread_id);
        if removed_tracked || removed_pinned {
            self.dirty = true;
        }
    }

    /// Pins a session, or takes its pin away. Tells whether it is pinned now.
    pub fn toggle_pin(&mut self, thread_id: &str) -> (pinned: bool)
        ensures
            pinned == !old(self)@.pinned.contains(thread_id@),
            final(self)@ == old(self)@.toggle_pin(thread_id@),
            old(self).data.wf() ==> final(self).data.wf(),
    {
        let ghost before = self@;
        let removed = remove_id(&mut self.data.pinned_sessions, thread_id);
        self.dirty = true;
        if removed {
            false
        } else {
            proof {
                assert(before.pinned.remove(thread_id@) =~= before.pinned);
            }
            insert_id(&mut self.data.pinned_sessions, thread_id);
            insert_id(&mut self.data.tracked_sessions, thread_id);
            true
        }
    }

    /// Forgets the sessions that the first complete list of threads lacks.
    pub fn finish_initial_scan(&mut self, seen: &Vec<String>)
        ensures
            final(self)@ == old(self)@.finish_initial_scan(id_set(seen@)),
            old(self).data.wf() ==> final(self).data.wf(),
    {
        if !self.data.initialized {
            self.data.initialized = true;
            self.dirty = true;
        }
        let lost_tracked = retain_ids(&mut self.data.tracked_sessions, seen);
        let lost_pinned = retain_ids(&mut self.data.pinned_sessions, seen);
        if lost_tracked || lost_pinned {
            self.dirty = true;
        }
    }

    /// What has to be stored, in the current version; nothing where the stored
    /// form is up to date.
    pub fn to_store(&mut self) -> (data: Option<LifecycleData>)
        ensures
            stored_view(data) == old(self)@.to_store(),
            old(self).data.wf() ==> (data matches Some(data) ==> data.wf()),
            final(self)@ == old(self)@.storing(),
            old(self).data.wf() ==> final(self).data.wf(),
    {
        if !self.dirty {
            return None;
        }
        self.data.version = STATE_VERSION;
        let tracked_sessions = copy_texts(&self.data.tracked_sessions);
        let pinned_sessions = copy_texts(&self.data.pinned_sessions);
        proof {
            reveal(id_set);
            reveal(distinct_ids);
            assert(id_set(tracked_sessions@) =~= self@.adopted);
            assert(id_set(pinned_sessions@) =~= self@.pinned);
        }
        Some(
            LifecycleData {
                version: STATE_VERSION,
                initialized: self.data.initialized,
                tracked_sessions,
                pinned_sessions,
                preview_verbosity: self.data.preview_verbosity,
            },
        )
    }

    /// Notes that the stored form is up to date.
    pub fn saved(&mut self)
        ensures
            final(self)@ == old(self)@.saved(),
            old(self).data.wf() ==> final(self).data.wf(),
    {
        self.dirty = false;
    }
}

/// The name of the file that a new stored form is written to before it replaces
/// the old one.
pub fn temporary_name(path: &str, process: u32) -> (name: String)
    ensures
        name@ == "."@ + (match file_name(path@) {
            Some(name) => name,
            None => "lifecycle.json"@,
        }) + ".tmp-"@ + decimal(process as nat),
{
    let file = match path_file_name(path) {
        Some(name) => name,
        None => "lifecycle.json".to_owned(),
    };
    let mut name = ".".to_owned();
    name.append(file.as_str());
    name.append(".tmp-");
    name.append(decimal_text(process as u64).as_str());
    name
}

/// Every pinned session belongs to the dashboard.
pub open spec fn pins_are_tracked(store: LifecycleView) -> bool {
    store.pinned.subset_of(store.adopted)
}

/// No operation leaves a pinned session outside of the dashboard.
pub proof fn law_pinned_sessions_stay_tracked(
    store: LifecycleView,
    id: Seq<char>,
    seen: Set<Seq<char>>,
    path: Seq<char>,
)
    requires
        pins_are_tracked(store),
    ensures
        pins_are_tracked(LifecycleView::fresh(path)),
        pins_are_tracked(store.track(id)),
        pins_are_tracked(store.dismiss(id)),
        pins_are_tracked(store.toggle_pin(id)),
        pins_are_tracked(store.finish_initial_scan(seen)),
{
}

/// An adopted session is there until it is dismissed, and then it is gone, pin and
/// all; other sessions are not touched.
pub proof fn law_dismissing_undoes_tracking(store: LifecycleView, id: Seq<char>, other: Seq<char>)
    requires
        other != id,
    ensures
        store.track(id).adopted.contains(id),
        !store.track(id).dismiss(id).adopted.contains(id),
        !store.dismiss(id).pinned.contains(id),
        store.track(id).adopted.contains(other) == store.adopted.contains(other),
        store.dismiss(id).adopted.contains(other) == store.adopted.contains(other),
        store.dismiss(id).pinned.contains(other) == store.pinned.contains(other),
{
}

/// Pinning twice leaves the pins as they were.
pub proof fn law_pinning_twice_restores_the_pins(store: LifecycleView, id: Seq<char>)
    ensures
        store.toggle_pin(id).toggle_pin(id).pinned == store.pinned,
        store.toggle_pin(id).pinned.contains(id) == !store.pinned.contains(id),
{
    assert(store.toggle_pin(id).toggle_pin(id).pinned =~= store.pinned);
}

/// An operation that changes nothing leaves nothing to store.
pub proof fn law_unchanged_registries_need_no_saving(store: LifecycleView, id: Seq<char>)
    requires
        !store.dirty,
    ensures
        store.adopted.contains(id) ==> store.track(id) == store,
        !store.adopted.contains(id) && !store.pinned.contains(id) ==> store.dismiss(id) == store,
        store.with_verbosity(store.verbosity) == store,
{
    if store.adopted.contains(id) {
        assert(store.adopted.insert(id) =~= store.adopted);
    }
    if !store.adopted.contains(id) && !store.pinned.contains(id) {
        assert(store.adopted.remove(id) =~= store.adopted);
        assert(store.pinned.remove(id) =~= store.pinned);
    }
}

/// Whether two registries hold the same.
pub open spec fn same_contents(one: LifecycleView, other: LifecycleView) -> bool {
    &&& one.initialized == other.initialized
    &&& one.adopted == other.adopted
    &&& one.pinned == other.pinned
    &&& one.verbosity == other.verbosity
}

/// Whether the file of a registry holds the same, unless there is something to
/// store.
pub open spec fn in_step(store: LifecycleView, file: Option<DataView>) -> bool {
    !store.dirty ==> same_contents(store, LifecycleView::loaded(store.path, file))
}

/// The file of a registry after saving: rewritten where there is something to
/// store.
pub open spec fn written(store: LifecycleView, file: Option<DataView>) -> Option<DataView> {
    match store.to_store() {
        Some(data) => Some(data),
        None => file,
    }
}

/// A registry that was loaded stays in step with its file, whatever is done to it,
/// also by saving it.
pub proof fn law_registries_stay_in_step_with_their_files(
    store: LifecycleView,
    file: Option<DataView>,
    id: Seq<char>,
    seen: Set<Seq<char>>,
    verbosity: PreviewVerbosity,
)
    requires
        in_step(store, file),
    ensures
        in_step(LifecycleView::loaded(store.path, file), file),
        in_step(store.track(id), file),
        in_step(store.dismiss(id), file),
        in_step(store.toggle_pin(id), file),
        in_step(store.finish_initial_scan(seen), file),
        in_step(store.with_verbosity(verbosity), file),
        in_step(store.storing(), file),
        in_step(store.storing().saved(), written(store, file)),
{
    if store.adopted.contains(id) {
        assert(store.adopted.insert(id) =~= store.adopted);
    }
    if !store.adopted.contains(id) && !store.pinned.contains(id) {
        assert(store.adopted.remove(id) =~= store.adopted);
        assert(store.pinned.remove(id) =~= store.pinned);
    }
    if store.adopted.subset_of(seen) && store.pinned.subset_of(seen) {
        assert(store.adopted.intersect(seen) =~= store.adopted);
        assert(store.pinned.intersect(seen) =~= store.pinned);
    }
}

/// Loading what was saved gives the same registry again, with nothing to store. It
/// has the current version where there was something to store.
pub proof fn law_loading_gives_back_what_was_saved(store: LifecycleView, file: Option<DataView>)
    requires
        in_step(store, file),
    ensures
        ({
            let again = LifecycleView::loaded(store.path, written(store, file));
            &&& same_contents(again, store)
            &&& !again.dirty
            &&& store.dirty ==> again == store.storing().saved()
        }),
{
}

} // verus!
