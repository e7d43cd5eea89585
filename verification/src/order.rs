//! The order of the sessions on the dashboard.

use vstd::prelude::*;

use crate::lifecycle::LifecycleStore;
use crate::model::{Session, SessionView, status_is_live, status_rank};
use crate::text::chars_of;
use crate::views::{group_views, views};

verus! {

broadcast use group_views;

/// Whether a text comes before another, character by character.
pub open spec fn text_less(a: Seq<char>, b: Seq<char>) -> bool
    decreases a.len(),
{
    if b.len() == 0 {
        false
    } else if a.len() == 0 {
        true
    } else if a[0] != b[0] {
        a[0] < b[0]
    } else {
        text_less(a.drop_first(), b.drop_first())
    }
}

/// The group of a session: the pinned ones, those with a turn going on, the rest.
pub open spec fn session_group(session: SessionView, pinned: Set<Seq<char>>) -> int {
    if pinned.contains(session.id) {
        0
    } else if status_is_live(session.status) {
        1
    } else {
        2
    }
}

/// Whether a session stands before another: by group, by status, by the last
/// change, and by title.
pub open spec fn goes_before(a: SessionView, b: SessionView, pinned: Set<Seq<char>>) -> bool {
    if session_group(a, pinned) != session_group(b, pinned) {
        session_group(a, pinned) < session_group(b, pinned)
    } else if status_rank(a.status) != status_rank(b.status) {
        status_rank(a.status) < status_rank(b.status)
    } else if a.updated_at != b.updated_at {
        a.updated_at > b.updated_at
    } else {
        text_less(a.title, b.title)
    }
}

/// The place of a session among others that are in order: behind all that it does
/// not stand before.
pub open spec fn place_of(
    sessions: Seq<SessionView>,
    session: SessionView,
    pinned: Set<Seq<char>>,
) -> int
    decreases sessions.len(),
{
    if sessions.len() == 0 || goes_before(session, sessions[0], pinned) {
        0
    } else {
        1 + place_of(sessions.drop_first(), session, pinned)
    }
}

/// Sessions in order; those that neither stands before the other keep theirs.
pub open spec fn sessions_in_order(sessions: Seq<SessionView>, pinned: Set<Seq<char>>) -> Seq<SessionView>
    decreases sessions.len(),
{
    if sessions.len() == 0 {
        seq![]
    } else {
        let before = sessions_in_order(sessions.drop_last(), pinned);
        before.insert(place_of(before, sessions.last(), pinned), sessions.last())
    }
}

/// Whether no session stands behind one that it goes before.
pub open spec fn is_ordered(sessions: Seq<SessionView>, pinned: Set<Seq<char>>) -> bool {
    forall|i: int, j: int|
        0 <= i < j < sessions.len() ==> !goes_before(
            #[trigger] sessions[j],
            #[trigger] sessions[i],
            pinned,
        )
}

proof fn lemma_text_less_transitive(a: Seq<char>, b: Seq<char>, c: Seq<char>)
    requires
        text_less(a, b),
        text_less(b, c),
    ensures
        text_less(a, c),
    decreases a.len(),
{
    if a.len() > 0 && b.len() > 0 && c.len() > 0 && a[0] == b[0] && b[0] == c[0] {
        lemma_text_less_transitive(a.drop_first(), b.drop_first(), c.drop_first());
    }
}

proof fn lemma_goes_before_transitive(
    a: SessionView,
    b: SessionView,
    c: SessionView,
    pinned: Set<Seq<char>>,
)
    requires
        goes_before(a, b, pinned),
        goes_before(b, c, pinned),
    ensures
        goes_before(a, c, pinned),
{
    if session_group(a, pinned) == session_group(b, pinned) && session_group(b, pinned)
        == session_group(c, pinned) && status_rank(a.status) == status_rank(b.status)
        && status_rank(b.status) == status_rank(c.status) && a.updated_at == b.updated_at
        && b.updated_at == c.updated_at {
        lemma_text_less_transitive(a.title, b.title, c.title);
    }
}

pub proof fn lemma_place_of(
    sessions: Seq<SessionView>,
    session: SessionView,
    pinned: Set<Seq<char>>,
)
    ensures
        0 <= place_of(sessions, session, pinned) <= sessions.len(),
        forall|i: int|
            0 <= i < place_of(sessions, session, pinned) ==> !goes_before(
                session,
                #[trigger] sessions[i],
                pinned,
            ),
        place_of(sessions, session, pinned) < sessions.len() ==> goes_before(
            session,
            sessions[place_of(sessions, session, pinned)],
            pinned,
        ),
    decreases sessions.len(),
{
    if sessions.len() > 0 && !goes_before(session, sessions[0], pinned) {
        let rest = sessions.drop_first();
        lemma_place_of(rest, session, pinned);
        assert forall|i: int| 0 < i < sessions.len() implies #[trigger] sessions[i] == rest[i
            - 1] by {}
    }
}

/// The dashboard shows its sessions in order: pinned ones first, then those with
/// a turn going on, by status and by their last change. No session is lost or
/// doubled.
pub proof fn law_sessions_are_shown_in_order(sessions: Seq<SessionView>, pinned: Set<Seq<char>>)
    ensures
        is_ordered(sessions_in_order(sessions, pinned), pinned),
        sessions_in_order(sessions, pinned).to_multiset() == sessions.to_multiset(),
        sessions_in_order(sessions, pinned).len() == sessions.len(),
    decreases sessions.len(),
{
    broadcast use vstd::seq_lib::group_to_multiset_ensures;

    if sessions.len() > 0 {
        let front = sessions.drop_last();
        let last = sessions.last();
        law_sessions_are_shown_in_order(front, pinned);
        let before = sessions_in_order(front, pinned);
        let place = place_of(before, last, pinned);
        lemma_place_of(before, last, pinned);
        let after = sessions_in_order(sessions, pinned);
        assert forall|i: int, j: int| 0 <= i < j < after.len() implies !goes_before(
            #[trigger] after[j],
            #[trigger] after[i],
            pinned,
        ) by {
            if j < place {
                assert(after[i] == before[i] && after[j] == before[j]);
            } else if j == place {
                assert(after[i] == before[i]);
            } else if i > place {
                assert(after[i] == before[i - 1] && after[j] == before[j - 1]);
            } else if i < place {
                assert(after[i] == before[i] && after[j] == before[j - 1]);
            } else {
                assert(after[j] == before[j - 1]);
                if goes_before(after[j], last, pinned) {
                    lemma_goes_before_transitive(after[j], last, before[place], pinned);
                    if j - 1 > place {
                        assert(!goes_before(before[j - 1], before[place], pinned));
                    }
                    assert(goes_before(before[place], before[place], pinned) || j - 1 > place);
                    lemma_not_before_itself(before[place], pinned);
                }
            }
        }
        assert(sessions =~= front.push(last));
        assert(after.to_multiset() =~= before.to_multiset().insert(last)) by {
            vstd::seq_lib::to_multiset_insert(before, place, last);
        }
        assert(sessions.to_multiset() =~= front.to_multiset().insert(last));
    }
}

proof fn lemma_text_not_less_itself(a: Seq<char>)
    ensures
        !text_less(a, a),
    decreases a.len(),
{
    if a.len() > 0 {
        lemma_text_not_less_itself(a.drop_first());
    }
}

proof fn lemma_not_before_itself(a: SessionView, pinned: Set<Seq<char>>)
    ensures
        !goes_before(a, a, pinned),
{
    lemma_text_not_less_itself(a.title);
}

fn comes_before(a: &str, b: &str) -> (less: bool)
    ensures
        less == text_less(a@, b@),
{
    let left = chars_of(a);
    let right = chars_of(b);
    let mut i: usize = 0;
    assert(a@.skip(0) =~= a@ && b@.skip(0) =~= b@);
    while i < left.len() && i < right.len()
        invariant
            i <= left.len(),
            i <= right.len(),
            left@ == a@,
            right@ == b@,
            text_less(a@.skip(i as int), b@.skip(i as int)) == text_less(a@, b@),
        decreases left.len() - i,
    {
        proof {
            assert(a@.skip(i as int).drop_first() =~= a@.skip(i + 1));
            assert(b@.skip(i as int).drop_first() =~= b@.skip(i + 1));
        }
        if left[i] != right[i] {
            return left[i] < right[i];
        }
        i += 1;
    }
    i < right.len()
}

fn group_of(session: &Session, lifecycle: &LifecycleStore) -> (group: u8)
    ensures
        group == session_group(session@, lifecycle@.pinned),
{
    if lifecycle.is_pinned(session.id.as_str()) {
        0
    } else if session.status.is_live() {
        1
    } else {
        2
    }
}

fn stands_before(a: &Session, b: &Session, lifecycle: &LifecycleStore) -> (before: bool)
    ensures
        before == goes_before(a@, b@, lifecycle@.pinned),
{
    let left: u8 = group_of(a, lifecycle);
    let right: u8 = group_of(b, lifecycle);
    if left != right {
        return left < right;
    }
    let left: u8 = a.status.sort_rank();
    let right: u8 = b.status.sort_rank();
    if left != right {
        return left < right;
    }
    if a.updated_at != b.updated_at {
        return a.updated_at > b.updated_at;
    }
    comes_before(a.title.as_str(), b.title.as_str())
}

/// Puts sessions in order.
pub fn order_sessions(sessions: Vec<Session>, lifecycle: &LifecycleStore) -> (ordered: Vec<Session>)
    ensures
        views(ordered@) == sessions_in_order(views(sessions@), lifecycle@.pinned),
        ordered.len() == sessions.len(),
{
    let ghost all = views(sessions@);
    let ghost pinned = lifecycle@.pinned;
    let ghost count = sessions@.len();
    let mut rest = sessions;
    let mut ordered: Vec<Session> = Vec::new();
    let ghost done: int = 0;
    assert(all.take(0) =~= seq![]);
    assert(all.skip(0) =~= all);
    while rest.len() > 0
        invariant
            0 <= done <= all.len(),
            all.len() == count,
            pinned == lifecycle@.pinned,
            views(rest@) == all.skip(done),
            rest@.len() == all.len() - done,
            views(ordered@) == sessions_in_order(all.take(done), pinned),
            ordered@.len() == done,
        decreases rest.len(),
    {
        let session = rest.remove(0);
        let ghost current = session@;
        proof {
            assert(views(rest@) =~= all.skip(done + 1));
            assert(all.skip(done)[0] == current);
            assert(all.take(done + 1).drop_last() =~= all.take(done));
            assert(all.take(done + 1).last() == current);
            assert(views(ordered@).skip(0) =~= views(ordered@));
        }
        let ghost before = views(ordered@);
        let mut place: usize = 0;
        while place < ordered.len() && !stands_before(&session, &ordered[place], lifecycle)
            invariant
                place <= ordered.len(),
                before == views(ordered@),
                pinned == lifecycle@.pinned,
                current == session@,
                place_of(before, current, pinned) == place + place_of(
                    before.skip(place as int),
                    current,
                    pinned,
                ),
            decreases ordered.len() - place,
        {
            assert(before.skip(place as int)[0] == ordered@[place as int]@);
            assert(before.skip(place as int).drop_first() =~= before.skip(place + 1));
            place += 1;
        }
        proof {
            if place < ordered.len() {
                assert(before.skip(place as int)[0] == ordered@[place as int]@);
            }
        }
        ordered.insert(place, session);
        proof {
            done = done + 1;
        }
    }
    assert(all.take(all.len() as int) =~= all);
    ordered
}

} // verus!
