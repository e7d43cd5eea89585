//! Finding and changing entries in the lists of the dashboard.

use vstd::prelude::*;

use crate::assoc::{key_slot, lemma_key_slot_is, lemma_no_key_slot, lookup, put, without_key};
use crate::composer::Composer;
use crate::deck::{
    is_reading, request_slot, session_slot, with_session, without_requests, without_session,
};
use crate::model::{MessageKind, Session};
use crate::state::{
    call_views, CallView, draft_views, kind_views, option_view, PendingCall, PendingRequest,
    reply_views,
};
use crate::text::{option_text, same_text};
use crate::views::{group_views, views};

verus! {

broadcast use group_views;

/// Finds the first session with an identifier.
pub fn find_session(sessions: &Vec<Session>, id: &str) -> (found: Option<usize>)
    ensures
        match found {
            Some(i) => i < sessions.len() && session_slot(views(sessions@), id@) == Some(i as int),
            None => session_slot(views(sessions@), id@) is None,
        },
{
    let ghost all = views(sessions@);
    let mut i: usize = 0;
    assert(all.skip(0) =~= all);
    while i < sessions.len()
        invariant
            i <= sessions.len(),
            all == views(sessions@),
            session_slot(all, id@) == (match session_slot(all.skip(i as int), id@) {
                Some(k) => Some(k + i),
                None => None,
            }),
        decreases sessions.len() - i,
    {
        assert(all.skip(i as int)[0] == sessions@[i as int]@);
        assert(all.skip(i as int).drop_first() =~= all.skip(i + 1));
        if same_text(sessions[i].id.as_str(), id) {
            return Some(i);
        }
        i += 1;
    }
    None
}

/// Removes the sessions with an identifier.
pub fn drop_sessions(sessions: &mut Vec<Session>, id: &str)
    ensures
        views(final(sessions)@) == without_session(views(old(sessions)@), id@),
{
    let ghost all = views(sessions@);
    let ghost done: int = 0;
    let mut i: usize = 0;
    assert(all.take(0) =~= seq![]);
    assert(views(sessions@).take(0) =~= seq![]);
    while i < sessions.len()
        invariant
            0 <= done <= all.len(),
            i <= sessions.len(),
            sessions.len() - i == all.len() - done,
            views(sessions@).take(i as int) == without_session(all.take(done), id@),
            views(sessions@).skip(i as int) == all.skip(done),
        decreases sessions.len() - i,
    {
        let ghost before = views(sessions@);
        proof {
            assert(before.skip(i as int)[0] == sessions@[i as int]@);
            assert(all.skip(done)[0] == all[done]);
            assert(all.take(done + 1).drop_last() =~= all.take(done));
            assert(all.take(done + 1).last() == all[done]);
            assert(all.skip(done).drop_first() =~= all.skip(done + 1));
            assert(before.skip(i as int).drop_first() =~= before.skip(i + 1));
        }
        if same_text(sessions[i].id.as_str(), id) {
            sessions.remove(i);
            proof {
                assert(views(sessions@).take(i as int) =~= before.take(i as int));
                assert(views(sessions@).skip(i as int) =~= before.skip(i + 1));
            }
        } else {
            assert(before.take(i + 1) =~= before.take(i as int).push(all[done]));
            i += 1;
        }
        proof {
            done = done + 1;
        }
    }
    assert(all.take(all.len() as int) =~= all);
    assert(views(sessions@).take(i as int) =~= views(sessions@));
}

/// Replaces the session with the same identifier, or adds the session.
pub fn put_session(sessions: &mut Vec<Session>, session: Session)
    ensures
        views(final(sessions)@) == with_session(views(old(sessions)@), session@),
{
    match find_session(sessions, session.id.as_str()) {
        Some(i) => {
            sessions.set(i, session);
        },
        None => {
            sessions.push(session);
        },
    }
}

/// Removes the requests of a session.
pub fn drop_requests(requests: &mut Vec<PendingRequest>, id: &str)
    ensures
        views(final(requests)@) == without_requests(views(old(requests)@), id@),
{
    let ghost all = views(requests@);
    let ghost done: int = 0;
    let mut i: usize = 0;
    assert(all.take(0) =~= seq![]);
    assert(views(requests@).take(0) =~= seq![]);
    while i < requests.len()
        invariant
            0 <= done <= all.len(),
            i <= requests.len(),
            requests.len() - i == all.len() - done,
            views(requests@).take(i as int) == without_requests(all.take(done), id@),
            views(requests@).skip(i as int) == all.skip(done),
        decreases requests.len() - i,
    {
        let ghost before = views(requests@);
        proof {
            assert(before.skip(i as int)[0] == requests@[i as int]@);
            assert(all.skip(done)[0] == all[done]);
            assert(all.take(done + 1).drop_last() =~= all.take(done));
            assert(all.take(done + 1).last() == all[done]);
            assert(all.skip(done).drop_first() =~= all.skip(done + 1));
            assert(before.skip(i as int).drop_first() =~= before.skip(i + 1));
        }
        if same_text(requests[i].thread_id.as_str(), id) {
            requests.remove(i);
            proof {
                assert(views(requests@).take(i as int) =~= before.take(i as int));
                assert(views(requests@).skip(i as int) =~= before.skip(i + 1));
            }
        } else {
            assert(before.take(i + 1) =~= before.take(i as int).push(all[done]));
            i += 1;
        }
        proof {
            done = done + 1;
        }
    }
    assert(all.take(all.len() as int) =~= all);
    assert(views(requests@).take(i as int) =~= views(requests@));
}

/// Finds the first request of a session.
pub fn find_request(requests: &Vec<PendingRequest>, id: &str) -> (found: Option<usize>)
    ensures
        match found {
            Some(i) => i < requests.len() && request_slot(views(requests@), id@) == Some(i as int),
            None => request_slot(views(requests@), id@) is None,
        },
{
    let ghost all = views(requests@);
    let mut i: usize = 0;
    assert(all.skip(0) =~= all);
    while i < requests.len()
        invariant
            i <= requests.len(),
            all == views(requests@),
            request_slot(all, id@) == (match request_slot(all.skip(i as int), id@) {
                Some(k) => Some(k + i),
                None => None,
            }),
        decreases requests.len() - i,
    {
        assert(all.skip(i as int)[0] == requests@[i as int]@);
        assert(all.skip(i as int).drop_first() =~= all.skip(i + 1));
        if same_text(requests[i].thread_id.as_str(), id) {
            return Some(i);
        }
        i += 1;
    }
    None
}

/// Finds the draft of a session.
pub fn find_draft(drafts: &Vec<(String, Composer)>, id: &str) -> (found: Option<usize>)
    ensures
        match found {
            Some(i) => i < drafts.len() && key_slot(draft_views(drafts@), id@) == Some(i as int),
            None => key_slot(draft_views(drafts@), id@) is None,
        },
{
    let ghost all = draft_views(drafts@);
    let mut i: usize = 0;
    while i < drafts.len()
        invariant
            i <= drafts.len(),
            all == draft_views(drafts@),
            forall|j: int| 0 <= j < i ==> (#[trigger] all[j]).0 != id@,
        decreases drafts.len() - i,
    {
        if same_text(drafts[i].0.as_str(), id) {
            proof {
                lemma_key_slot_is(all, id@, i as int);
            }
            return Some(i);
        }
        i += 1;
    }
    proof {
        lemma_no_key_slot(all, id@);
    }
    None
}

/// Finds the reply that is queued for a session.
pub fn find_reply(replies: &Vec<(String, String)>, id: &str) -> (found: Option<usize>)
    ensures
        match found {
            Some(i) => i < replies.len() && key_slot(reply_views(replies@), id@) == Some(i as int),
            None => key_slot(reply_views(replies@), id@) is None,
        },
{
    let ghost all = reply_views(replies@);
    let mut i: usize = 0;
    while i < replies.len()
        invariant
            i <= replies.len(),
            all == reply_views(replies@),
            forall|j: int| 0 <= j < i ==> (#[trigger] all[j]).0 != id@,
        decreases replies.len() - i,
    {
        if same_text(replies[i].0.as_str(), id) {
            proof {
                lemma_key_slot_is(all, id@, i as int);
            }
            return Some(i);
        }
        i += 1;
    }
    proof {
        lemma_no_key_slot(all, id@);
    }
    None
}

/// Finds what an item is.
pub fn find_kind(kinds: &Vec<((String, String), MessageKind)>, id: &str, item: &str) -> (found: Option<
    usize,
>)
    ensures
        match found {
            Some(i) => i < kinds.len() && key_slot(kind_views(kinds@), (id@, item@)) == Some(
                i as int,
            ),
            None => key_slot(kind_views(kinds@), (id@, item@)) is None,
        },
{
    let ghost all = kind_views(kinds@);
    let mut i: usize = 0;
    while i < kinds.len()
        invariant
            i <= kinds.len(),
            all == kind_views(kinds@),
            forall|j: int| 0 <= j < i ==> (#[trigger] all[j]).0 != (id@, item@),
        decreases kinds.len() - i,
    {
        if same_text(kinds[i].0.0.as_str(), id) && same_text(kinds[i].0.1.as_str(), item) {
            proof {
                lemma_key_slot_is(all, (id@, item@), i as int);
            }
            return Some(i);
        }
        i += 1;
    }
    proof {
        lemma_no_key_slot(all, (id@, item@));
    }
    None
}

/// Finds a request by its number.
pub fn find_call(calls: &Vec<(u64, PendingCall)>, id: u64) -> (found: Option<usize>)
    ensures
        match found {
            Some(i) => i < calls.len() && key_slot(call_views(calls@), id) == Some(i as int),
            None => key_slot(call_views(calls@), id) is None,
        },
{
    let ghost all = call_views(calls@);
    let mut i: usize = 0;
    while i < calls.len()
        invariant
            i <= calls.len(),
            all == call_views(calls@),
            forall|j: int| 0 <= j < i ==> (#[trigger] all[j]).0 != id,
        decreases calls.len() - i,
    {
        if calls[i].0 == id {
            proof {
                lemma_key_slot_is(all, id, i as int);
            }
            return Some(i);
        }
        i += 1;
    }
    proof {
        lemma_no_key_slot(all, id);
    }
    None
}

pub fn is_reading_thread(calls: &Vec<(u64, PendingCall)>, id: &str) -> (reading: bool)
    ensures
        reading == is_reading(call_views(calls@), id@),
{
    let ghost all = call_views(calls@);
    let mut i: usize = 0;
    while i < calls.len()
        invariant
            i <= calls.len(),
            all == call_views(calls@),
            forall|j: int|
                0 <= j < i ==> (#[trigger] all[j]).1 != (CallView::ThreadRead { thread_id: id@ }),
        decreases calls.len() - i,
    {
        assert(all[i as int] == (calls@[i as int].0, calls@[i as int].1@));
        if let PendingCall::ThreadRead { thread_id } = &calls[i].1 {
            if same_text(thread_id.as_str(), id) {
                return true;
            }
        }
        i += 1;
    }
    false
}

/// Gives a session a draft.
pub fn put_draft(drafts: &mut Vec<(String, Composer)>, id: &str, draft: Composer)
    ensures
        draft_views(final(drafts)@) == put(draft_views(old(drafts)@), id@, draft@),
{
    let ghost before = draft_views(drafts@);
    let ghost entry = (id@, draft@);
    match find_draft(drafts, id) {
        Some(i) => {
            drafts.set(i, (id.to_owned(), draft));
            assert(draft_views(drafts@) =~= before.update(i as int, entry));
        },
        None => {
            drafts.push((id.to_owned(), draft));
            assert(draft_views(drafts@) =~= before.push(entry));
        },
    }
}

/// Takes the draft of a session away.
pub fn drop_draft(drafts: &mut Vec<(String, Composer)>, id: &str)
    ensures
        draft_views(final(drafts)@) == without_key(draft_views(old(drafts)@), id@),
{
    let ghost before = draft_views(drafts@);
    if let Some(i) = find_draft(drafts, id) {
        drafts.remove(i);
        assert(draft_views(drafts@) =~= before.remove(i as int));
    }
}

/// The draft of a session.
pub fn draft_of(drafts: &Vec<(String, Composer)>, id: &str) -> (draft: Option<Composer>)
    ensures
        option_view(draft) == lookup(draft_views(drafts@), id@),
{
    match find_draft(drafts, id) {
        Some(i) => Some(drafts[i].1.clone()),
        None => None,
    }
}

/// Queues a reply for a session.
pub fn put_reply(replies: &mut Vec<(String, String)>, id: &str, text: &str)
    ensures
        reply_views(final(replies)@) == put(reply_views(old(replies)@), id@, text@),
{
    let ghost before = reply_views(replies@);
    let ghost entry = (id@, text@);
    match find_reply(replies, id) {
        Some(i) => {
            replies.set(i, (id.to_owned(), text.to_owned()));
            assert(reply_views(replies@) =~= before.update(i as int, entry));
        },
        None => {
            replies.push((id.to_owned(), text.to_owned()));
            assert(reply_views(replies@) =~= before.push(entry));
        },
    }
}

/// Takes the reply that is queued for a session.
pub fn take_reply(replies: &mut Vec<(String, String)>, id: &str) -> (text: Option<String>)
    ensures
        option_text(text) == lookup(reply_views(old(replies)@), id@),
        reply_views(final(replies)@) == without_key(reply_views(old(replies)@), id@),
{
    let ghost before = reply_views(replies@);
    match find_reply(replies, id) {
        Some(i) => {
            let entry = replies.remove(i);
            assert(reply_views(replies@) =~= before.remove(i as int));
            Some(entry.1)
        },
        None => None,
    }
}

/// Notes what an item is.
pub fn put_kind(
    kinds: &mut Vec<((String, String), MessageKind)>,
    id: &str,
    item: &str,
    kind: MessageKind,
)
    ensures
        kind_views(final(kinds)@) == put(kind_views(old(kinds)@), (id@, item@), kind),
{
    let ghost before = kind_views(kinds@);
    let ghost entry = ((id@, item@), kind);
    match find_kind(kinds, id, item) {
        Some(i) => {
            kinds.set(i, ((id.to_owned(), item.to_owned()), kind));
            assert(kind_views(kinds@) =~= before.update(i as int, entry));
        },
        None => {
            kinds.push(((id.to_owned(), item.to_owned()), kind));
            assert(kind_views(kinds@) =~= before.push(entry));
        },
    }
}

/// What an item is.
pub fn kind_of(
    kinds: &Vec<((String, String), MessageKind)>,
    id: &str,
    item: &str,
) -> (kind: Option<MessageKind>)
    ensures
        kind == lookup(kind_views(kinds@), (id@, item@)),
{
    match find_kind(kinds, id, item) {
        Some(i) => Some(kinds[i].1),
        None => None,
    }
}

/// Notes a request that waits for an answer.
pub fn put_call(calls: &mut Vec<(u64, PendingCall)>, number: u64, call: PendingCall)
    ensures
        call_views(final(calls)@) == put(call_views(old(calls)@), number, call@),
{
    let ghost before = call_views(calls@);
    let ghost entry = (number, call@);
    match find_call(calls, number) {
        Some(i) => {
            calls.set(i, (number, call));
            assert(call_views(calls@) =~= before.update(i as int, entry));
        },
        None => {
            calls.push((number, call));
            assert(call_views(calls@) =~= before.push(entry));
        },
    }
}

/// Takes the request with a number.
pub fn take_call(calls: &mut Vec<(u64, PendingCall)>, number: u64) -> (call: Option<PendingCall>)
    ensures
        option_view(call) == lookup(call_views(old(calls)@), number),
        call_views(final(calls)@) == without_key(call_views(old(calls)@), number),
{
    let ghost before = call_views(calls@);
    match find_call(calls, number) {
        Some(i) => {
            let entry = calls.remove(i);
            assert(call_views(calls@) =~= before.remove(i as int));
            Some(entry.1)
        },
        None => None,
    }
}

} // verus!
