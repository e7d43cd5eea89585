//! What the notifications of the app-server do to the sessions.

use vstd::prelude::*;

use crate::assoc::{law_what_is_taken_away_is_gone, lookup};
use crate::deck::{
    lemma_session_slot, request_slot, session_slot, turn_notice, without_requests, without_session,
};
use crate::desk::Desk;
use crate::json::JsonView;
use crate::model::{
    is_waiting_flag, law_upsert_keeps_other_messages, lemma_message_index, message_index,
    MessageKind, protocol_status, SessionStatus, SessionView, status_is_live,
};
use crate::order::law_sessions_are_shown_in_order;
use crate::protocol::{notified_text, turn_error};
use crate::state::{AppError, AppView, RequestView};

verus! {

/// No two sessions have the same identifier.
#[verifier::opaque]
pub open spec fn listed_once(sessions: Seq<SessionView>) -> bool {
    forall|i: int, j: int|
        0 <= i < j < sessions.len() ==> (#[trigger] sessions[i]).id != (#[trigger] sessions[j]).id
}

/// Whether a message is a notification with a method and parameters.
pub open spec fn notifies(message: JsonView, method: Seq<char>, params: JsonView) -> bool {
    &&& message.get_str("method"@) == Some(method)
    &&& message.get("id"@) is None
    &&& message.get("params"@) == Some(params)
}

/// The dashboard after a message that it takes.
pub open spec fn after_message(desk: Desk, message: JsonView) -> AppView {
    desk.received(message)->Ok_0.app
}

/// Whether nothing but the dashboard has changed, by a message that it takes.
pub open spec fn sends_nothing(desk: Desk, message: JsonView) -> bool {
    desk.received(message) matches Ok(after) && after.out == desk.out
}

/// Whether all sessions but one are what they were.
pub open spec fn others_stay(before: AppView, after: AppView, id: Seq<char>) -> bool {
    forall|other: Seq<char>|
        other != id ==> #[trigger] after.session(other) == before.session(other)
}

pub proof fn lemma_methods()
    ensures
        "thread/started"@ != "thread/status/changed"@,
        "thread/started"@ != "thread/name/updated"@,
        "thread/started"@ != "thread/deleted"@,
        "thread/started"@ != "thread/archived"@,
        "thread/started"@ != "turn/started"@,
        "thread/started"@ != "turn/completed"@,
        "thread/started"@ != "item/started"@,
        "thread/started"@ != "item/completed"@,
        "thread/started"@ != "item/agentMessage/delta"@,
        "thread/started"@ != "item/reasoning/summaryTextDelta"@,
        "thread/started"@ != "item/reasoning/summaryPartAdded"@,
        "thread/started"@ != "skills/changed"@,
        "thread/started"@ != "error"@,
        "thread/started"@ != "warning"@,
        "thread/started"@ != "configWarning"@,
        "thread/started"@ != "deprecationNotice"@,
        "thread/status/changed"@ != "thread/name/updated"@,
        "thread/status/changed"@ != "thread/deleted"@,
        "thread/status/changed"@ != "thread/archived"@,
        "thread/status/changed"@ != "turn/started"@,
        "thread/status/changed"@ != "turn/completed"@,
        "thread/status/changed"@ != "item/started"@,
        "thread/status/changed"@ != "item/completed"@,
        "thread/status/changed"@ != "item/agentMessage/delta"@,
        "thread/status/changed"@ != "item/reasoning/summaryTextDelta"@,
        "thread/status/changed"@ != "item/reasoning/summaryPartAdded"@,
        "thread/status/changed"@ != "skills/changed"@,
        "thread/status/changed"@ != "error"@,
        "thread/status/changed"@ != "warning"@,
        "thread/status/changed"@ != "configWarning"@,
        "thread/status/changed"@ != "deprecationNotice"@,
        "thread/name/updated"@ != "thread/deleted"@,
        "thread/name/updated"@ != "thread/archived"@,
        "thread/name/updated"@ != "turn/started"@,
        "thread/name/updated"@ != "turn/completed"@,
        "thread/name/updated"@ != "item/started"@,
        "thread/name/updated"@ != "item/completed"@,
        "thread/name/updated"@ != "item/agentMessage/delta"@,
        "thread/name/updated"@ != "item/reasoning/summaryTextDelta"@,
        "thread/name/updated"@ != "item/reasoning/summaryPartAdded"@,
        "thread/name/updated"@ != "skills/changed"@,
        "thread/name/updated"@ != "error"@,
        "thread/name/updated"@ != "warning"@,
        "thread/name/updated"@ != "configWarning"@,
        "thread/name/updated"@ != "deprecationNotice"@,
        "thread/deleted"@ != "thread/archived"@,
        "thread/deleted"@ != "turn/started"@,
        "thread/deleted"@ != "turn/completed"@,
        "thread/deleted"@ != "item/started"@,
        "thread/deleted"@ != "item/completed"@,
        "thread/deleted"@ != "item/agentMessage/delta"@,
        "thread/deleted"@ != "item/reasoning/summaryTextDelta"@,
        "thread/deleted"@ != "item/reasoning/summaryPartAdded"@,
        "thread/deleted"@ != "skills/changed"@,
        "thread/deleted"@ != "error"@,
        "thread/deleted"@ != "warning"@,
        "thread/deleted"@ != "configWarning"@,
        "thread/deleted"@ != "deprecationNotice"@,
        "thread/archived"@ != "turn/started"@,
        "thread/archived"@ != "turn/completed"@,
        "thread/archived"@ != "item/started"@,
        "thread/archived"@ != "item/completed"@,
        "thread/archived"@ != "item/agentMessage/delta"@,
        "thread/archived"@ != "item/reasoning/summaryTextDelta"@,
        "thread/archived"@ != "item/reasoning/summaryPartAdded"@,
        "thread/archived"@ != "skills/changed"@,
        "thread/archived"@ != "error"@,
        "thread/archived"@ != "warning"@,
        "thread/archived"@ != "configWarning"@,
        "thread/archived"@ != "deprecationNotice"@,
        "turn/started"@ != "turn/completed"@,
        "turn/started"@ != "item/started"@,
        "turn/started"@ != "item/completed"@,
        "turn/started"@ != "item/agentMessage/delta"@,
        "turn/started"@ != "item/reasoning/summaryTextDelta"@,
        "turn/started"@ != "item/reasoning/summaryPartAdded"@,
        "turn/started"@ != "skills/changed"@,
        "turn/started"@ != "error"@,
        "turn/started"@ != "warning"@,
        "turn/started"@ != "configWarning"@,
        "turn/started"@ != "deprecationNotice"@,
        "turn/completed"@ != "item/started"@,
        "turn/completed"@ != "item/completed"@,
        "turn/completed"@ != "item/agentMessage/delta"@,
        "turn/completed"@ != "item/reasoning/summaryTextDelta"@,
        "turn/completed"@ != "item/reasoning/summaryPartAdded"@,
        "turn/completed"@ != "skills/changed"@,
        "turn/completed"@ != "error"@,
        "turn/completed"@ != "warning"@,
        "turn/completed"@ != "configWarning"@,
        "turn/completed"@ != "deprecationNotice"@,
        "item/started"@ != "item/completed"@,
        "item/started"@ != "item/agentMessage/delta"@,
        "item/started"@ != "item/reasoning/summaryTextDelta"@,
        "item/started"@ != "item/reasoning/summaryPartAdded"@,
        "item/started"@ != "skills/changed"@,
        "item/started"@ != "error"@,
        "item/started"@ != "warning"@,
        "item/started"@ != "configWarning"@,
        "item/started"@ != "deprecationNotice"@,
        "item/completed"@ != "item/agentMessage/delta"@,
        "item/completed"@ != "item/reasoning/summaryTextDelta"@,
        "item/completed"@ != "item/reasoning/summaryPartAdded"@,
        "item/completed"@ != "skills/changed"@,
        "item/completed"@ != "error"@,
        "item/completed"@ != "warning"@,
        "item/completed"@ != "configWarning"@,
        "item/completed"@ != "deprecationNotice"@,
        "item/agentMessage/delta"@ != "item/reasoning/summaryTextDelta"@,
        "item/agentMessage/delta"@ != "item/reasoning/summaryPartAdded"@,
        "item/agentMessage/delta"@ != "skills/changed"@,
        "item/agentMessage/delta"@ != "error"@,
        "item/agentMessage/delta"@ != "warning"@,
        "item/agentMessage/delta"@ != "configWarning"@,
        "item/agentMessage/delta"@ != "deprecationNotice"@,
        "item/reasoning/summaryTextDelta"@ != "item/reasoning/summaryPartAdded"@,
        "item/reasoning/summaryTextDelta"@ != "skills/changed"@,
        "item/reasoning/summaryTextDelta"@ != "error"@,
        "item/reasoning/summaryTextDelta"@ != "warning"@,
        "item/reasoning/summaryTextDelta"@ != "configWarning"@,
        "item/reasoning/summaryTextDelta"@ != "deprecationNotice"@,
        "item/reasoning/summaryPartAdded"@ != "skills/changed"@,
        "item/reasoning/summaryPartAdded"@ != "error"@,
        "item/reasoning/summaryPartAdded"@ != "warning"@,
        "item/reasoning/summaryPartAdded"@ != "configWarning"@,
        "item/reasoning/summaryPartAdded"@ != "deprecationNotice"@,
        "skills/changed"@ != "error"@,
        "skills/changed"@ != "warning"@,
        "skills/changed"@ != "configWarning"@,
        "skills/changed"@ != "deprecationNotice"@,
        "error"@ != "warning"@,
        "error"@ != "configWarning"@,
        "error"@ != "deprecationNotice"@,
        "warning"@ != "configWarning"@,
        "warning"@ != "deprecationNotice"@,
        "configWarning"@ != "deprecationNotice"@,
{
    reveal_strlit("thread/started");
    reveal_strlit("thread/status/changed");
    reveal_strlit("thread/name/updated");
    reveal_strlit("thread/deleted");
    reveal_strlit("thread/archived");
    reveal_strlit("turn/started");
    reveal_strlit("turn/completed");
    reveal_strlit("item/started");
    reveal_strlit("item/completed");
    reveal_strlit("item/agentMessage/delta");
    reveal_strlit("item/reasoning/summaryTextDelta");
    reveal_strlit("item/reasoning/summaryPartAdded");
    reveal_strlit("skills/changed");
    reveal_strlit("error");
    reveal_strlit("warning");
    reveal_strlit("configWarning");
    reveal_strlit("deprecationNotice");
    assert("thread/started"@.len() != "thread/status/changed"@.len());
    assert("thread/started"@.len() != "thread/name/updated"@.len());
    assert("thread/started"@[7] != "thread/deleted"@[7]);
    assert("thread/started"@.len() != "thread/archived"@.len());
    assert("thread/started"@.len() != "turn/started"@.len());
    assert("thread/started"@[1] != "turn/completed"@[1]);
    assert("thread/started"@.len() != "item/started"@.len());
    assert("thread/started"@[0] != "item/completed"@[0]);
    assert("thread/started"@.len() != "item/agentMessage/delta"@.len());
    assert("thread/started"@.len() != "item/reasoning/summaryTextDelta"@.len());
    assert("thread/started"@.len() != "item/reasoning/summaryPartAdded"@.len());
    assert("thread/started"@[0] != "skills/changed"@[0]);
    assert("thread/started"@.len() != "error"@.len());
    assert("thread/started"@.len() != "warning"@.len());
    assert("thread/started"@.len() != "configWarning"@.len());
    assert("thread/started"@.len() != "deprecationNotice"@.len());
    assert("thread/status/changed"@.len() != "thread/name/updated"@.len());
    assert("thread/status/changed"@.len() != "thread/deleted"@.len());
    assert("thread/status/changed"@.len() != "thread/archived"@.len());
    assert("thread/status/changed"@.len() != "turn/started"@.len());
    assert("thread/status/changed"@.len() != "turn/completed"@.len());
    assert("thread/status/changed"@.len() != "item/started"@.len());
    assert("thread/status/changed"@.len() != "item/completed"@.len());
    assert("thread/status/changed"@.len() != "item/agentMessage/delta"@.len());
    assert("thread/status/changed"@.len() != "item/reasoning/summaryTextDelta"@.len());
    assert("thread/status/changed"@.len() != "item/reasoning/summaryPartAdded"@.len());
    assert("thread/status/changed"@.len() != "skills/changed"@.len());
    assert("thread/status/changed"@.len() != "error"@.len());
    assert("thread/status/changed"@.len() != "warning"@.len());
    assert("thread/status/changed"@.len() != "configWarning"@.len());
    assert("thread/status/changed"@.len() != "deprecationNotice"@.len());
    assert("thread/name/updated"@.len() != "thread/deleted"@.len());
    assert("thread/name/updated"@.len() != "thread/archived"@.len());
    assert("thread/name/updated"@.len() != "turn/started"@.len());
    assert("thread/name/updated"@.len() != "turn/completed"@.len());
    assert("thread/name/updated"@.len() != "item/started"@.len());
    assert("thread/name/updated"@.len() != "item/completed"@.len());
    assert("thread/name/updated"@.len() != "item/agentMessage/delta"@.len());
    assert("thread/name/updated"@.len() != "item/reasoning/summaryTextDelta"@.len());
    assert("thread/name/updated"@.len() != "item/reasoning/summaryPartAdded"@.len());
    assert("thread/name/updated"@.len() != "skills/changed"@.len());
    assert("thread/name/updated"@.len() != "error"@.len());
    assert("thread/name/updated"@.len() != "warning"@.len());
    assert("thread/name/updated"@.len() != "configWarning"@.len());
    assert("thread/name/updated"@.len() != "deprecationNotice"@.len());
    assert("thread/deleted"@.len() != "thread/archived"@.len());
    assert("thread/deleted"@.len() != "turn/started"@.len());
    assert("thread/deleted"@[1] != "turn/completed"@[1]);
    assert("thread/deleted"@.len() != "item/started"@.len());
    assert("thread/deleted"@[0] != "item/completed"@[0]);
    assert("thread/deleted"@.len() != "item/agentMessage/delta"@.len());
    assert("thread/deleted"@.len() != "item/reasoning/summaryTextDelta"@.len());
    assert("thread/deleted"@.len() != "item/reasoning/summaryPartAdded"@.len());
    assert("thread/deleted"@[0] != "skills/changed"@[0]);
    assert("thread/deleted"@.len() != "error"@.len());
    assert("thread/deleted"@.len() != "warning"@.len());
    assert("thread/deleted"@.len() != "configWarning"@.len());
    assert("thread/deleted"@.len() != "deprecationNotice"@.len());
    assert("thread/archived"@.len() != "turn/started"@.len());
    assert("thread/archived"@.len() != "turn/completed"@.len());
    assert("thread/archived"@.len() != "item/started"@.len());
    assert("thread/archived"@.len() != "item/completed"@.len());
    assert("thread/archived"@.len() != "item/agentMessage/delta"@.len());
    assert("thread/archived"@.len() != "item/reasoning/summaryTextDelta"@.len());
    assert("thread/archived"@.len() != "item/reasoning/summaryPartAdded"@.len());
    assert("thread/archived"@.len() != "skills/changed"@.len());
    assert("thread/archived"@.len() != "error"@.len());
    assert("thread/archived"@.len() != "warning"@.len());
    assert("thread/archived"@.len() != "configWarning"@.len());
    assert("thread/archived"@.len() != "deprecationNotice"@.len());
    assert("turn/started"@.len() != "turn/completed"@.len());
    assert("turn/started"@[0] != "item/started"@[0]);
    assert("turn/started"@.len() != "item/completed"@.len());
    assert("turn/started"@.len() != "item/agentMessage/delta"@.len());
    assert("turn/started"@.len() != "item/reasoning/summaryTextDelta"@.len());
    assert("turn/started"@.len() != "item/reasoning/summaryPartAdded"@.len());
    assert("turn/started"@.len() != "skills/changed"@.len());
    assert("turn/started"@.len() != "error"@.len());
    assert("turn/started"@.len() != "warning"@.len());
    assert("turn/started"@.len() != "configWarning"@.len());
    assert("turn/started"@.len() != "deprecationNotice"@.len());
    assert("turn/completed"@.len() != "item/started"@.len());
    assert("turn/completed"@[0] != "item/completed"@[0]);
    assert("turn/completed"@.len() != "item/agentMessage/delta"@.len());
    assert("turn/completed"@.len() != "item/reasoning/summaryTextDelta"@.len());
    assert("turn/completed"@.len() != "item/reasoning/summaryPartAdded"@.len());
    assert("turn/completed"@[0] != "skills/changed"@[0]);
    assert("turn/completed"@.len() != "error"@.len());
    assert("turn/completed"@.len() != "warning"@.len());
    assert("turn/completed"@.len() != "configWarning"@.len());
    assert("turn/completed"@.len() != "deprecationNotice"@.len());
    assert("item/started"@.len() != "item/completed"@.len());
    assert("item/started"@.len() != "item/agentMessage/delta"@.len());
    assert("item/started"@.len() != "item/reasoning/summaryTextDelta"@.len());
    assert("item/started"@.len() != "item/reasoning/summaryPartAdded"@.len());
    assert("item/started"@.len() != "skills/changed"@.len());
    assert("item/started"@.len() != "error"@.len());
    assert("item/started"@.len() != "warning"@.len());
    assert("item/started"@.len() != "configWarning"@.len());
    assert("item/started"@.len() != "deprecationNotice"@.len());
    assert("item/completed"@.len() != "item/agentMessage/delta"@.len());
    assert("item/completed"@.len() != "item/reasoning/summaryTextDelta"@.len());
    assert("item/completed"@.len() != "item/reasoning/summaryPartAdded"@.len());
    assert("item/completed"@[0] != "skills/changed"@[0]);
    assert("item/completed"@.len() != "error"@.len());
    assert("item/completed"@.len() != "warning"@.len());
    assert("item/completed"@.len() != "configWarning"@.len());
    assert("item/completed"@.len() != "deprecationNotice"@.len());
    assert("item/agentMessage/delta"@.len() != "item/reasoning/summaryTextDelta"@.len());
    assert("item/agentMessage/delta"@.len() != "item/reasoning/summaryPartAdded"@.len());
    assert("item/agentMessage/delta"@.len() != "skills/changed"@.len());
    assert("item/agentMessage/delta"@.len() != "error"@.len());
    assert("item/agentMessage/delta"@.len() != "warning"@.len());
    assert("item/agentMessage/delta"@.len() != "configWarning"@.len());
    assert("item/agentMessage/delta"@.len() != "deprecationNotice"@.len());
    assert("item/reasoning/summaryTextDelta"@[22] != "item/reasoning/summaryPartAdded"@[22]);
    assert("item/reasoning/summaryTextDelta"@.len() != "skills/changed"@.len());
    assert("item/reasoning/summaryTextDelta"@.len() != "error"@.len());
    assert("item/reasoning/summaryTextDelta"@.len() != "warning"@.len());
    assert("item/reasoning/summaryTextDelta"@.len() != "configWarning"@.len());
    assert("item/reasoning/summaryTextDelta"@.len() != "deprecationNotice"@.len());
    assert("item/reasoning/summaryPartAdded"@.len() != "skills/changed"@.len());
    assert("item/reasoning/summaryPartAdded"@.len() != "error"@.len());
    assert("item/reasoning/summaryPartAdded"@.len() != "warning"@.len());
    assert("item/reasoning/summaryPartAdded"@.len() != "configWarning"@.len());
    assert("item/reasoning/summaryPartAdded"@.len() != "deprecationNotice"@.len());
    assert("skills/changed"@.len() != "error"@.len());
    assert("skills/changed"@.len() != "warning"@.len());
    assert("skills/changed"@.len() != "configWarning"@.len());
    assert("skills/changed"@.len() != "deprecationNotice"@.len());
    assert("error"@.len() != "warning"@.len());
    assert("error"@.len() != "configWarning"@.len());
    assert("error"@.len() != "deprecationNotice"@.len());
    assert("warning"@.len() != "configWarning"@.len());
    assert("warning"@.len() != "deprecationNotice"@.len());
    assert("configWarning"@.len() != "deprecationNotice"@.len());
}

pub proof fn lemma_notified(desk: Desk, message: JsonView, method: Seq<char>, params: JsonView)
    requires
        notifies(message, method, params),
    ensures
        sends_nothing(desk, message),
        after_message(desk, message) == desk.app.notified(method, params),
{
    reveal(Desk::received);
}

/// A session is found under its identifier, where no other has the same.
pub proof fn lemma_session_found(app: AppView, k: int)
    requires
        listed_once(app.sessions),
        0 <= k < app.sessions.len(),
    ensures
        session_slot(app.sessions, app.sessions[k].id) == Some(k),
        app.session(app.sessions[k].id) == Some(app.sessions[k]),
{
    reveal(listed_once);
    lemma_session_slot(app.sessions, app.sessions[k].id);
}

pub proof fn lemma_updated(app: AppView, k: int, session: SessionView)
    requires
        listed_once(app.sessions),
        0 <= k < app.sessions.len(),
        session.id == app.sessions[k].id,
    ensures
        listed_once(app.updating(k, session).sessions),
        app.updating(k, session).session(session.id) == Some(session),
        others_stay(app, app.updating(k, session), session.id),
{
    let after = app.updating(k, session);
    assert(listed_once(after.sessions)) by {
        reveal(listed_once);
    }
    lemma_session_found(after, k);
    assert forall|other: Seq<char>| other != session.id implies #[trigger] after.session(other)
        == app.session(other) by {
        lemma_session_slot(app.sessions, other);
        lemma_session_slot(after.sessions, other);
        if let Some(i) = session_slot(app.sessions, other) {
            assert(after.sessions[i] == app.sessions[i]);
            lemma_session_found(after, i);
        } else if let Some(i) = session_slot(after.sessions, other) {
            assert(after.sessions[i] == app.sessions[i]);
        }
    }
}

/// Sorting leaves every session as it is.
pub proof fn lemma_resorted(app: AppView)
    requires
        listed_once(app.sessions),
    ensures
        listed_once(app.resorted().sessions),
        forall|id: Seq<char>| #[trigger] app.resorted().session(id) == app.session(id),
        app.resorted() == (AppView {
            sessions: app.resorted().sessions,
            selected: app.resorted().selected,
            ..app
        }),
{
    broadcast use vstd::seq_lib::group_to_multiset_ensures;

    reveal(AppView::resorted);
    reveal(AppView::sorted);
    reveal(AppView::selecting);
    let sorted = app.resorted().sessions;
    law_sessions_are_shown_in_order(app.sessions, app.lifecycle.pinned);
    assert(app.sessions.no_duplicates()) by {
        reveal(listed_once);
    }
    app.sessions.lemma_multiset_has_no_duplicates();
    sorted.lemma_multiset_has_no_duplicates_conv();
    assert(listed_once(sorted)) by {
        reveal(listed_once);
        assert forall|i: int, j: int| 0 <= i < j < sorted.len() implies (#[trigger] sorted[i]).id
            != (#[trigger] sorted[j]).id by {
            assert(sorted.contains(sorted[i]) && sorted.contains(sorted[j]));
            assert(sorted.to_multiset().count(sorted[i]) > 0);
            assert(sorted.to_multiset().count(sorted[j]) > 0);
            assert(app.sessions.contains(sorted[i]) && app.sessions.contains(sorted[j]));
            let a = choose|a: int| 0 <= a < app.sessions.len() && app.sessions[a] == sorted[i];
            let b = choose|b: int| 0 <= b < app.sessions.len() && app.sessions[b] == sorted[j];
            assert(sorted[i] != sorted[j]);
            assert(a != b);
            if a < b {
                assert(app.sessions[a].id != app.sessions[b].id);
            } else {
                assert(app.sessions[b].id != app.sessions[a].id);
            }
        }
    }
    assert forall|id: Seq<char>| #[trigger] app.resorted().session(id) == app.session(id) by {
        lemma_session_slot(app.sessions, id);
        lemma_session_slot(sorted, id);
        if let Some(i) = session_slot(app.sessions, id) {
            assert(app.sessions.contains(app.sessions[i]));
            assert(app.sessions.to_multiset().count(app.sessions[i]) > 0);
            assert(sorted.contains(app.sessions[i]));
            let k = choose|k: int| 0 <= k < sorted.len() && sorted[k] == app.sessions[i];
            lemma_session_found(app.resorted(), k);
        } else if let Some(k) = session_slot(sorted, id) {
            assert(sorted.contains(sorted[k]));
            assert(sorted.to_multiset().count(sorted[k]) > 0);
            assert(app.sessions.contains(sorted[k]));
            let i = choose|i: int| 0 <= i < app.sessions.len() && app.sessions[i] == sorted[k];
        }
    }
}

proof fn lemma_adopting(app: AppView, id: Seq<char>)
    ensures
        app.adopting(id).lifecycle.adopted.contains(id),
        app.adopting(id) == (AppView {
            lifecycle: app.adopting(id).lifecycle,
            initial_scan_seen: app.adopting(id).initial_scan_seen,
            ..app
        }),
{
    reveal(AppView::adopting);
}

/// A turn that starts makes its session a working one: it has that turn, it was
/// changed just now, and it belongs to the dashboard. Other sessions stay as they
/// are, and nothing is sent.
pub proof fn law_a_started_turn_is_followed(
    desk: Desk,
    message: JsonView,
    params: JsonView,
    turn: JsonView,
    id: Seq<char>,
)
    requires
        listed_once(desk.app.sessions),
        notifies(message, "turn/started"@, params),
        params.get_str("threadId"@) == Some(id),
        params.get("turn"@) == Some(turn),
        desk.app.session(id) is Some,
    ensures
        sends_nothing(desk, message),
        after_message(desk, message).session(id) == Some(
            SessionView {
                status: SessionStatus::Working,
                active_turn_id: turn.get_str("id"@),
                updated_at: desk.app.unix_time as int,
                ..desk.app.session(id)->0
            },
        ),
        others_stay(desk.app, after_message(desk, message), id),
        listed_once(after_message(desk, message).sessions),
        after_message(desk, message).lifecycle.adopted.contains(id),
{
    lemma_methods();
    lemma_notified(desk, message, "turn/started"@, params);
    reveal(AppView::notified);
    reveal(AppView::turn_started);
    reveal(AppView::with_turn);
    let app = desk.app;
    lemma_adopting(app, id);
    lemma_session_slot(app.sessions, id);
    let k = session_slot(app.sessions, id)->0;
    let adopted = app.adopting(id);
    let changed = SessionView {
        status: SessionStatus::Working,
        active_turn_id: turn.get_str("id"@),
        updated_at: app.unix_time as int,
        ..app.sessions[k]
    };
    lemma_updated(adopted, k, changed);
    lemma_resorted(adopted.updating(k, changed));
}

/// A turn that is over leaves its session at rest: failed where the turn failed, and
/// completed however else it ended. It has no turn, it was changed just now, and no
/// request of it waits for an answer. An error of the turn is shown. Other sessions
/// stay as they are, and nothing is sent.
pub proof fn law_a_completed_turn_leaves_its_session_at_rest(
    desk: Desk,
    message: JsonView,
    params: JsonView,
    turn: JsonView,
    id: Seq<char>,
)
    requires
        listed_once(desk.app.sessions),
        notifies(message, "turn/completed"@, params),
        params.get_str("threadId"@) == Some(id),
        params.get("turn"@) == Some(turn),
        desk.app.session(id) is Some,
    ensures
        sends_nothing(desk, message),
        ({
            let after = after_message(desk, message);
            let before = desk.app.session(id)->0;
            let failed = turn.get_str("status"@) == Some("failed"@);
            let error = turn.get("error"@);
            &&& after.session(id) matches Some(session) && {
                &&& session.status == (if failed {
                    SessionStatus::Failed
                } else {
                    SessionStatus::Completed
                })
                &&& session.active_turn_id is None
                &&& session.updated_at == desk.app.unix_time
                &&& session == (SessionView {
                    status: session.status,
                    active_turn_id: None,
                    updated_at: session.updated_at,
                    messages: session.messages,
                    ..before
                })
                &&& (error is None || error->0.get_str("message"@) is None) ==> session.messages
                    == before.messages
                &&& (error is Some && error->0.get_str("message"@) is Some) ==> exists|i: int|
                    0 <= i < session.messages.len() && (#[trigger] session.messages[i]).text
                        == error->0.get_str("message"@)->0 && session.messages[i].kind
                        == MessageKind::System
            }
            &&& others_stay(desk.app, after, id)
            &&& listed_once(after.sessions)
            &&& request_slot(after.pending_requests, id) is None
            &&& after.notice == (if failed {
                "Session failed"@
            } else if turn.get_str("status"@) == Some("interrupted"@) {
                "Session interrupted"@
            } else {
                "Session completed"@
            })
        }),
{
    lemma_methods();
    lemma_notified(desk, message, "turn/completed"@, params);
    reveal(AppView::notified);
    reveal(AppView::turn_completed);
    reveal(AppView::without_turn);
    reveal(AppView::unasked);
    reveal(AppView::noting);
    reveal(turn_error);
    let app = desk.app;
    lemma_adopting(app, id);
    lemma_session_slot(app.sessions, id);
    let k = session_slot(app.sessions, id)->0;
    let adopted = app.adopting(id);
    let stopped = adopted.without_turn(id, turn);
    let changed = stopped.sessions[k];
    assert(stopped == adopted.updating(k, changed));
    lemma_updated(adopted, k, changed);
    let told = stopped.unasked(id).noting(turn_notice(turn));
    assert(listed_once(told.sessions));
    assert(forall|x: Seq<char>| #[trigger] told.session(x) == stopped.session(x));
    lemma_resorted(told);
    lemma_unasked(app.pending_requests, id);
    if let Some(entry) = turn_error(turn) {
        law_upsert_keeps_other_messages(app.sessions[k].messages, entry);
        let i = message_index(changed.messages, entry.id)->0;
        lemma_message_index(changed.messages, entry.id);
        assert(changed.messages[i] == entry);
    }
}

proof fn lemma_unasked(requests: Seq<RequestView>, id: Seq<char>)
    ensures
        request_slot(without_requests(requests, id), id) is None,
    decreases requests.len(),
{
    let rest = without_requests(requests, id);
    lemma_no_requests(requests, id);
    lemma_request_slot_none(rest, id);
}

proof fn lemma_no_requests(requests: Seq<RequestView>, id: Seq<char>)
    ensures
        forall|i: int|
            0 <= i < without_requests(requests, id).len() ==> (#[trigger] without_requests(
                requests,
                id,
            )[i]).thread_id != id,
    decreases requests.len(),
{
    if requests.len() > 0 {
        lemma_no_requests(requests.drop_last(), id);
    }
}

proof fn lemma_request_slot_none(requests: Seq<RequestView>, id: Seq<char>)
    requires
        forall|i: int| 0 <= i < requests.len() ==> (#[trigger] requests[i]).thread_id != id,
    ensures
        request_slot(requests, id) is None,
    decreases requests.len(),
{
    if requests.len() > 0 {
        let rest = requests.drop_first();
        assert forall|i: int| 0 <= i < rest.len() implies (#[trigger] rest[i]).thread_id != id by {
            assert(rest[i] == requests[i + 1]);
        }
        assert(requests[0].thread_id != id);
        lemma_request_slot_none(rest, id);
    }
}

/// Whether a flag of an active thread says that it waits for the user.
pub open spec fn says_waiting(flag: JsonView) -> bool {
    flag == JsonView::Text("waitingOnApproval"@) || flag == JsonView::Text("waitingOnUserInput"@)
}

/// What a status object of the protocol stands for: an active thread works, or needs
/// an answer where a flag says so; a thread with a system error has failed; any other
/// is at rest.
pub proof fn law_what_a_status_stands_for(value: JsonView)
    ensures
        ({
            let kind = value.get_str("type"@);
            let status = protocol_status(value);
            let waits = exists|i: int|
                0 <= i < value.get_items("activeFlags"@).len() && says_waiting(
                    #[trigger] value.get_items("activeFlags"@)[i],
                );
            &&& status == SessionStatus::NeedsInput <==> kind == Some("active"@) && waits
            &&& status == SessionStatus::Working <==> kind == Some("active"@) && !waits
            &&& status == SessionStatus::Failed <==> kind == Some("systemError"@)
            &&& status == SessionStatus::Completed <==> kind != Some("active"@) && kind != Some(
                "systemError"@,
            )
        }),
{
    reveal(protocol_status);
    reveal_strlit("active");
    reveal_strlit("systemError");
    assert("active"@.len() != "systemError"@.len());
    let flags = value.get_items("activeFlags"@);
    assert forall|i: int| 0 <= i < flags.len() implies is_waiting_flag(#[trigger] flags[i])
        == says_waiting(flags[i]) by {}
}

/// A session with a turn going on needs an answer or works, and no other does.
pub proof fn law_live_sessions_work_or_wait(status: SessionStatus)
    ensures
        status_is_live(status) <==> status == SessionStatus::NeedsInput || status
            == SessionStatus::Working,
{
}

/// A session takes the status that the app-server tells of it, and nothing else of it
/// changes.
pub proof fn law_status_changes_are_followed(
    desk: Desk,
    message: JsonView,
    params: JsonView,
    status: JsonView,
    id: Seq<char>,
)
    requires
        listed_once(desk.app.sessions),
        notifies(message, "thread/status/changed"@, params),
        params.get_str("threadId"@) == Some(id),
        params.get("status"@) == Some(status),
        desk.app.session(id) is Some,
    ensures
        sends_nothing(desk, message),
        after_message(desk, message).session(id) == Some(
            SessionView { status: protocol_status(status), ..desk.app.session(id)->0 },
        ),
        others_stay(desk.app, after_message(desk, message), id),
        listed_once(after_message(desk, message).sessions),
        status_is_live(protocol_status(status)) ==> after_message(
            desk,
            message,
        ).lifecycle.adopted.contains(id),
{
    lemma_methods();
    lemma_notified(desk, message, "thread/status/changed"@, params);
    reveal(AppView::notified);
    reveal(AppView::status_changed);
    reveal(AppView::with_status);
    let app = desk.app;
    lemma_adopting(app, id);
    lemma_session_slot(app.sessions, id);
    let k = session_slot(app.sessions, id)->0;
    let changed = SessionView { status: protocol_status(status), ..app.sessions[k] };
    lemma_updated(app, k, changed);
    lemma_updated(app.adopting(id), k, changed);
    lemma_resorted(app.updating(k, changed));
    lemma_resorted(app.adopting(id).updating(k, changed));
}

/// A session takes the name that the app-server tells, and nothing else of it changes.
pub proof fn law_new_names_are_shown(
    desk: Desk,
    message: JsonView,
    params: JsonView,
    name: Seq<char>,
    id: Seq<char>,
)
    requires
        listed_once(desk.app.sessions),
        notifies(message, "thread/name/updated"@, params),
        params.get_str("threadId"@) == Some(id),
        params.get("threadName"@) == Some(JsonView::Text(name)) || (params.get(
            "threadName"@,
        ) is None && params.get("name"@) == Some(JsonView::Text(name))),
        desk.app.session(id) is Some,
    ensures
        sends_nothing(desk, message),
        after_message(desk, message).session(id) == Some(
            SessionView { title: name, ..desk.app.session(id)->0 },
        ),
        others_stay(desk.app, after_message(desk, message), id),
        listed_once(after_message(desk, message).sessions),
{
    lemma_methods();
    lemma_notified(desk, message, "thread/name/updated"@, params);
    reveal(AppView::notified);
    reveal(AppView::name_updated);
    reveal(AppView::with_title);
    let app = desk.app;
    lemma_session_slot(app.sessions, id);
    let k = session_slot(app.sessions, id)->0;
    let changed = SessionView { title: name, ..app.sessions[k] };
    lemma_updated(app, k, changed);
    lemma_resorted(app.updating(k, changed));
}

proof fn lemma_discarding(app: AppView, id: Seq<char>, was_selected: bool)
    ensures
        app.discarding_draft(id, was_selected).sessions == app.sessions,
        app.discarding_draft(id, was_selected).history == app.history,
        app.discarding_draft(id, was_selected).lifecycle == app.lifecycle,
{
    reveal(AppView::discarding_draft);
    reveal(AppView::without_rename);
    reveal(AppView::with_selected_draft);
    reveal(AppView::with_reply_draft);
    reveal(AppView::with_new_draft);
}

proof fn lemma_kept_sessions(sessions: Seq<SessionView>, id: Seq<char>, session: SessionView)
    ensures
        without_session(sessions, id).contains(session) <==> sessions.contains(session)
            && session.id != id,
    decreases sessions.len(),
{
    if sessions.len() > 0 {
        let front = sessions.drop_last();
        let kept = without_session(front, id);
        lemma_kept_sessions(front, id, session);
        assert(sessions =~= front.push(sessions.last()));
        if sessions.contains(session) {
            let i = choose|i: int| 0 <= i < sessions.len() && sessions[i] == session;
            if i < front.len() {
                assert(front[i] == session);
            }
        }
        if front.contains(session) {
            let i = choose|i: int| 0 <= i < front.len() && front[i] == session;
            assert(sessions[i] == session);
        }
        assert(sessions[sessions.len() - 1] == sessions.last());
        let after = without_session(sessions, id);
        if kept.contains(session) {
            let i = choose|i: int| 0 <= i < kept.len() && kept[i] == session;
            assert(after[i] == session);
        }
        if sessions.last().id != id {
            assert(after.last() == sessions.last());
            assert(after[after.len() - 1] == sessions.last());
            if after.contains(session) {
                let i = choose|i: int| 0 <= i < after.len() && after[i] == session;
                if i < kept.len() {
                    assert(kept[i] == session);
                }
            }
        }
    }
}

/// A thread that is deleted or archived leaves the list, the menu and the registry,
/// and its draft is dropped; every other session stays.
pub proof fn law_deleted_threads_are_gone(
    desk: Desk,
    message: JsonView,
    method: Seq<char>,
    params: JsonView,
    id: Seq<char>,
    other: SessionView,
)
    requires
        desk.app.wf(),
        method == "thread/deleted"@ || method == "thread/archived"@,
        notifies(message, method, params),
        params.get_str("threadId"@) == Some(id),
    ensures
        sends_nothing(desk, message),
        ({
            let after = after_message(desk, message);
            &&& after.session(id) is None
            &&& session_slot(after.history, id) is None
            &&& !after.lifecycle.adopted.contains(id)
            &&& !after.lifecycle.pinned.contains(id)
            &&& lookup(after.reply_drafts, id) is None
            &&& after.sessions.contains(other) <==> desk.app.sessions.contains(other) && other.id
                != id
        }),
{
    lemma_methods();
    lemma_notified(desk, message, method, params);
    reveal(AppView::notified);
    reveal(AppView::thread_gone);
    let app = desk.app;
    let was_selected = app.selected_id() == Some(id);
    let dropped = app.dropping(id).unlisted(id);
    assert(dropped.sessions == without_session(app.sessions, id) && dropped.history
        == without_session(app.history, id) && dropped.reply_drafts == app.reply_drafts
        && dropped.lifecycle == app.lifecycle.dismiss(id)) by {
        reveal(AppView::dropping);
        reveal(AppView::unlisted);
    }
    lemma_discarding(dropped, id, was_selected);
    assert(lookup(after_message(desk, message).reply_drafts, id) is None) by {
        reveal(AppView::wf);
        reveal(AppView::discarding_draft);
        reveal(AppView::without_rename);
        reveal(AppView::with_selected_draft);
        reveal(AppView::with_reply_draft);
        reveal(AppView::with_new_draft);
        law_what_is_taken_away_is_gone(app.reply_drafts, id, id);
    }
    lemma_kept_sessions(app.sessions, id, other);
    lemma_gone(app.sessions, id);
    lemma_gone(app.history, id);
}

pub proof fn lemma_gone(sessions: Seq<SessionView>, id: Seq<char>)
    ensures
        session_slot(without_session(sessions, id), id) is None,
{
    let kept = without_session(sessions, id);
    lemma_session_slot(kept, id);
    if let Some(i) = session_slot(kept, id) {
        assert(kept.contains(kept[i]));
        lemma_kept_sessions(sessions, id, kept[i]);
    }
}

/// A notification whose method is none of those that the dashboard knows changes
/// nothing.
pub proof fn law_unknown_notifications_change_nothing(
    desk: Desk,
    message: JsonView,
    method: Seq<char>,
    params: JsonView,
)
    requires
        notifies(message, method, params),
        method != "thread/started"@,
        method != "thread/status/changed"@,
        method != "thread/name/updated"@,
        method != "thread/deleted"@,
        method != "thread/archived"@,
        method != "turn/started"@,
        method != "turn/completed"@,
        method != "item/started"@,
        method != "item/completed"@,
        method != "item/agentMessage/delta"@,
        method != "item/reasoning/summaryTextDelta"@,
        method != "item/reasoning/summaryPartAdded"@,
        method != "skills/changed"@,
        method != "error"@,
        method != "warning"@,
        method != "configWarning"@,
        method != "deprecationNotice"@,
    ensures
        desk.received(message) == Ok::<Desk, AppError>(desk),
{
    lemma_notified(desk, message, method, params);
    reveal(AppView::notified);
    reveal(Desk::received);
}

/// A warning shows its message, or that of its error, or else its method, and changes
/// no session.
pub proof fn law_warnings_are_shown(
    desk: Desk,
    message: JsonView,
    method: Seq<char>,
    params: JsonView,
)
    requires
        method == "error"@ || method == "warning"@ || method == "configWarning"@ || method
            == "deprecationNotice"@,
        notifies(message, method, params),
    ensures
        sends_nothing(desk, message),
        after_message(desk, message) == (AppView {
            notice: match params.get_str("message"@) {
                Some(text) => text,
                None => match params.get("error"@) {
                    Some(error) => match error.get_str("message"@) {
                        Some(text) => text,
                        None => method,
                    },
                    None => method,
                },
            },
            ..desk.app
        }),
{
    lemma_methods();
    lemma_notified(desk, message, method, params);
    reveal(AppView::notified);
    reveal(AppView::warned);
    reveal(AppView::noting);
    reveal(notified_text);
}

} // verus!
