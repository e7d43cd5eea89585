//! What the items of a turn show, whole or piece by piece.

use vstd::prelude::*;

use crate::assoc::{law_put_then_lookup, lookup};
use crate::deck::{lemma_session_slot, session_slot};
use crate::desk::Desk;
use crate::json::JsonView;
use crate::model::{
    extend_message, law_upsert_keeps_other_messages, lemma_message_index, message_index,
    MessageKind, MessageView, SessionView, upsert,
};
use crate::protocol::{
    input_part_text, input_part_texts, item_message, kind_of_item, local_copy, plain_texts,
    prompt_shown, without_local_copy,
};
use crate::state::AppView;
use crate::text::{begins_with, join};
use crate::thread_laws::{
    after_message, lemma_methods, lemma_notified, lemma_updated, listed_once, notifies, others_stay,
    sends_nothing,
};

verus! {

proof fn lemma_item_words()
    ensures
        "userMessage"@ != "reasoning"@,
        "userMessage"@ != "plan"@,
        "userMessage"@ != "agentMessage"@,
        "reasoning"@ != "plan"@,
        "reasoning"@ != "agentMessage"@,
        "plan"@ != "agentMessage"@,
{
    reveal_strlit("userMessage");
    reveal_strlit("reasoning");
    reveal_strlit("plan");
    reveal_strlit("agentMessage");
    assert("userMessage"@.len() != "reasoning"@.len());
    assert("userMessage"@.len() != "plan"@.len());
    assert("userMessage"@.len() != "agentMessage"@.len());
    assert("reasoning"@.len() != "plan"@.len());
    assert("reasoning"@.len() != "agentMessage"@.len());
    assert("plan"@.len() != "agentMessage"@.len());
}

proof fn lemma_part_words()
    ensures
        "text"@ != "localImage"@,
        "text"@ != "image"@,
        "localImage"@ != "image"@,
{
    reveal_strlit("text");
    reveal_strlit("localImage");
    reveal_strlit("image");
    assert("text"@.len() != "localImage"@.len());
    assert("text"@.len() != "image"@.len());
    assert("localImage"@.len() != "image"@.len());
}

/// What an item of a turn is and says: what the agent writes is a final reply, or
/// progress where its phase is another; a plan is progress; what the user sends is a
/// prompt; and reasoning is a thought. Nothing else is shown.
pub proof fn law_what_an_item_is(item: JsonView, id: Seq<char>)
    requires
        item.get_str("id"@) == Some(id),
    ensures
        ({
            let kind = item.get_str("type"@);
            let phase = item.get_str("phase"@);
            let text = match item.get_str("text"@) {
                Some(text) => text,
                None => seq![],
            };
            let message = item_message(item);
            &&& kind == Some("agentMessage"@) && (phase is None || phase == Some("final_answer"@))
                ==> message == Some(MessageView { id, kind: MessageKind::Final, text })
            &&& kind == Some("agentMessage"@) && phase is Some && phase != Some("final_answer"@)
                ==> message == Some(MessageView { id, kind: MessageKind::Progress, text })
            &&& kind == Some("plan"@) ==> message == Some(
                MessageView { id, kind: MessageKind::Progress, text },
            )
            &&& kind == Some("userMessage"@) ==> message == Some(
                MessageView {
                    id,
                    kind: MessageKind::User,
                    text: prompt_shown(item.get("content"@)),
                },
            )
            &&& kind == Some("reasoning"@) ==> message == Some(
                MessageView {
                    id,
                    kind: MessageKind::Thinking,
                    text: join(plain_texts(item.get_items("summary"@)), seq!['\n']),
                },
            )
            &&& kind != Some("agentMessage"@) && kind != Some("plan"@) && kind != Some(
                "userMessage"@,
            ) && kind != Some("reasoning"@) ==> message is None
            &&& message is Some <==> kind_of_item(item) is Some
            &&& message matches Some(message) ==> kind_of_item(item) == Some(message.kind)
        }),
{
    lemma_item_words();
    reveal(item_message);
    reveal(kind_of_item);
    reveal_strlit("\n");
    assert("\n"@ =~= seq!['\n']);
}

/// A prompt is shown part by part, each on a line of its own: its text, and a mark
/// for every image. Other parts are not shown.
pub proof fn law_prompts_are_shown_part_by_part(
    parts: Seq<JsonView>,
    part: JsonView,
    text: Seq<char>,
)
    requires
        parts.len() > 0,
        input_part_texts(parts).len() > 0,
    ensures
        ({
            let kind = part.get_str("type"@);
            let one = prompt_shown(Some(JsonView::Array(seq![part])));
            let before = prompt_shown(Some(JsonView::Array(parts)));
            let after = prompt_shown(Some(JsonView::Array(parts.push(part))));
            &&& kind == Some("text"@) && part.get_str("text"@) == Some(text) ==> one == text
                && after == before + seq!['\n'] + text
            &&& kind == Some("localImage"@) ==> one == "🖼 local image"@ && after == before
                + seq!['\n'] + "🖼 local image"@
            &&& kind == Some("image"@) ==> one == "🖼 image"@ && after == before + seq!['\n']
                + "🖼 image"@
            &&& kind != Some("text"@) && kind != Some("localImage"@) && kind != Some("image"@)
                ==> one.len() == 0 && after == before
        }),
{
    lemma_part_words();
    reveal_strlit("\n");
    assert("\n"@ =~= seq!['\n']);
    let none = Seq::<JsonView>::empty();
    assert(seq![part].drop_last() =~= none);
    assert(input_part_texts(none) =~= seq![]);
    let longer = parts.push(part);
    assert(longer.drop_last() =~= parts);
    if let Some(said) = input_part_text(part) {
        assert(input_part_texts(seq![part]) =~= seq![said]);
        assert(input_part_texts(longer).drop_last() =~= input_part_texts(parts));
    }
}

/// A thought is the lines of its summary, in order.
pub proof fn law_thoughts_are_shown_line_by_line(lines: Seq<JsonView>, text: Seq<char>)
    requires
        plain_texts(lines).len() > 0,
    ensures
        join(plain_texts(seq![JsonView::Text(text)]), seq!['\n']) == text,
        join(plain_texts(lines.push(JsonView::Text(text))), seq!['\n']) == join(
            plain_texts(lines),
            seq!['\n'],
        ) + seq!['\n'] + text,
{
    let none = Seq::<JsonView>::empty();
    let one = seq![JsonView::Text(text)];
    assert(one.drop_last() =~= none);
    assert(plain_texts(none) =~= seq![]);
    assert(plain_texts(one) =~= seq![text]);
    let longer = lines.push(JsonView::Text(text));
    assert(longer.drop_last() =~= lines);
    assert(plain_texts(longer).drop_last() =~= plain_texts(lines));
}

/// Whether a message is among some.
pub open spec fn shows_message(messages: Seq<MessageView>, message: MessageView) -> bool {
    exists|i: int| 0 <= i < messages.len() && #[trigger] messages[i] == message
}

/// An item is shown in its session, in place of its earlier form. Until it is
/// complete, one without a text is not shown. What the item is, is known from then
/// on. Other sessions stay as they are.
pub proof fn law_items_are_shown(
    desk: Desk,
    message: JsonView,
    method: Seq<char>,
    params: JsonView,
    item: JsonView,
    id: Seq<char>,
    entry: MessageView,
)
    requires
        listed_once(desk.app.sessions),
        method == "item/started"@ || method == "item/completed"@,
        notifies(message, method, params),
        params.get_str("threadId"@) == Some(id),
        params.get("item"@) == Some(item),
        item_message(item) == Some(entry),
        desk.app.session(id) is Some,
    ensures
        sends_nothing(desk, message),
        ({
            let after = after_message(desk, message);
            let before = desk.app.session(id)->0;
            let shown = method == "item/completed"@ || entry.text.len() > 0;
            &&& !shown ==> after.session(id) == Some(before)
            &&& shown ==> (after.session(id) matches Some(session) && {
                &&& session == (SessionView {
                    messages: session.messages,
                    history_loaded: true,
                    ..before
                })
                &&& shows_message(session.messages, entry)
                &&& entry.kind != MessageKind::User ==> forall|i: int|
                    0 <= i < before.messages.len() && (#[trigger] before.messages[i]).id
                        != entry.id ==> session.messages[i] == before.messages[i]
                &&& entry.kind != MessageKind::User ==> before.messages.len()
                    <= session.messages.len() <= before.messages.len() + 1
                &&& forall|i: int|
                    0 <= i < before.messages.len() && (#[trigger] before.messages[i]).id != entry.id
                        && !begins_with(before.messages[i].id, "local-user-"@) ==> shows_message(
                        session.messages,
                        before.messages[i],
                    )
            })
            &&& lookup(after.live_item_kinds, (id, entry.id)) == Some(entry.kind)
            &&& others_stay(desk.app, after, id)
            &&& listed_once(after.sessions)
        }),
{
    lemma_methods();
    lemma_notified(desk, message, method, params);
    reveal(AppView::notified);
    reveal(AppView::item_seen);
    reveal(AppView::with_kind);
    reveal(AppView::with_item);
    reveal(item_message);
    let app = desk.app;
    let kind = kind_of_item(item)->0;
    let noted = app.with_kind(id, entry.id, item);
    law_put_then_lookup(app.live_item_kinds, (id, entry.id), kind, (id, entry.id));
    lemma_session_slot(app.sessions, id);
    let k = session_slot(app.sessions, id)->0;
    let session = app.sessions[k];
    let messages = if entry.kind == MessageKind::User {
        without_local_copy(session.messages, entry.text)
    } else {
        session.messages
    };
    lemma_copy_is_local(session.messages, entry.text);
    assert forall|j: int|
        0 <= j < session.messages.len() && (#[trigger] session.messages[j]).id != entry.id
            && !begins_with(session.messages[j].id, "local-user-"@) implies shows_message(
        upsert(messages, entry),
        session.messages[j],
    ) by {
        law_upsert_keeps_other_messages(messages, entry);
        let slot = local_copy(session.messages, entry.text);
        let m = if entry.kind == MessageKind::User && slot is Some && slot->0 < j {
            j - 1
        } else {
            j
        };
        assert(messages[m] == session.messages[j]);
        assert(upsert(messages, entry)[m] == session.messages[j]);
    }
    law_upsert_keeps_other_messages(messages, entry);
    lemma_message_index(upsert(messages, entry), entry.id);
    let i = message_index(upsert(messages, entry), entry.id)->0;
    assert(upsert(messages, entry)[i] == entry);
    lemma_updated(
        noted,
        k,
        SessionView { messages: upsert(messages, entry), history_loaded: true, ..session },
    );
}

/// The copy of a prompt that was shown when it was sent gives way to the prompt that
/// the app-server repeats: it is not shown twice.
pub proof fn law_repeated_prompts_replace_their_copies(
    desk: Desk,
    message: JsonView,
    params: JsonView,
    item: JsonView,
    id: Seq<char>,
    entry: MessageView,
    copy: int,
)
    requires
        listed_once(desk.app.sessions),
        notifies(message, "item/completed"@, params),
        params.get_str("threadId"@) == Some(id),
        params.get("item"@) == Some(item),
        item_message(item) == Some(entry),
        entry.kind == MessageKind::User,
        desk.app.session(id) is Some,
        ({
            let messages = desk.app.session(id)->0.messages;
            &&& 0 <= copy < messages.len()
            &&& begins_with(messages[copy].id, "local-user-"@)
            &&& messages[copy].text == entry.text
            &&& forall|i: int| 0 <= i < messages.len() ==> (#[trigger] messages[i]).id != entry.id
        }),
    ensures
        after_message(desk, message).session(id) matches Some(session) && session.messages.len()
            == desk.app.session(id)->0.messages.len() && session.messages.last() == entry,
{
    lemma_methods();
    lemma_notified(desk, message, "item/completed"@, params);
    reveal(AppView::notified);
    reveal(AppView::item_seen);
    reveal(AppView::with_kind);
    reveal(AppView::with_item);
    reveal(item_message);
    let app = desk.app;
    let noted = app.with_kind(id, entry.id, item);
    lemma_session_slot(app.sessions, id);
    let k = session_slot(app.sessions, id)->0;
    let session = app.sessions[k];
    lemma_local_copy(session.messages, entry.text, copy);
    let kept = without_local_copy(session.messages, entry.text);
    lemma_message_index(kept, entry.id);
    if let Some(i) = message_index(kept, entry.id) {
        let slot = local_copy(session.messages, entry.text)->0;
        assert(kept[i] == session.messages[if i < slot {
            i
        } else {
            i + 1
        }]);
    }
    lemma_updated(
        noted,
        k,
        SessionView { messages: upsert(kept, entry), history_loaded: true, ..session },
    );
}

proof fn lemma_copy_is_local(messages: Seq<MessageView>, text: Seq<char>)
    ensures
        local_copy(messages, text) matches Some(i) ==> 0 <= i < messages.len() && begins_with(
            messages[i].id,
            "local-user-"@,
        ),
    decreases messages.len(),
{
    if messages.len() > 0 {
        lemma_copy_is_local(messages.drop_first(), text);
    }
}

proof fn lemma_local_copy(messages: Seq<MessageView>, text: Seq<char>, copy: int)
    requires
        0 <= copy < messages.len(),
        begins_with(messages[copy].id, "local-user-"@),
        messages[copy].text == text,
    ensures
        local_copy(messages, text) matches Some(i) && 0 <= i < messages.len(),
    decreases messages.len(),
{
    if copy > 0 {
        let rest = messages.drop_first();
        assert(rest[copy - 1] == messages[copy]);
        lemma_local_copy(rest, text, copy - 1);
    }
}

/// A piece of text is added to the end of the item that it belongs to, and changes no
/// other message. The first piece begins a message of the kind that is known of the
/// item: progress of the agent where nothing is, and a thought for reasoning.
pub proof fn law_pieces_are_added_in_order(
    desk: Desk,
    message: JsonView,
    method: Seq<char>,
    params: JsonView,
    id: Seq<char>,
    item_id: Seq<char>,
    piece: Seq<char>,
)
    requires
        listed_once(desk.app.sessions),
        method == "item/agentMessage/delta"@ || method == "item/reasoning/summaryTextDelta"@,
        notifies(message, method, params),
        params.get_str("threadId"@) == Some(id),
        params.get_str("itemId"@) == Some(item_id),
        params.get_str("delta"@) == Some(piece),
        desk.app.session(id) is Some,
    ensures
        sends_nothing(desk, message),
        ({
            let after = after_message(desk, message);
            let before = desk.app.session(id)->0;
            let kind = if method == "item/reasoning/summaryTextDelta"@ {
                MessageKind::Thinking
            } else {
                match lookup(desk.app.live_item_kinds, (id, item_id)) {
                    Some(kind) => kind,
                    None => MessageKind::Progress,
                }
            };
            &&& after.session(id) matches Some(session) && {
                &&& session == (SessionView {
                    messages: session.messages,
                    history_loaded: true,
                    ..before
                })
                &&& forall|i: int|
                    0 <= i < before.messages.len() && (#[trigger] before.messages[i]).id != item_id
                        ==> session.messages[i] == before.messages[i]
                &&& (forall|i: int|
                    0 <= i < before.messages.len() ==> (#[trigger] before.messages[i]).id != item_id)
                    ==> session.messages == before.messages.push(
                    MessageView { id: item_id, kind, text: piece },
                )
                &&& forall|i: int|
                    0 <= i < before.messages.len() && (#[trigger] before.messages[i]).id == item_id
                        && (forall|j: int| 0 <= j < i ==> (#[trigger] before.messages[j]).id != item_id)
                        ==> session.messages == before.messages.update(
                        i,
                        MessageView {
                            text: before.messages[i].text + piece,
                            ..before.messages[i]
                        },
                    )
            }
            &&& others_stay(desk.app, after, id)
            &&& listed_once(after.sessions)
        }),
{
    lemma_methods();
    lemma_notified(desk, message, method, params);
    reveal(AppView::notified);
    reveal(AppView::agent_delta);
    reveal(AppView::reasoning_delta);
    reveal(AppView::delta_seen);
    let app = desk.app;
    lemma_session_slot(app.sessions, id);
    let k = session_slot(app.sessions, id)->0;
    let session = app.sessions[k];
    let kind = if method == "item/reasoning/summaryTextDelta"@ {
        MessageKind::Thinking
    } else {
        match lookup(app.live_item_kinds, (id, item_id)) {
            Some(kind) => kind,
            None => MessageKind::Progress,
        }
    };
    lemma_message_index(session.messages, item_id);
    let messages = extend_message(session.messages, item_id, kind, piece);
    lemma_updated(app, k, SessionView { messages, history_loaded: true, ..session });
}

/// Two pieces of a message read as one: what comes first stands first.
pub proof fn law_pieces_join(
    messages: Seq<MessageView>,
    id: Seq<char>,
    kind: MessageKind,
    first: Seq<char>,
    second: Seq<char>,
)
    ensures
        extend_message(extend_message(messages, id, kind, first), id, kind, second)
            == extend_message(messages, id, kind, first + second),
{
    lemma_message_index(messages, id);
    let once = extend_message(messages, id, kind, first);
    lemma_message_index(once, id);
    match message_index(messages, id) {
        Some(i) => {
            assert(once[i].id == id);
            let k = message_index(once, id)->0;
            assert(message_index(once, id) is Some);
            if k < i {
                assert(messages[k].id != id);
            } else if i < k {
                assert(once[i].id != id);
            }
            assert(messages[i].text + first + second =~= messages[i].text + (first + second));
            assert(extend_message(once, id, kind, second) =~= extend_message(
                messages,
                id,
                kind,
                first + second,
            ));
        },
        None => {
            let n = messages.len() as int;
            assert(once[n].id == id);
            let k = message_index(once, id)->0;
            assert(message_index(once, id) is Some);
            if k < n {
                assert(messages[k].id != id);
            }
            assert(extend_message(once, id, kind, second) =~= extend_message(
                messages,
                id,
                kind,
                first + second,
            ));
        },
    }
}

/// A new part of a thought begins on a new line: a line feed is added to what is
/// there, unless it is empty or ends with one. Nothing else changes.
pub proof fn law_new_parts_begin_on_new_lines(
    desk: Desk,
    message: JsonView,
    params: JsonView,
    id: Seq<char>,
    i: int,
)
    requires
        listed_once(desk.app.sessions),
        notifies(message, "item/reasoning/summaryPartAdded"@, params),
        params.get_str("threadId"@) == Some(id),
        desk.app.session(id) is Some,
        ({
            let messages = desk.app.session(id)->0.messages;
            &&& 0 <= i < messages.len()
            &&& params.get_str("itemId"@) == Some(messages[i].id)
            &&& forall|j: int| 0 <= j < i ==> (#[trigger] messages[j]).id != messages[i].id
        }),
    ensures
        sends_nothing(desk, message),
        ({
            let before = desk.app.session(id)->0;
            let entry = before.messages[i];
            let whole = entry.text.len() == 0 || entry.text.last() == '\n';
            &&& whole ==> after_message(desk, message) == desk.app
            &&& !whole ==> after_message(desk, message).session(id) == Some(
                SessionView {
                    messages: before.messages.update(
                        i,
                        MessageView { text: entry.text.push('\n'), ..entry },
                    ),
                    ..before
                },
            )
            &&& others_stay(desk.app, after_message(desk, message), id)
        }),
{
    lemma_methods();
    lemma_notified(desk, message, "item/reasoning/summaryPartAdded"@, params);
    reveal(AppView::notified);
    reveal(AppView::reasoning_part);
    let app = desk.app;
    lemma_session_slot(app.sessions, id);
    let k = session_slot(app.sessions, id)->0;
    let session = app.sessions[k];
    let entry = session.messages[i];
    lemma_message_index(session.messages, entry.id);
    lemma_updated(
        app,
        k,
        SessionView {
            messages: session.messages.update(
                i,
                MessageView { text: entry.text.push('\n'), ..entry },
            ),
            ..session
        },
    );
}

} // verus!
