//! What the composer's keys, pastes and skills do, and how messages are put together.

use vstd::prelude::*;

use crate::clipboard::{names_image, paths_in};
use crate::composer::{
    ComposerView, first_start_after, has_image, has_skill, has_skill_token, image_label,
    lemma_token_ending_at, lemma_token_slot, lemma_token_starting_at, skill_label, SkillView,
    token_slot, TokenKindView, TokenView,
};
use crate::composer_laws::{lemma_last_end, lemma_tokens_parted, lemma_undone};
use crate::deck::is_reading;
use crate::desk::Desk;
use crate::json::{JsonNumberView, JsonView, member_index};
use crate::lifecycle::LifecycleView;
use crate::model::{MessageKind, SessionView};
use crate::params::{list_params, read_params};
use crate::paths::extension;
use crate::prompt_laws::sent_one;
use crate::protocol::{item_message, item_messages, thread_messages, turn_error, turn_messages};
use crate::rpc::{framed, OutgoingView};
use crate::segmentation::grapheme_clusters;
use crate::skills::{
    directory_skills, is_one_word, last_dollar, matching_skills, skill_entries, skill_entry,
    SkillEntryView, typed_name,
};
use crate::state::{AppView, CallView};
use crate::text::{
    byte_len, contains_text, decimal, head, is_white, lemma_byte_len_bounds, lemma_byte_len_concat,
    lemma_index_at, lemma_is_offset, lemma_offset_concat, lemma_offset_ends, lines_of, lower, tail,
    trim,
};

verus! {

proof fn lemma_frame_words()
    ensures
        "id"@ != "method"@,
        "id"@ != "params"@,
        "id"@ != "result"@,
        "id"@ != "error"@,
        "method"@ != "params"@,
        "method"@ != "result"@,
        "method"@ != "error"@,
        "params"@ != "result"@,
        "params"@ != "error"@,
        "result"@ != "error"@,
        "code"@ != "message"@,
{
    reveal_strlit("id");
    reveal_strlit("method");
    reveal_strlit("params");
    reveal_strlit("result");
    reveal_strlit("error");
    reveal_strlit("code");
    reveal_strlit("message");
    assert("id"@.len() != "method"@.len());
    assert("id"@.len() != "params"@.len());
    assert("id"@.len() != "result"@.len());
    assert("id"@.len() != "error"@.len());
    assert("method"@[0] != "params"@[0]);
    assert("method"@[0] != "result"@[0]);
    assert("method"@.len() != "error"@.len());
    assert("params"@[0] != "result"@[0]);
    assert("params"@.len() != "error"@.len());
    assert("result"@.len() != "error"@.len());
    assert("code"@.len() != "message"@.len());
}

proof fn lemma_first_start(tokens: Seq<TokenView>, byte: int, limit: int, least: int)
    requires
        least <= limit,
        forall|i: int|
            0 <= i < tokens.len() ==> (#[trigger] tokens[i]).start < byte || tokens[i].start
                >= least,
    ensures
        first_start_after(tokens, byte, limit) >= least,
    decreases tokens.len(),
{
    if tokens.len() > 0 {
        let rest = tokens.drop_first();
        assert forall|i: int| 0 <= i < rest.len() implies (#[trigger] rest[i]).start < byte
            || rest[i].start >= least by {
            assert(rest[i] == tokens[i + 1]);
        }
        lemma_first_start(rest, byte, limit, least);
    }
}

/// The delete key takes the grapheme behind the cursor away, where it does not join what
/// follows: one that was inserted there is gone, and everything else is what it was.
pub proof fn law_delete_removes_the_next_grapheme(c: ComposerView, grapheme: Seq<char>)
    requires
        c.wf(),
        grapheme.len() > 0,
        grapheme_clusters(grapheme + tail(c.text, c.cursor)) == seq![grapheme]
            + grapheme_clusters(tail(c.text, c.cursor)),
    ensures
        ({
            let back = c.insert(grapheme).at(c.cursor).delete();
            &&& back.text == c.text
            &&& back.tokens == c.tokens
            &&& back.images == c.images
            &&& back.skills == c.skills
            &&& back.cursor == c.cursor
        }),
{
    let p = c.insert(grapheme);
    let q = p.at(c.cursor);
    let a = head(c.text, c.cursor);
    let b = tail(c.text, c.cursor);
    let n = byte_len(grapheme) as int;
    lemma_undone(c, grapheme);
    lemma_byte_len_bounds(grapheme);
    lemma_is_offset(c.text, c.cursor);
    lemma_tokens_parted(c);
    lemma_offset_ends(a);
    lemma_offset_concat(a, grapheme + b, c.cursor);
    assert(a + grapheme + b =~= a + (grapheme + b));
    lemma_index_at(a, a.len() as int);
    assert(tail(q.text, q.cursor) =~= grapheme + b);
    lemma_byte_len_concat(a, grapheme);
    lemma_byte_len_concat(a + grapheme, b);
    lemma_token_starting_at(q.tokens, q.cursor);
    assert forall|i: int| 0 <= i < q.tokens.len() implies (#[trigger] q.tokens[i]).start < q.cursor
        || q.tokens[i].start >= q.cursor + n by {
        let token = c.tokens[i];
    }
    lemma_first_start(q.tokens, q.cursor, byte_len(q.text) as int, q.cursor + n);
    assert((seq![grapheme] + grapheme_clusters(b))[0] == grapheme);
    assert(q.next_stop() == p.cursor);
}

/// The left arrow goes back over one grapheme and the right arrow over it again, where
/// it joins neither what stands before it nor what follows.
pub proof fn law_arrows_go_over_one_grapheme(c: ComposerView, grapheme: Seq<char>)
    requires
        c.wf(),
        grapheme.len() > 0,
        grapheme_clusters(head(c.text, c.cursor) + grapheme) == grapheme_clusters(
            head(c.text, c.cursor),
        ).push(grapheme),
        grapheme_clusters(grapheme + tail(c.text, c.cursor)) == seq![grapheme]
            + grapheme_clusters(tail(c.text, c.cursor)),
    ensures
        c.insert(grapheme).move_left().cursor == c.cursor,
        c.insert(grapheme).move_left().move_right().cursor == c.insert(grapheme).cursor,
        c.insert(grapheme).move_left().text == c.insert(grapheme).text,
{
    let p = c.insert(grapheme);
    let q = p.at(c.cursor);
    let a = head(c.text, c.cursor);
    let b = tail(c.text, c.cursor);
    let n = byte_len(grapheme) as int;
    lemma_undone(c, grapheme);
    lemma_byte_len_bounds(grapheme);
    lemma_is_offset(c.text, c.cursor);
    lemma_token_ending_at(p.tokens, p.cursor);
    assert forall|i: int| 0 <= i < p.tokens.len() implies (#[trigger] p.tokens[i]).end <= c.cursor
        || p.tokens[i].end > p.cursor by {
        let token = c.tokens[i];
        assert(!(token.start < c.cursor && c.cursor < token.end));
    }
    lemma_last_end(p.tokens, p.cursor, c.cursor);
    assert(p.previous_stop() == c.cursor);
    assert(p.move_left() == q);
    lemma_tokens_parted(c);
    lemma_offset_ends(a);
    lemma_offset_concat(a, grapheme + b, c.cursor);
    assert(a + grapheme + b =~= a + (grapheme + b));
    lemma_index_at(a, a.len() as int);
    assert(tail(q.text, q.cursor) =~= grapheme + b);
    lemma_byte_len_concat(a, grapheme);
    lemma_byte_len_concat(a + grapheme, b);
    lemma_token_starting_at(q.tokens, q.cursor);
    assert forall|i: int| 0 <= i < q.tokens.len() implies (#[trigger] q.tokens[i]).start < q.cursor
        || q.tokens[i].start >= q.cursor + n by {
        let token = c.tokens[i];
    }
    lemma_first_start(q.tokens, q.cursor, byte_len(q.text) as int, q.cursor + n);
    assert((seq![grapheme] + grapheme_clusters(b))[0] == grapheme);
    assert(q.next_stop() == p.cursor);
}

/// A skill takes the place of what was typed to find it: its name behind a dollar sign
/// and before a space. It is among the skills of the prompt, once.
pub proof fn law_skills_take_the_place_of_their_search(
    c: ComposerView,
    start: int,
    skill: SkillView,
)
    requires
        c.wf(),
        0 <= start <= c.cursor,
    ensures
        ({
            let after = c.replace_with_skill(start, skill);
            let label = "$"@ + skill.name + " "@;
            &&& after.text == head(c.text, start) + label + tail(c.text, c.cursor)
            &&& after.cursor == start + byte_len(label)
            &&& has_skill(after.skills, skill.path)
            &&& !has_skill(c.skills, skill.path) ==> after.skills == c.skills.push(skill)
            &&& has_skill(c.skills, skill.path) ==> after.skills == c.skills
            &&& after.images == c.images
            &&& after.tokens.len() == c.tokens.len() + 1
            &&& has_skill_token(after.tokens, skill.path)
        }),
{
    let label = skill_label(skill.name);
    let spliced = c.splice(start, c.cursor, label);
    let after = c.replace_with_skill(start, skill);
    lemma_token_slot(spliced.tokens, start);
    let slot = token_slot(spliced.tokens, start);
    assert(after.tokens[slot].kind == TokenKindView::Skill(skill));
    if !has_skill(c.skills, skill.path) {
        assert(after.skills[c.skills.len() as int].path == skill.path);
    }
}

/// Attached images are in the prompt in the order in which they were attached, and each
/// has a numbered token.
pub proof fn law_attached_images_are_numbered(c: ComposerView, path: Seq<char>)
    requires
        c.wf(),
        !has_image(c.images, path),
    ensures
        ({
            let after = c.attach_image(path);
            let label = "[Image #"@ + decimal(c.next_image_number) + "] "@;
            &&& after.images == c.images.push(path)
            &&& after.text == head(c.text, c.cursor) + label + tail(c.text, c.cursor)
            &&& after.cursor == c.cursor + byte_len(label)
            &&& c.next_image_number < usize::MAX ==> after.next_image_number
                == c.next_image_number + 1
            &&& after.tokens.len() == c.tokens.len() + 1
            &&& after.attach_image(path) == after
        }),
{
    let after = c.attach_image(path);
    lemma_token_slot(
        c.splice(c.cursor, c.cursor, image_label(c.next_image_number)).tokens,
        c.cursor,
    );
    assert(after.images[c.images.len() as int] == path);
    assert(has_image(after.images, path));
}

/// What is pasted opens the composer. A long text becomes a token, a shorter one is
/// inserted as it is, paths of image files are attached as images, and an empty paste
/// asks for the image on the clipboard.
pub proof fn law_pastes_go_into_the_composer(
    app: AppView,
    text: Seq<char>,
    files: Seq<Seq<char>>,
)
    ensures
        ({
            let after = app.pasted(text, files);
            let paths = paths_in(lines_of(text));
            let images = paths.len() > 0 && (forall|i: int|
                0 <= i < paths.len() ==> files.contains(#[trigger] paths[i]) && names_image(
                    paths[i],
                ));
            &&& text.len() == 0 ==> after.clipboard_requested && after.composer == app.composer
            &&& text.len() > 0 ==> after.composer_open
            &&& text.len() > 0 && images ==> after.composer == app.composer.attach_images(paths)
            &&& text.len() > 1000 && !images ==> after.composer == app.composer.attach_pasted_text(
                text,
            )
            &&& 0 < text.len() <= 1000 && !images ==> after.composer == app.composer.insert(text)
            &&& after.sessions == app.sessions && after.selected == app.selected
        }),
{
    reveal(AppView::pasted);
    reveal(AppView::wanting_clipboard);
    reveal(AppView::with_images);
    reveal(AppView::opened);
    reveal(AppView::unarmed);
    reveal(AppView::with_composer);
    reveal(AppView::noting);
}

/// A path names an image by its ending, whatever the case.
pub proof fn law_images_are_known_by_their_endings(path: Seq<char>)
    ensures
        extension(path) is None ==> !names_image(path),
        extension(path) matches Some(ending) ==> names_image(path) == ({
            let low = lower(ending);
            low == "png"@ || low == "jpg"@ || low == "jpeg"@ || low == "webp"@ || low == "gif"@
        }),
{
}

/// The picker offers the skills whose name holds what is typed, whatever the case, and
/// no others.
pub proof fn law_the_picker_offers_what_is_typed(
    skills: Seq<SkillEntryView>,
    query: Seq<char>,
    skill: SkillEntryView,
)
    ensures
        matching_skills(skills, query).contains(skill) <==> skills.contains(skill)
            && contains_text(lower(skill.name), lower(query)),
    decreases skills.len(),
{
    if skills.len() > 0 {
        let front = skills.drop_last();
        law_the_picker_offers_what_is_typed(front, query, skill);
        let before = matching_skills(front, query);
        let all = matching_skills(skills, query);
        assert(skills[skills.len() - 1] == skills.last());
        if skills.contains(skill) {
            let i = choose|i: int| 0 <= i < skills.len() && skills[i] == skill;
            if i < front.len() {
                assert(front[i] == skill);
            }
        }
        if front.contains(skill) {
            let i = choose|i: int| 0 <= i < front.len() && front[i] == skill;
            assert(skills[i] == skill);
        }
        if before.contains(skill) {
            let i = choose|i: int| 0 <= i < before.len() && before[i] == skill;
            assert(all[i] == skill);
        }
        if contains_text(lower(skills.last().name), lower(query)) {
            assert(all[before.len() as int] == skills.last());
        }
        if all.contains(skill) {
            let i = choose|i: int| 0 <= i < all.len() && all[i] == skill;
            if i < before.len() {
                assert(before[i] == skill);
            }
        }
    }
}

/// The skills of an answer are read directory by directory, each with its name and its
/// path. An entry without them is passed over.
pub proof fn law_skills_are_read_in_order(
    directories: Seq<JsonView>,
    directory: JsonView,
    entries: Seq<JsonView>,
    entry: JsonView,
)
    ensures
        directory_skills(directories.push(directory)) == directory_skills(directories)
            + skill_entries(directory.get_items("skills"@)),
        entry.get_str("name"@) is None || entry.get_str("path"@) is None ==> skill_entries(
            entries.push(entry),
        ) == skill_entries(entries),
        entry.get_str("name"@) is Some && entry.get_str("path"@) is Some ==> ({
            let all = skill_entries(entries.push(entry));
            &&& all.len() == skill_entries(entries).len() + 1
            &&& all.drop_last() == skill_entries(entries)
            &&& all.last().name == entry.get_str("name"@)->0
            &&& all.last().path == entry.get_str("path"@)->0
            &&& entry.get_str("description"@) matches Some(text) ==> all.last().description == text
            &&& entry.get_str("scope"@) matches Some(text) ==> all.last().scope == text
        }),
        skill_entries(seq![]).len() == 0,
        directory_skills(seq![]).len() == 0,
{
    assert(directories.push(directory).drop_last() =~= directories);
    assert(entries.push(entry).drop_last() =~= entries);
    if skill_entry(entry) is Some {
        assert(skill_entries(entries.push(entry)).drop_last() =~= skill_entries(entries));
    }
}

/// A dollar sign at the start of a word begins the search for a skill, and what follows
/// it is searched for, as long as it is one word.
pub proof fn law_a_dollar_sign_begins_a_search(before: Seq<char>, query: Seq<char>)
    requires
        is_one_word(query),
        !query.contains('$'),
    ensures
        before.len() == 0 || is_white(before.last()) ==> typed_name(before + seq!['$'] + query)
            == Some(before.len() as int),
        before.len() > 0 && !is_white(before.last()) ==> typed_name(
            before + seq!['$'] + query,
        ) is None,
{
    let all = before + seq!['$'] + query;
    lemma_last_dollar(before, query);
    assert(all.skip(before.len() as int + 1) =~= query);
    if before.len() > 0 {
        assert(all[before.len() - 1] == before.last());
    }
}

proof fn lemma_last_dollar(before: Seq<char>, query: Seq<char>)
    requires
        !query.contains('$'),
    ensures
        last_dollar(before + seq!['$'] + query) == Some(before.len() as int),
    decreases query.len(),
{
    let all = before + seq!['$'] + query;
    if query.len() > 0 {
        assert(all.last() == query.last());
        assert(query.contains(query.last()));
        assert(all.drop_last() =~= before + seq!['$'] + query.drop_last());
        assert(!query.drop_last().contains('$')) by {
            if query.drop_last().contains('$') {
                let i = choose|i: int|
                    0 <= i < query.drop_last().len() && query.drop_last()[i] == '$';
                assert(query[i] == '$');
            }
        }
        lemma_last_dollar(before, query.drop_last());
    } else {
        assert(all.last() == '$');
    }
}

/// The first member of an object with a key is the one that is found under it.
pub proof fn law_members_are_found_by_their_keys(
    members: Seq<(Seq<char>, JsonView)>,
    key: Seq<char>,
    value: JsonView,
    other: Seq<char>,
)
    requires
        other != key,
    ensures
        JsonView::Object(seq![(key, value)] + members).get(key) == Some(value),
        JsonView::Object(seq![(key, value)] + members).get(other) == JsonView::Object(members).get(
            other,
        ),
        JsonView::Object(seq![]).get(key) is None,
        JsonView::Text(key).as_str() == Some(key),
        JsonView::Array(seq![value]).as_array() == Some(seq![value]),
{
    let all = seq![(key, value)] + members;
    assert(all.drop_first() =~= members);
    lemma_member_bounds(members, other);
    if let Some(i) = member_index(members, other) {
        assert(all[i + 1] == members[i]);
    }
}

proof fn lemma_member_bounds(members: Seq<(Seq<char>, JsonView)>, key: Seq<char>)
    ensures
        member_index(members, key) matches Some(i) ==> 0 <= i < members.len(),
    decreases members.len(),
{
    if members.len() > 0 {
        lemma_member_bounds(members.drop_first(), key);
    }
}

/// A message for the app-server says what it is: a request has its number, its method
/// and its parameters, a notification its method and parameters, and an answer the
/// identifier of the request that it answers with its result or its error.
pub proof fn law_messages_are_framed(
    number: u64,
    method: Seq<char>,
    params: JsonView,
    code: i64,
)
    ensures
        ({
            let request = framed(OutgoingView::Request { number, method, params });
            let notice = framed(OutgoingView::Notification { method, params });
            let answer = framed(OutgoingView::Response { id: params, result: params });
            let error = framed(OutgoingView::Error { id: params, code, message: method });
            &&& request.get("id"@) == Some(
                JsonView::Number(JsonNumberView::Integer(number as int)),
            )
            &&& request.get_str("method"@) == Some(method)
            &&& request.get("params"@) == Some(params)
            &&& notice.get_str("method"@) == Some(method)
            &&& notice.get("params"@) == Some(params)
            &&& notice.get("id"@) is None
            &&& answer.get("id"@) == Some(params)
            &&& answer.get("result"@) == Some(params)
            &&& answer.get("error"@) is None
            &&& error.get("id"@) == Some(params)
            &&& error.get("result"@) is None
            &&& error.get("error"@) matches Some(told) && told.get_str("message"@) == Some(method)
                && told.get("code"@) == Some(JsonView::Number(JsonNumberView::Integer(code as int)))
        }),
{
    lemma_frame_words();
    reveal_with_fuel(member_index, 5);
}

/// The history of a thread is what its turns say, one after the other: the items that
/// say something, and the error that a turn ended with.
pub proof fn law_histories_are_read_turn_by_turn(
    turns: Seq<JsonView>,
    turn: JsonView,
    items: Seq<JsonView>,
    item: JsonView,
)
    ensures
        turn_messages(seq![]).len() == 0,
        (turn.get("error"@) is None || turn.get("error"@)->0.get_str("message"@) is None)
            ==> turn_messages(turns.push(turn)) == turn_messages(turns) + item_messages(
            turn.get_items("items"@),
        ),
        turn.get("error"@) is Some && turn.get("error"@)->0.get_str("message"@) is Some ==> ({
            let all = turn_messages(turns.push(turn));
            &&& all.drop_last() == turn_messages(turns) + item_messages(turn.get_items("items"@))
            &&& all.len() > 0 && all.last().kind == MessageKind::System && all.last().text
                == turn.get("error"@)->0.get_str("message"@)->0
        }),
        item_messages(seq![]).len() == 0,
        item_message(item) is None ==> item_messages(items.push(item)) == item_messages(items),
        item_message(item) matches Some(message) ==> item_messages(items.push(item)) == (if trim(
            message.text,
        ).len() == 0 {
            item_messages(items)
        } else {
            item_messages(items).push(message)
        }),
{
    assert(turns.push(turn).drop_last() =~= turns);
    assert(items.push(item).drop_last() =~= items);
    reveal(turn_error);
    if turn_error(turn) is Some {
        let said = turn_messages(turns) + item_messages(turn.get_items("items"@));
        assert(turn_messages(turns.push(turn)).drop_last() =~= said);
    }
}

/// A history is the turns of its thread.
pub proof fn law_histories_are_the_turns_of_their_threads(thread: JsonView, turns: Seq<JsonView>)
    ensures
        thread.get("turns"@) == Some(JsonView::Array(turns)) ==> thread_messages(thread)
            == turn_messages(turns),
        thread.get("turns"@) is None ==> thread_messages(thread).len() == 0,
{
    reveal(thread_messages);
}

/// The list of threads is asked for again once a second has passed since it was asked
/// for last, and not while an answer is on its way.
pub proof fn law_lists_are_refreshed_every_second(desk: Desk)
    ensures
        desk.app.initialized && !desk.app.list_inflight && desk.app.clock - desk.app.last_refresh
            >= 1000 ==> sent_one(desk.out, desk.ticked().out, "thread/list"@, list_params(None))
            && desk.ticked().app.list_inflight && desk.ticked().app.last_refresh == desk.app.clock,
        !desk.app.initialized || desk.app.list_inflight || desk.app.clock - desk.app.last_refresh
            < 1000 ==> desk.ticked() == desk,
{
    reveal(Desk::ticked);
    reveal(Desk::listing_first);
    reveal(Desk::listing);
    reveal(Desk::calling);
    reveal(AppView::calling);
    reveal(AppView::list_sent);
}

/// The history of the selected session is asked for once: not while it is there or on
/// its way. Where there is a transcript it is looked at first.
pub proof fn law_histories_are_asked_for_once(desk: Desk, session: SessionView)
    requires
        desk.app.selected_session() == Some(session),
        desk.app.session(session.id) == Some(session),
    ensures
        session.history_loaded ==> desk.ensuring_history() == desk,
        (exists|i: int|
            0 <= i < desk.app.pending_calls.len() && (#[trigger] desk.app.pending_calls[i]).1 == (
            CallView::ThreadRead { thread_id: session.id })) ==> desk.ensuring_history() == desk,
        !session.history_loaded && !is_reading(desk.app.pending_calls, session.id)
            && session.path is None ==> sent_one(
            desk.out,
            desk.ensuring_history().out,
            "thread/read"@,
            read_params(session.id),
        ),
        !session.history_loaded && !is_reading(desk.app.pending_calls, session.id)
            && session.path is Some ==> desk.ensuring_history().out == desk.out
            && (desk.ensuring_history().app.history_requested matches Some(wanted)
            && wanted.thread_id == session.id && wanted.path == session.path->0),
{
    reveal(Desk::ensuring_history);
    reveal(Desk::loading);
    reveal(Desk::reading);
    reveal(Desk::calling);
    reveal(AppView::calling);
    reveal(AppView::wanting_history);
}

/// What the registry holds after each of its operations, session by session.
pub proof fn law_what_the_registry_holds(
    store: LifecycleView,
    id: Seq<char>,
    seen: Set<Seq<char>>,
    x: Seq<char>,
)
    ensures
        store.track(id).adopted.contains(x) <==> x == id || store.adopted.contains(x),
        store.track(id).pinned == store.pinned,
        store.dismiss(id).adopted.contains(x) <==> x != id && store.adopted.contains(x),
        store.dismiss(id).pinned.contains(x) <==> x != id && store.pinned.contains(x),
        store.toggle_pin(id).pinned.contains(x) == (if x == id {
            !store.pinned.contains(x)
        } else {
            store.pinned.contains(x)
        }),
        store.finish_initial_scan(seen).adopted.contains(x) <==> store.adopted.contains(x)
            && seen.contains(x),
        store.finish_initial_scan(seen).pinned.contains(x) <==> store.pinned.contains(x)
            && seen.contains(x),
        store.finish_initial_scan(seen).initialized,
        store.track(id).initialized == store.initialized,
        store.dismiss(id).initialized == store.initialized,
        !store.adopted.contains(id) ==> store.track(id).dirty,
        store.adopted.contains(id) || store.pinned.contains(id) ==> store.dismiss(id).dirty,
        store.toggle_pin(id).dirty,
        !store.initialized ==> store.finish_initial_scan(seen).dirty,
{
}

} // verus!
