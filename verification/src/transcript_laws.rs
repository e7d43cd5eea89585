//! What the preview of a transcript shows, record by record.

use vstd::prelude::*;

use crate::json::{json_document, JsonView};
use crate::model::{MessageKind, MessageView};
use crate::text::{begins_with, contains_text, decimal, first_match, replace_all, trim};
use crate::transcript::{
    after_first_line, byte_lines, content_text, FULL_HISTORY_LIMIT_BYTES, lemma_line_feed,
    line_feed, lossy_text, MAX_RECORD_BYTES, part_texts, said_lately, shown_text, tail_messages,
    TAIL_PREVIEW_BYTES, with_lines, with_record,
};

verus! {

/// Whether a record tells of an event of a type.
pub open spec fn is_event(record: JsonView, kind: Seq<char>) -> bool {
    &&& record.get_str("type"@) == Some("event_msg"@)
    &&& record.get("payload"@) matches Some(payload) && payload.get_str("type"@) == Some(kind)
}

/// Whether a record holds an item of the conversation of a type.
pub open spec fn is_item(record: JsonView, kind: Seq<char>) -> bool {
    &&& record.get_str("type"@) == Some("response_item"@)
    &&& record.get("payload"@) matches Some(payload) && payload.get_str("type"@) == Some(kind)
}

/// Whether a record holds a message with a role.
pub open spec fn is_message_of(record: JsonView, role: Seq<char>) -> bool {
    &&& is_item(record, "message"@)
    &&& record.get("payload"@)->0.get_str("role"@) == Some(role)
}

/// Whether the agent speaks in a record.
pub open spec fn agent_speaks(record: JsonView) -> bool {
    ||| is_event(record, "agent_message"@)
    ||| is_item(record, "agent_message"@)
    ||| is_message_of(record, "assistant"@)
}

/// Whether a record is marked as a commentary.
pub open spec fn is_commentary(record: JsonView) -> bool {
    record.get("payload"@)->0.get_str("phase"@) == Some("commentary"@)
}

/// The records that messages of a kind come from.
pub open spec fn speaks_as(record: JsonView, kind: MessageKind) -> bool {
    match kind {
        MessageKind::User => is_event(record, "user_message"@) || is_message_of(record, "user"@),
        MessageKind::Thinking => is_item(record, "reasoning"@),
        MessageKind::Progress => agent_speaks(record) && is_commentary(record),
        MessageKind::Final => agent_speaks(record) && !is_commentary(record) || is_event(
            record,
            "task_complete"@,
        ),
        MessageKind::System => is_event(record, "turn_aborted"@),
        MessageKind::Question => false,
    }
}

/// The text that a record holds.
pub open spec fn text_in(record: JsonView) -> Option<Seq<char>> {
    let payload = record.get("payload"@)->0;
    if is_event(record, "task_complete"@) {
        payload.get_str("last_agent_message"@)
    } else if is_event(record, "turn_aborted"@) {
        Some("Turn aborted while this session was in the background"@)
    } else if is_event(record, "user_message"@) || is_event(record, "agent_message"@) {
        payload.get_str("message"@)
    } else if is_item(record, "message"@) {
        content_text(payload.get("content"@))
    } else if is_item(record, "reasoning"@) {
        content_text(payload.get("summary"@))
    } else {
        match payload.get("message"@) {
            Some(text) => text.as_str(),
            None => payload.get_str("text"@),
        }
    }
}

proof fn lemma_words()
    ensures
        "event_msg"@ != "response_item"@,
        "user_message"@ != "agent_message"@,
        "user_message"@ != "task_complete"@,
        "user_message"@ != "turn_aborted"@,
        "agent_message"@ != "task_complete"@,
        "agent_message"@ != "turn_aborted"@,
        "task_complete"@ != "turn_aborted"@,
        "message"@ != "reasoning"@,
        "message"@ != "agent_message"@,
        "reasoning"@ != "agent_message"@,
        "user"@ != "assistant"@,
{
    reveal_strlit("event_msg");
    reveal_strlit("response_item");
    reveal_strlit("user_message");
    reveal_strlit("agent_message");
    reveal_strlit("task_complete");
    reveal_strlit("turn_aborted");
    reveal_strlit("message");
    reveal_strlit("reasoning");
    reveal_strlit("user");
    reveal_strlit("assistant");
    assert("event_msg"@.len() != "response_item"@.len());
    assert("user_message"@.len() != "agent_message"@.len());
    assert("user_message"@.len() != "task_complete"@.len());
    assert("user_message"@[0] != "turn_aborted"@[0]);
    assert("agent_message"@[0] != "task_complete"@[0]);
    assert("agent_message"@.len() != "turn_aborted"@.len());
    assert("task_complete"@.len() != "turn_aborted"@.len());
    assert("message"@.len() != "reasoning"@.len());
    assert("message"@.len() != "agent_message"@.len());
    assert("reasoning"@.len() != "agent_message"@.len());
    assert("user"@.len() != "assistant"@.len());
}

/// A record adds at most one message. It is of the kind that the record speaks as:
/// a prompt where the user speaks, a thought where the agent reasons, progress where
/// the agent comments, and a final reply where the agent answers. It says what the
/// record says. Nothing is added only where there is nothing to show, or where it was
/// said lately.
pub proof fn law_records_speak_in_their_own_voice(
    messages: Seq<MessageView>,
    record: JsonView,
    kind: MessageKind,
    text: Seq<char>,
)
    requires
        speaks_as(record, kind),
        shown_text(text_in(record)) == Some(text),
    ensures
        ({
            let after = with_record(messages, record);
            let said = exists|i: int|
                messages.len() - 4 <= i < messages.len() && 0 <= i && (
                #[trigger] messages[i]).kind == kind && messages[i].text == text;
            &&& said ==> after == messages
            &&& !said ==> after.len() == messages.len() + 1 && after.drop_last() == messages
                && after.last().kind == kind && after.last().text == text
        }),
{
    lemma_words();
    let after = with_record(messages, record);
    if !said_lately(messages, kind, text) {
        assert(after.drop_last() =~= messages);
    }
}

/// A message of the agent in a transcript is shown as the agent's: one with the role
/// of the assistant adds its text, as progress where it is a commentary and as a
/// final reply otherwise, and one of the user adds a prompt.
pub proof fn law_messages_are_shown_by_their_roles(
    messages: Seq<MessageView>,
    record: JsonView,
    text: Seq<char>,
)
    requires
        is_item(record, "message"@),
        shown_text(content_text(record.get("payload"@)->0.get("content"@))) == Some(text),
        forall|i: int| 0 <= i < messages.len() ==> (#[trigger] messages[i]).text != text,
    ensures
        ({
            let role = record.get("payload"@)->0.get_str("role"@);
            let after = with_record(messages, record);
            let id = "tail-"@ + decimal(messages.len());
            &&& role == Some("assistant"@) && is_commentary(record) ==> after == messages.push(
                MessageView { id, kind: MessageKind::Progress, text },
            )
            &&& role == Some("assistant"@) && !is_commentary(record) ==> after == messages.push(
                MessageView { id, kind: MessageKind::Final, text },
            )
            &&& role == Some("user"@) ==> after == messages.push(
                MessageView { id, kind: MessageKind::User, text },
            )
            &&& role != Some("assistant"@) && role != Some("user"@) ==> after == messages
        }),
{
    lemma_words();
}

/// A record that speaks as no kind adds nothing, and neither does one without a text
/// to show.
pub proof fn law_other_records_are_passed_over(messages: Seq<MessageView>, record: JsonView)
    requires
        (forall|kind: MessageKind| !speaks_as(record, kind)) || shown_text(
            text_in(record),
        ) is None,
    ensures
        with_record(messages, record) == messages,
{
    lemma_words();
    if shown_text(text_in(record)) is Some {
        assert(!speaks_as(record, MessageKind::User));
        assert(!speaks_as(record, MessageKind::Thinking));
        assert(!speaks_as(record, MessageKind::Progress));
        assert(!speaks_as(record, MessageKind::Final));
        assert(!speaks_as(record, MessageKind::System));
    }
}

/// Whether a line of a transcript holds a record that says a message.
pub open spec fn says(line: Seq<u8>, message: MessageView) -> bool {
    match json_document(line) {
        Some(record) => speaks_as(record, message.kind) && shown_text(text_in(record)) == Some(
            message.text,
        ),
        None => false,
    }
}

/// Whether a message comes from one of the first `count` lines of a transcript.
pub open spec fn comes_from(lines: Seq<Seq<u8>>, count: int, message: MessageView) -> bool {
    exists|k: int| 0 <= k < count && says(#[trigger] lines[k], message)
}

proof fn lemma_lines_speak(lines: Seq<Seq<u8>>, count: int)
    requires
        count <= lines.len(),
    ensures
        forall|i: int|
            0 <= i < with_lines(lines, count).len() ==> comes_from(
                lines,
                count,
                #[trigger] with_lines(lines, count)[i],
            ),
    decreases count,
{
    if count > 0 {
        lemma_lines_speak(lines, count - 1);
        let before = with_lines(lines, count - 1);
        let after = with_lines(lines, count);
        assert forall|i: int| 0 <= i < after.len() implies comes_from(
            lines,
            count,
            #[trigger] after[i],
        ) by {
            lemma_words();
            if i < before.len() {
                assert(after[i] == before[i]);
                let k = choose|k: int| 0 <= k < count - 1 && says(#[trigger] lines[k], before[i]);
                assert(says(lines[k], after[i]));
            } else {
                let record = json_document(lines[count - 1])->0;
                assert(speaks_as(record, after[i].kind));
                assert(shown_text(text_in(record)) == Some(after[i].text));
                assert(says(lines[count - 1], after[i]));
            }
        }
    }
}

/// Every message of a preview comes from a record of the transcript that speaks as
/// its kind and says its text. So a prompt is only what the user said, and a final
/// reply only what the agent said.
pub proof fn law_previews_show_only_what_was_said(
    bytes: Seq<u8>,
    discard_leading_partial: bool,
    i: int,
)
    requires
        0 <= i < tail_messages(bytes, discard_leading_partial).len(),
    ensures
        ({
            let lines = byte_lines(
                if discard_leading_partial {
                    after_first_line(bytes)
                } else {
                    bytes
                },
            );
            comes_from(
                lines,
                lines.len() as int,
                tail_messages(bytes, discard_leading_partial)[i],
            )
        }),
{
    let lines = byte_lines(
        if discard_leading_partial {
            after_first_line(bytes)
        } else {
            bytes
        },
    );
    lemma_lines_speak(lines, lines.len() as int);
}

proof fn lemma_with_lines_prefix(lines: Seq<Seq<u8>>, more: Seq<Seq<u8>>, count: int)
    requires
        count <= lines.len(),
    ensures
        with_lines(lines + more, count) == with_lines(lines, count),
    decreases count,
{
    if count > 0 {
        lemma_with_lines_prefix(lines, more, count - 1);
        assert((lines + more)[count - 1] == lines[count - 1]);
    }
}

proof fn lemma_lines_of_two(bytes: Seq<u8>, line: Seq<u8>)
    requires
        !line.contains(10u8),
    ensures
        byte_lines(bytes + seq![10u8] + line) == byte_lines(bytes) + seq![line],
    decreases bytes.len(),
{
    let all = bytes + seq![10u8] + line;
    lemma_line_feed(bytes);
    lemma_line_feed(all);
    match line_feed(bytes) {
        Some(i) => {
            assert(all[i] == 10);
            assert forall|j: int| 0 <= j < i implies all[j] != 10 by {
                assert(all[j] == bytes[j]);
            }
            let k = line_feed(all)->0;
            assert(line_feed(all) is Some);
            assert(k == i) by {
                if k < i {
                    assert(all[k] == bytes[k]);
                } else if i < k {
                    assert(all[i] != 10);
                }
            }
            assert(all.take(i) =~= bytes.take(i));
            assert(all.skip(i + 1) =~= bytes.skip(i + 1) + seq![10u8] + line);
            lemma_lines_of_two(bytes.skip(i + 1), line);
            assert(byte_lines(all) =~= byte_lines(bytes) + seq![line]);
        },
        None => {
            let n = bytes.len() as int;
            assert(all[n] == 10);
            assert(line_feed(all) == Some(n)) by {
                let k = line_feed(all)->0;
                assert(line_feed(all) is Some);
                if k < n {
                    assert(all[k] == bytes[k]);
                } else if n < k {
                    assert(all[n] != 10);
                }
            }
            assert(all.take(n) =~= bytes);
            assert(all.skip(n + 1) =~= line);
            lemma_line_feed(line);
            if let Some(i) = line_feed(line) {
                assert(line.contains(10u8));
            }
            assert(line_feed(line) is None);
            assert(byte_lines(line) == seq![line]);
            assert(byte_lines(bytes) == seq![bytes]);
            assert(byte_lines(all) == seq![bytes] + byte_lines(line));
        },
    }
}

/// Whether the first bytes of a line name a record of a tool.
pub open spec fn names_a_tool(line: Seq<u8>) -> bool {
    let beginning = lossy_text(
        if line.len() < 512 {
            line
        } else {
            line.take(512)
        },
    );
    ||| contains_text(beginning, "\"type\":\"custom_tool_call\""@)
    ||| contains_text(beginning, "\"type\":\"custom_tool_call_output\""@)
    ||| contains_text(beginning, "\"type\":\"function_call\""@)
    ||| contains_text(beginning, "\"type\":\"function_call_output\""@)
    ||| contains_text(beginning, "\"type\":\"local_shell_call\""@)
    ||| contains_text(beginning, "\"type\":\"local_shell_call_output\""@)
}

/// A transcript is read line by line: one more line adds what its record says behind
/// all that came before, unless it is empty, too long, no JSON, or a tool's record.
pub proof fn law_transcripts_are_read_line_by_line(bytes: Seq<u8>, line: Seq<u8>)
    requires
        !line.contains(10u8),
    ensures
        ({
            let before = tail_messages(bytes, false);
            let after = tail_messages(bytes + seq![10u8] + line, false);
            let readable = 0 < line.len() <= 64 * 1024 * 1024 && !names_a_tool(line);
            match json_document(line) {
                Some(record) => after == (if readable {
                    with_record(before, record)
                } else {
                    before
                }),
                None => after == before,
            }
        }),
{
    let lines = byte_lines(bytes);
    lemma_lines_of_two(bytes, line);
    lemma_with_lines_prefix(lines, seq![line], lines.len() as int);
    assert((lines + seq![line])[lines.len() as int] == line);
}

/// The record that the end of a transcript may begin inside of is left out: what
/// comes before the first line feed does not matter.
pub proof fn law_a_cut_record_is_left_out(cut: Seq<u8>, bytes: Seq<u8>)
    requires
        !cut.contains(10u8),
    ensures
        tail_messages(cut + seq![10u8] + bytes, true) == tail_messages(bytes, false),
        tail_messages(cut, true).len() == 0,
{
    let all = cut + seq![10u8] + bytes;
    let n = cut.len() as int;
    lemma_line_feed(all);
    lemma_line_feed(cut);
    assert(all[n] == 10);
    assert(line_feed(all) == Some(n)) by {
        let k = line_feed(all)->0;
        assert(line_feed(all) is Some);
        if k < n {
            assert(all[k] == cut[k]);
            assert(cut.contains(10u8));
        } else if n < k {
            assert(all[n] != 10);
        }
    }
    assert(all.skip(n + 1) =~= bytes);
    if let Some(i) = line_feed(cut) {
        assert(cut.contains(10u8));
    }
    let none = Seq::<u8>::empty();
    assert(byte_lines(none) =~= seq![none]);
    assert(with_lines(seq![none], 1) == with_lines(seq![none], 0));
}

proof fn lemma_replace_absent(s: Seq<char>, from: Seq<char>, to: Seq<char>)
    requires
        from.len() > 0,
        !s.contains(from[0]),
    ensures
        replace_all(s, from, to) == s,
    decreases s.len(),
{
    if s.len() > 0 {
        assert(s.contains(s[0]));
        if begins_with(s, from) {
            assert(s.take(from.len() as int)[0] == s[0]);
        }
        let rest = s.drop_first();
        assert(!rest.contains(from[0])) by {
            if rest.contains(from[0]) {
                let i = choose|i: int| 0 <= i < rest.len() && rest[i] == from[0];
                assert(s[i + 1] == from[0]);
            }
        }
        lemma_replace_absent(rest, from, to);
        assert(seq![s[0]] + rest =~= s);
    }
}

proof fn lemma_first_match_none(s: Seq<char>, part: Seq<char>)
    requires
        !contains_text(s, part),
    ensures
        first_match(s, part) is None,
    decreases s.len(),
{
    assert(s.skip(0) =~= s);
    assert(!begins_with(s.skip(0), part));
    if s.len() > 0 {
        let rest = s.drop_first();
        assert(!contains_text(rest, part)) by {
            if contains_text(rest, part) {
                let i = choose|i: int| 0 <= i <= rest.len() && #[trigger] begins_with(
                    rest.skip(i),
                    part,
                );
                assert(rest.skip(i) =~= s.skip(i + 1));
                assert(begins_with(s.skip(i + 1), part));
            }
        }
        lemma_first_match_none(rest, part);
    }
}

/// A text is shown as it is but for the white space around it, where it has no
/// carriage return and no citation.
pub proof fn law_plain_texts_are_shown_as_they_are(text: Seq<char>)
    requires
        !text.contains('\r'),
        !contains_text(text, "<oai-mem-citation>"@),
    ensures
        trim(text).len() > 0 ==> shown_text(Some(text)) == Some(trim(text)),
        trim(text).len() == 0 ==> shown_text(Some(text)) is None,
        shown_text(None) is None,
{
    reveal_strlit("\r\n");
    reveal_strlit("\r");
    lemma_replace_absent(text, "\r\n"@, "\n"@);
    lemma_replace_absent(text, "\r"@, "\n"@);
    lemma_first_match_none(text, "<oai-mem-citation>"@);
}

proof fn lemma_match_from(a: Seq<char>, b: Seq<char>, part: Seq<char>, k: int)
    requires
        0 <= k <= a.len(),
        part.len() > 0,
        !contains_text(a, part),
        forall|j: int| 0 <= j < a.len() ==> !begins_with(#[trigger] (a + part + b).skip(j), part),
    ensures
        first_match((a + part + b).skip(k), part) == Some(a.len() - k),
    decreases a.len() - k,
{
    let all = a + part + b;
    let rest = all.skip(k);
    if k == a.len() {
        assert(rest =~= part + b);
        assert(rest.take(part.len() as int) =~= part);
    } else {
        assert(rest.drop_first() =~= all.skip(k + 1));
        lemma_match_from(a, b, part, k + 1);
    }
}

/// What follows a citation mark is not shown, and neither is the mark.
pub proof fn law_citations_are_not_shown(text: Seq<char>, citation: Seq<char>)
    requires
        !text.contains('\r'),
        !citation.contains('\r'),
        !text.contains('<'),
        trim(text).len() > 0,
    ensures
        shown_text(Some(text + "<oai-mem-citation>"@ + citation)) == Some(trim(text)),
{
    reveal_strlit("\r\n");
    reveal_strlit("\r");
    reveal_strlit("<oai-mem-citation>");
    let mark = "<oai-mem-citation>"@;
    let all = text + mark + citation;
    assert(!all.contains('\r')) by {
        if all.contains('\r') {
            let i = choose|i: int| 0 <= i < all.len() && all[i] == '\r';
            if i < text.len() {
                assert(text[i] == '\r');
            } else if i < text.len() + mark.len() {
                assert(mark[i - text.len()] == '\r');
            } else {
                assert(citation[i - text.len() - mark.len()] == '\r');
            }
        }
    }
    lemma_replace_absent(all, "\r\n"@, "\n"@);
    lemma_replace_absent(all, "\r"@, "\n"@);
    assert forall|j: int| 0 <= j < text.len() implies !begins_with(#[trigger] all.skip(j), mark) by {
        if begins_with(all.skip(j), mark) {
            assert(all.skip(j).take(mark.len() as int)[0] == text[j]);
            assert(text.contains('<'));
        }
    }
    assert(!contains_text(text, mark)) by {
        if contains_text(text, mark) {
            let i = choose|i: int| 0 <= i <= text.len() && #[trigger] begins_with(
                text.skip(i),
                mark,
            );
            assert(text.skip(i).take(mark.len() as int)[0] == text[i]);
            assert(text.contains('<'));
        }
    }
    lemma_match_from(text, citation, mark, 0);
    assert(all.skip(0) =~= all);
    assert(all.take(text.len() as int) =~= text);
}

/// The content of a message is a text, or the texts of its parts on lines of their
/// own. A part is a text itself, or has one as its text, its input or its output.
pub proof fn law_the_parts_of_a_message_are_its_lines(
    parts: Seq<JsonView>,
    part: JsonView,
    text: Seq<char>,
    earlier: Seq<char>,
)
    requires
        text.len() > 0,
        earlier.len() > 0,
        ({
            ||| part == JsonView::Text(text)
            ||| part is Object && part.get_str("text"@) == Some(text)
            ||| part is Object && part.get_str("text"@) is None && part.get_str("input_text"@)
                == Some(text)
            ||| part is Object && part.get_str("text"@) is None && part.get_str("input_text"@) is None
                && part.get_str("output_text"@) == Some(text)
        }),
    ensures
        content_text(Some(JsonView::Text(text))) == Some(text),
        content_text(Some(JsonView::Array(seq![part]))) == Some(text),
        content_text(Some(JsonView::Array(parts))) == Some(earlier) ==> content_text(
            Some(JsonView::Array(parts.push(part))),
        ) == Some(earlier + seq!['\n'] + text),
        content_text(None) is None,
{
    reveal_strlit("\n");
    assert("\n"@ =~= seq!['\n']);
    let none = Seq::<JsonView>::empty();
    assert(seq![part].drop_last() =~= none);
    assert(part_texts(none) =~= seq![]);
    assert(part_texts(seq![part]) =~= seq![text]);
    let longer = parts.push(part);
    assert(longer.drop_last() =~= parts);
    assert(part_texts(longer) == part_texts(parts).push(text));
    assert(part_texts(longer).drop_last() =~= part_texts(parts));
}

/// The limits of previews: four mebibytes for a transcript that is left to the
/// app-server, and 64 for what is read of a larger one and for a record.
pub proof fn law_previews_are_bounded()
    ensures
        FULL_HISTORY_LIMIT_BYTES == 4194304,
        TAIL_PREVIEW_BYTES == 67108864,
        MAX_RECORD_BYTES == 67108864,
{
}

} // verus!
