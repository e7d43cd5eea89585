//! Bounded previews of large session transcripts.

use vstd::prelude::*;

use crate::json::{Json, json_document, json_views, JsonView, lemma_array_view, parse_json};
use crate::model::{MessageEntry, MessageKind, MessageView};
use crate::text::{
    before_match, concat_text, contains_text, decimal, decimal_text, join, join_texts,
    lemma_texts_push, option_text, replace_all, replace_text, same_text, text_before, text_contains,
    text_is_empty, texts, trim, trim_text,
};
use crate::views::{group_views, views};

verus! {

broadcast use group_views;

/// Transcripts up to this size are read through the app-server.
pub const FULL_HISTORY_LIMIT_BYTES: u64 = 4 * 1024 * 1024;

/// The part of a larger transcript that is read: its end.
pub const TAIL_PREVIEW_BYTES: u64 = 64 * 1024 * 1024;

/// The largest record that is read.
pub const MAX_RECORD_BYTES: usize = 64 * 1024 * 1024;

/// The messages at the end of a large transcript, with its size.
#[derive(Debug)]
pub struct BoundedPreview {
    pub file_bytes: u64,
    pub messages: Vec<MessageEntry>,
}

/// The part of a transcript to read: its first byte and its length. Nothing for
/// one that is small enough for the app-server.
pub fn preview_window(file_bytes: u64) -> (window: Option<(u64, u64)>)
    ensures
        match window {
            Some((start, length)) => file_bytes > FULL_HISTORY_LIMIT_BYTES && start + length
                == file_bytes && length == (if file_bytes < TAIL_PREVIEW_BYTES {
                file_bytes
            } else {
                TAIL_PREVIEW_BYTES
            }),
            None => file_bytes <= FULL_HISTORY_LIMIT_BYTES,
        },
{
    if file_bytes <= FULL_HISTORY_LIMIT_BYTES {
        return None;
    }
    let start: u64 = file_bytes.saturating_sub(TAIL_PREVIEW_BYTES);
    Some((start, file_bytes - start))
}

/// The preview of a large transcript from the bytes of its window.
pub fn bounded_preview(file_bytes: u64, start: u64, bytes: &[u8]) -> (preview: BoundedPreview)
    ensures
        preview.file_bytes == file_bytes,
        views(preview.messages@) == tail_messages(bytes@, start > 0),
{
    BoundedPreview { file_bytes, messages: parse_tail(bytes, start > 0) }
}

/// The position of the first line feed.
pub open spec fn line_feed(bytes: Seq<u8>) -> Option<int>
    decreases bytes.len(),
{
    if bytes.len() == 0 {
        None
    } else if bytes[0] == 10 {
        Some(0)
    } else {
        match line_feed(bytes.drop_first()) {
            Some(i) => Some(i + 1),
            None => None,
        }
    }
}

/// The parts of some bytes between line feeds.
pub open spec fn byte_lines(bytes: Seq<u8>) -> Seq<Seq<u8>>
    decreases bytes.len(),
{
    match line_feed(bytes) {
        None => seq![bytes],
        Some(i) => if 0 <= i < bytes.len() {
            seq![bytes.take(i)] + byte_lines(bytes.skip(i + 1))
        } else {
            seq![bytes]
        },
    }
}

/// The bytes behind the first line feed.
pub open spec fn after_first_line(bytes: Seq<u8>) -> Seq<u8> {
    match line_feed(bytes) {
        Some(i) => bytes.skip(i + 1),
        None => seq![],
    }
}

/// What the standard library makes of bytes that may not be UTF-8.
pub uninterp spec fn lossy_text(bytes: Seq<u8>) -> Seq<char>;

/// `String::from_utf8_lossy`: a function of the bytes alone.
#[verifier::external_body]
fn text_from_bytes(bytes: &[u8]) -> (text: String)
    ensures
        text@ == lossy_text(bytes@),
{
    String::from_utf8_lossy(bytes).into_owned()
}

/// Whether a record's beginning names one of the tool records, which no preview
/// shows.
pub open spec fn is_noisy(header: Seq<char>) -> bool {
    ||| contains_text(header, "\"type\":\"custom_tool_call\""@)
    ||| contains_text(header, "\"type\":\"custom_tool_call_output\""@)
    ||| contains_text(header, "\"type\":\"function_call\""@)
    ||| contains_text(header, "\"type\":\"function_call_output\""@)
    ||| contains_text(header, "\"type\":\"local_shell_call\""@)
    ||| contains_text(header, "\"type\":\"local_shell_call_output\""@)
}

/// Whether a record's beginning names one of the tool records.
pub fn is_noisy_record(header: &str) -> (noisy: bool)
    ensures
        noisy == is_noisy(header@),
{
    text_contains(header, "\"type\":\"custom_tool_call\"") || text_contains(
        header,
        "\"type\":\"custom_tool_call_output\"",
    ) || text_contains(header, "\"type\":\"function_call\"") || text_contains(
        header,
        "\"type\":\"function_call_output\"",
    ) || text_contains(header, "\"type\":\"local_shell_call\"") || text_contains(
        header,
        "\"type\":\"local_shell_call_output\"",
    )
}

/// A message's text as it is shown: with plain line feeds, without citations and
/// without white space around it. Nothing where that leaves nothing.
pub open spec fn shown_text(text: Option<Seq<char>>) -> Option<Seq<char>> {
    match text {
        Some(text) => {
            let lines = replace_all(replace_all(text, "\r\n"@, "\n"@), "\r"@, "\n"@);
            let shown = trim(before_match(lines, "<oai-mem-citation>"@));
            if shown.len() == 0 {
                None
            } else {
                Some(shown)
            }
        },
        None => None,
    }
}

/// A message's text as it is shown.
pub fn normalize_text(text: Option<&str>) -> (shown: Option<String>)
    ensures
        option_text(shown) == shown_text(
            match text {
                Some(text) => Some(text@),
                None => None,
            },
        ),
{
    match text {
        Some(text) => {
            proof {
                reveal_strlit("\r\n");
                reveal_strlit("\r");
            }
            let lines = replace_text(replace_text(text, "\r\n", "\n").as_str(), "\r", "\n");
            let shown = trim_text(text_before(lines.as_str(), "<oai-mem-citation>").as_str());
            if text_is_empty(shown.as_str()) {
                None
            } else {
                Some(shown)
            }
        },
        None => None,
    }
}

/// Whether one of the last four messages says the same.
pub open spec fn said_lately(messages: Seq<MessageView>, kind: MessageKind, text: Seq<char>) -> bool {
    exists|i: int|
        messages.len() - 4 <= i < messages.len() && 0 <= i && (#[trigger] messages[i]).kind == kind
            && messages[i].text == text
}

/// The messages with one more, unless there is nothing to show or it was said
/// lately.
pub open spec fn with_text(
    messages: Seq<MessageView>,
    kind: MessageKind,
    text: Option<Seq<char>>,
) -> Seq<MessageView> {
    match shown_text(text) {
        Some(text) => if said_lately(messages, kind, text) {
            messages
        } else {
            messages.push(
                MessageView { id: "tail-"@ + decimal(messages.len()), kind, text },
            )
        },
        None => messages,
    }
}

/// Adds a message, unless there is nothing to show or it was said lately.
pub fn push_text(messages: &mut Vec<MessageEntry>, kind: MessageKind, text: Option<&str>)
    ensures
        views(final(messages)@) == with_text(
            views(old(messages)@),
            kind,
            match text {
                Some(text) => Some(text@),
                None => None,
            },
        ),
{
    let ghost given = match text {
        Some(text) => Some(text@),
        None => None,
    };
    let shown = match normalize_text(text) {
        Some(shown) => shown,
        None => {
            return;
        },
    };
    let ghost all = views(messages@);
    let first: usize = messages.len().saturating_sub(4);
    let mut i: usize = first;
    while i < messages.len()
        invariant
            first <= i <= messages.len(),
            first == (if messages.len() < 4 {
                0
            } else {
                messages.len() - 4
            }),
            all == views(messages@),
            all == views(old(messages)@),
            forall|j: int|
                first <= j < i ==> !((#[trigger] all[j]).kind == kind && all[j].text == shown@),
            given == (match text {
                Some(text) => Some(text@),
                None => None,
            }),
            shown_text(given) == Some(shown@),
        decreases messages.len() - i,
    {
        assert(all[i as int] == messages@[i as int]@);
        if messages[i].kind == kind && same_text(messages[i].text.as_str(), shown.as_str()) {
            assert(said_lately(all, kind, shown@));
            return;
        }
        i += 1;
    }
    let id = concat_text("tail-", decimal_text(messages.len() as u64).as_str());
    messages.push(MessageEntry { id, kind, text: shown });
}

/// The messages with what an event record says.
pub open spec fn with_event(messages: Seq<MessageView>, payload: JsonView) -> Seq<MessageView> {
    match payload.get_str("type"@) {
        Some(kind) => if kind == "user_message"@ {
            with_text(messages, MessageKind::User, payload.get_str("message"@))
        } else if kind == "agent_message"@ {
            with_text(messages, spoken_kind(payload), payload.get_str("message"@))
        } else if kind == "task_complete"@ {
            with_text(messages, MessageKind::Final, payload.get_str("last_agent_message"@))
        } else if kind == "turn_aborted"@ {
            with_text(
                messages,
                MessageKind::System,
                Some("Turn aborted while this session was in the background"@),
            )
        } else {
            messages
        },
        None => messages,
    }
}

/// Whether the agent reports on its progress or gives its final answer.
pub open spec fn spoken_kind(payload: JsonView) -> MessageKind {
    if payload.get_str("phase"@) == Some("commentary"@) {
        MessageKind::Progress
    } else {
        MessageKind::Final
    }
}

fn agent_message_kind(payload: &Json) -> (kind: MessageKind)
    ensures
        kind == spoken_kind(payload@),
{
    match payload.get_str("phase") {
        Some(phase) => if same_text(phase, "commentary") {
            MessageKind::Progress
        } else {
            MessageKind::Final
        },
        None => MessageKind::Final,
    }
}

/// Adds what an event record says.
fn parse_event(payload: &Json, messages: &mut Vec<MessageEntry>)
    ensures
        views(final(messages)@) == with_event(views(old(messages)@), payload@),
{
    if let Some(kind) = payload.get_str("type") {
        if same_text(kind, "user_message") {
            push_text(messages, MessageKind::User, payload.get_str("message"));
        } else if same_text(kind, "agent_message") {
            push_text(messages, agent_message_kind(payload), payload.get_str("message"));
        } else if same_text(kind, "task_complete") {
            push_text(messages, MessageKind::Final, payload.get_str("last_agent_message"));
        } else if same_text(kind, "turn_aborted") {
            push_text(
                messages,
                MessageKind::System,
                Some("Turn aborted while this session was in the background"),
            );
        }
    }
}

/// The text of one part of a message.
pub open spec fn part_text(part: JsonView) -> Option<Seq<char>> {
    match part {
        JsonView::Text(text) => Some(text),
        JsonView::Object(_) => match part.get_str("text"@) {
            Some(text) => Some(text),
            None => match part.get_str("input_text"@) {
                Some(text) => Some(text),
                None => part.get_str("output_text"@),
            },
        },
        _ => None,
    }
}

/// The texts of the parts that have one.
pub open spec fn part_texts(parts: Seq<JsonView>) -> Seq<Seq<char>>
    decreases parts.len(),
{
    if parts.len() == 0 {
        seq![]
    } else {
        match part_text(parts.last()) {
            Some(text) => part_texts(parts.drop_last()).push(text),
            None => part_texts(parts.drop_last()),
        }
    }
}

/// The text of a message's content: a plain text, or the lines of its parts.
pub open spec fn content_text(content: Option<JsonView>) -> Option<Seq<char>> {
    match content {
        Some(JsonView::Text(text)) => Some(text),
        Some(JsonView::Array(parts)) => {
            let text = join(part_texts(parts), "\n"@);
            if text.len() == 0 {
                None
            } else {
                Some(text)
            }
        },
        _ => None,
    }
}

fn text_of_part(part: &Json) -> (text: Option<&str>)
    ensures
        match text {
            Some(text) => part_text(part@) == Some(text@),
            None => part_text(part@) is None,
        },
{
    match part {
        Json::Text(text) => Some(text.as_str()),
        Json::Object(_) => match part.get_str("text") {
            Some(text) => Some(text),
            None => match part.get_str("input_text") {
                Some(text) => Some(text),
                None => part.get_str("output_text"),
            },
        },
        _ => None,
    }
}

fn text_from_value(value: Option<&Json>) -> (text: Option<String>)
    ensures
        option_text(text) == content_text(
            match value {
                Some(value) => Some(value@),
                None => None,
            },
        ),
{
    match value {
        Some(Json::Text(text)) => Some(text.clone()),
        Some(Json::Array(parts)) => {
            let ghost all = json_views(parts@);
            let mut found: Vec<String> = Vec::new();
            let mut i: usize = 0;
            proof {
                lemma_array_view(*parts);
                assert(all.take(0) =~= seq![]);
                assert(texts(found@) =~= seq![]);
            }
            while i < parts.len()
                invariant
                    i <= parts.len(),
                    all == json_views(parts@),
                    texts(found@) == part_texts(all.take(i as int)),
                decreases parts.len() - i,
            {
                proof {
                    assert(all.take(i + 1).drop_last() =~= all.take(i as int));
                    assert(all.take(i + 1).last() == parts@[i as int]@);
                }
                if let Some(text) = text_of_part(&parts[i]) {
                    let text = text.to_owned();
                    proof {
                        lemma_texts_push(found@, text);
                    }
                    found.push(text);
                }
                i += 1;
            }
            assert(all.take(all.len() as int) =~= all);
            let text = join_texts(&found, "\n");
            if text_is_empty(text.as_str()) {
                None
            } else {
                Some(text)
            }
        },
        _ => None,
    }
}

/// The messages with what an item of the conversation says.
pub open spec fn with_item(messages: Seq<MessageView>, payload: JsonView) -> Seq<MessageView> {
    match payload.get_str("type"@) {
        Some(kind) => if kind == "message"@ {
            match payload.get_str("role"@) {
                Some(role) => if role == "user"@ {
                    with_text(messages, MessageKind::User, content_text(payload.get("content"@)))
                } else if role == "assistant"@ {
                    with_text(
                        messages,
                        spoken_kind(payload),
                        content_text(payload.get("content"@)),
                    )
                } else {
                    messages
                },
                None => messages,
            }
        } else if kind == "reasoning"@ {
            with_text(messages, MessageKind::Thinking, content_text(payload.get("summary"@)))
        } else if kind == "agent_message"@ {
            let text = match payload.get("message"@) {
                Some(text) => Some(text),
                None => payload.get("text"@),
            };
            with_text(
                messages,
                spoken_kind(payload),
                match text {
                    Some(text) => text.as_str(),
                    None => None,
                },
            )
        } else {
            messages
        },
        None => messages,
    }
}

fn push_owned(messages: &mut Vec<MessageEntry>, kind: MessageKind, text: &Option<String>)
    ensures
        views(final(messages)@) == with_text(views(old(messages)@), kind, option_text(*text)),
{
    match text {
        Some(text) => push_text(messages, kind, Some(text.as_str())),
        None => push_text(messages, kind, None),
    }
}

/// Adds what an item of the conversation says.
fn parse_response_item(payload: &Json, messages: &mut Vec<MessageEntry>)
    ensures
        views(final(messages)@) == with_item(views(old(messages)@), payload@),
{
    if let Some(kind) = payload.get_str("type") {
        if same_text(kind, "message") {
            if let Some(role) = payload.get_str("role") {
                if same_text(role, "user") {
                    let text = text_from_value(payload.get("content"));
                    push_owned(messages, MessageKind::User, &text);
                } else if same_text(role, "assistant") {
                    let text = text_from_value(payload.get("content"));
                    push_owned(messages, agent_message_kind(payload), &text);
                }
            }
        } else if same_text(kind, "reasoning") {
            let text = text_from_value(payload.get("summary"));
            push_owned(messages, MessageKind::Thinking, &text);
        } else if same_text(kind, "agent_message") {
            let value = match payload.get("message") {
                Some(value) => Some(value),
                None => payload.get("text"),
            };
            let text = match value {
                Some(value) => value.as_str(),
                None => None,
            };
            push_text(messages, agent_message_kind(payload), text);
        }
    }
}

/// The messages with what a record of the transcript says.
pub open spec fn with_record(messages: Seq<MessageView>, envelope: JsonView) -> Seq<MessageView> {
    match envelope.get("payload"@) {
        Some(payload) => match envelope.get_str("type"@) {
            Some(kind) => if kind == "event_msg"@ {
                with_event(messages, payload)
            } else if kind == "response_item"@ {
                with_item(messages, payload)
            } else {
                messages
            },
            None => messages,
        },
        None => messages,
    }
}

/// Adds what a record of the transcript says.
pub fn push_record(messages: &mut Vec<MessageEntry>, envelope: &Json)
    ensures
        views(final(messages)@) == with_record(views(old(messages)@), envelope@),
{
    if let Some(payload) = envelope.get("payload") {
        if let Some(kind) = envelope.get_str("type") {
            if same_text(kind, "event_msg") {
                parse_event(payload, messages);
            } else if same_text(kind, "response_item") {
                parse_response_item(payload, messages);
            }
        }
    }
}

/// The first bytes of a record, in which its type is looked for.
pub open spec fn record_header(line: Seq<u8>) -> Seq<u8> {
    if line.len() < 512 {
        line
    } else {
        line.take(512)
    }
}

/// Whether a line may hold a record that the preview shows.
pub open spec fn is_shown_line(line: Seq<u8>) -> bool {
    0 < line.len() <= MAX_RECORD_BYTES && !is_noisy(lossy_text(record_header(line)))
}

/// The messages with what the first `count` lines of a transcript say. Lines that
/// are no JSON are passed over.
pub open spec fn with_lines(lines: Seq<Seq<u8>>, count: int) -> Seq<MessageView>
    decreases count,
{
    if count <= 0 {
        seq![]
    } else {
        let before = with_lines(lines, count - 1);
        let line = lines[count - 1];
        if is_shown_line(line) {
            match json_document(line) {
                Some(envelope) => with_record(before, envelope),
                None => before,
            }
        } else {
            before
        }
    }
}

/// The messages in the end of a transcript. Where the end may begin inside a
/// record, that record is left out.
pub open spec fn tail_messages(bytes: Seq<u8>, discard_leading_partial: bool) -> Seq<MessageView> {
    let lines = byte_lines(
        if discard_leading_partial {
            after_first_line(bytes)
        } else {
            bytes
        },
    );
    with_lines(lines, lines.len() as int)
}

pub proof fn lemma_line_feed(bytes: Seq<u8>)
    ensures
        match line_feed(bytes) {
            Some(i) => 0 <= i < bytes.len() && bytes[i] == 10 && forall|j: int|
                0 <= j < i ==> bytes[j] != 10,
            None => forall|j: int| 0 <= j < bytes.len() ==> bytes[j] != 10,
        },
    decreases bytes.len(),
{
    if bytes.len() > 0 && bytes[0] != 10 {
        let rest = bytes.drop_first();
        lemma_line_feed(rest);
        assert forall|j: int| 0 < j < bytes.len() implies bytes[j] == rest[j - 1] by {}
        match line_feed(rest) {
            Some(i) => {
                assert forall|j: int| 0 <= j < i + 1 implies bytes[j] != 10 by {
                    if j > 0 {
                        assert(rest[j - 1] != 10);
                    }
                }
            },
            None => {
                assert forall|j: int| 0 <= j < bytes.len() implies bytes[j] != 10 by {
                    if j > 0 {
                        assert(rest[j - 1] != 10);
                    }
                }
            },
        }
    }
}

/// Finds the first line feed at or behind a position.
fn find_line_feed(bytes: &[u8], start: usize) -> (found: Option<usize>)
    requires
        start <= bytes@.len(),
    ensures
        match found {
            Some(i) => start <= i < bytes@.len() && i < usize::MAX && line_feed(
                bytes@.skip(start as int),
            ) == Some(i - start),
            None => line_feed(bytes@.skip(start as int)) is None,
        },
{
    let ghost rest = bytes@.skip(start as int);
    let mut i: usize = start;
    while i < bytes.len()
        invariant
            start <= i <= bytes@.len(),
            rest == bytes@.skip(start as int),
            forall|j: int| 0 <= j < i - start ==> rest[j] != 10,
        decreases bytes@.len() - i,
    {
        if bytes[i] == 10 {
            proof {
                lemma_line_feed(rest);
                assert(rest[i - start] == 10);
            }
            return Some(i);
        }
        assert(rest[i - start] == bytes@[i as int]);
        i += 1;
    }
    proof {
        lemma_line_feed(rest);
    }
    None
}

fn copy_bytes(bytes: &[u8], start: usize, end: usize) -> (copy: Vec<u8>)
    requires
        start <= end <= bytes@.len(),
    ensures
        copy@ == bytes@.subrange(start as int, end as int),
{
    let mut copy: Vec<u8> = Vec::new();
    let mut i: usize = start;
    while i < end
        invariant
            start <= i <= end <= bytes@.len(),
            copy@ == bytes@.subrange(start as int, i as int),
        decreases end - i,
    {
        copy.push(bytes[i]);
        i += 1;
        assert(copy@ =~= bytes@.subrange(start as int, i as int));
    }
    copy
}

/// Adds what a line of the transcript says.
fn push_line(messages: &mut Vec<MessageEntry>, line: &Vec<u8>)
    ensures
        views(final(messages)@) == (if is_shown_line(line@) {
            match json_document(line@) {
                Some(envelope) => with_record(views(old(messages)@), envelope),
                None => views(old(messages)@),
            }
        } else {
            views(old(messages)@)
        }),
{
    if line.len() == 0 || line.len() > MAX_RECORD_BYTES {
        return;
    }
    let end: usize = if line.len() < 512 {
        line.len()
    } else {
        512
    };
    let beginning = copy_bytes(line.as_slice(), 0, end);
    assert(beginning@ =~= record_header(line@));
    let header = text_from_bytes(beginning.as_slice());
    if is_noisy_record(header.as_str()) {
        return;
    }
    if let Some(envelope) = parse_json(line.as_slice()) {
        push_record(messages, &envelope);
    }
}

/// The messages in the end of a transcript.
pub fn parse_tail(bytes: &[u8], discard_leading_partial: bool) -> (messages: Vec<MessageEntry>)
    ensures
        views(messages@) == tail_messages(bytes@, discard_leading_partial),
{
    let mut start: usize = 0;
    assert(bytes@.skip(0) =~= bytes@);
    if discard_leading_partial {
        start = match find_line_feed(bytes, 0) {
            Some(i) => i + 1,
            None => bytes.len(),
        };
    }
    let ghost body = if discard_leading_partial {
        after_first_line(bytes@)
    } else {
        bytes@
    };
    assert(body =~= bytes@.skip(start as int));
    let ghost lines = byte_lines(body);
    let ghost done: int = 0;
    let mut messages: Vec<MessageEntry> = Vec::new();
    let mut more = true;
    assert(lines.skip(0) =~= lines);
    while more
        invariant
            start <= bytes@.len(),
            lines == byte_lines(body),
            0 <= done <= lines.len(),
            more ==> byte_lines(bytes@.skip(start as int)) == lines.skip(done) && done
                < lines.len(),
            !more ==> done == lines.len(),
            views(messages@) == with_lines(lines, done),
        decreases (if more {
            bytes@.len() - start + 1
        } else {
            0
        }),
    {
        let ghost rest = bytes@.skip(start as int);
        let (end, next): (usize, Option<usize>) = match find_line_feed(bytes, start) {
            Some(i) => (i, Some(i + 1)),
            None => (bytes.len(), None),
        };
        let line = copy_bytes(bytes, start, end);
        proof {
            lemma_line_feed(rest);
            assert(line@ =~= rest.take(end - start));
            assert(lines.skip(done)[0] == lines[done]);
            if next is Some {
                assert(rest.skip(end - start + 1) =~= bytes@.skip(end + 1));
                assert(lines.skip(done).drop_first() =~= lines.skip(done + 1));
                assert((seq![line@] + byte_lines(bytes@.skip(end + 1))).drop_first()
                    =~= byte_lines(bytes@.skip(end + 1)));
            } else {
                assert(rest.take(end - start) =~= rest);
                assert(lines.skip(done).len() == 1);
            }
            assert(lines[done] == line@);
        }
        push_line(&mut messages, &line);
        proof {
            done = done + 1;
        }
        match next {
            Some(i) => {
                proof {
                    lemma_byte_lines_some(bytes@.skip(i as int));
                }
                start = i;
            },
            None => {
                more = false;
            },
        }
    }
    messages
}

proof fn lemma_byte_lines_some(bytes: Seq<u8>)
    ensures
        byte_lines(bytes).len() > 0,
{
}

/// Messages are numbered in the order in which they were added.
pub open spec fn numbered(messages: Seq<MessageView>) -> bool {
    forall|i: int|
        0 <= i < messages.len() ==> (#[trigger] messages[i]).id == "tail-"@ + decimal(i as nat)
}

/// The messages of a preview carry consecutive identifiers, whatever the
/// transcript holds.
pub proof fn law_preview_messages_are_numbered(bytes: Seq<u8>, discard_leading_partial: bool)
    ensures
        numbered(tail_messages(bytes, discard_leading_partial)),
{
    let lines = byte_lines(
        if discard_leading_partial {
            after_first_line(bytes)
        } else {
            bytes
        },
    );
    lemma_lines_numbered(lines, lines.len() as int);
}

proof fn lemma_lines_numbered(lines: Seq<Seq<u8>>, count: int)
    ensures
        numbered(with_lines(lines, count)),
    decreases count,
{
    if count > 0 {
        lemma_lines_numbered(lines, count - 1);
    }
}

/// No message is said twice within five messages.
pub open spec fn without_echo(messages: Seq<MessageView>) -> bool {
    forall|i: int, j: int|
        0 <= i < j < messages.len() && j <= i + 4 ==> (#[trigger] messages[i]).kind != (
        #[trigger] messages[j]).kind || messages[i].text != messages[j].text
}

/// The same text of the same kind never appears twice within five messages of a
/// preview, though a transcript records most texts more than once.
pub proof fn law_preview_messages_do_not_echo(bytes: Seq<u8>, discard_leading_partial: bool)
    ensures
        without_echo(tail_messages(bytes, discard_leading_partial)),
{
    let lines = byte_lines(
        if discard_leading_partial {
            after_first_line(bytes)
        } else {
            bytes
        },
    );
    lemma_lines_do_not_echo(lines, lines.len() as int);
}

proof fn lemma_lines_do_not_echo(lines: Seq<Seq<u8>>, count: int)
    ensures
        without_echo(with_lines(lines, count)),
    decreases count,
{
    if count > 0 {
        lemma_lines_do_not_echo(lines, count - 1);
        let before = with_lines(lines, count - 1);
        assert forall|kind: MessageKind, text: Option<Seq<char>>| without_echo(
            #[trigger] with_text(before, kind, text),
        ) by {
            lemma_text_does_not_echo(before, kind, text);
        }
    }
}

proof fn lemma_text_does_not_echo(
    messages: Seq<MessageView>,
    kind: MessageKind,
    text: Option<Seq<char>>,
)
    requires
        without_echo(messages),
    ensures
        without_echo(with_text(messages, kind, text)),
{
    let after = with_text(messages, kind, text);
    assert forall|i: int, j: int| 0 <= i < j < after.len() && j <= i + 4 implies (
    #[trigger] after[i]).kind != (#[trigger] after[j]).kind || after[i].text != after[j].text by {
        assert(after[i] == messages[i]);
        if j < messages.len() {
            assert(after[j] == messages[j]);
        }
    }
}

} // verus!
