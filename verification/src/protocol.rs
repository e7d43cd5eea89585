//! What the app-server's threads, items and requests say.

use vstd::prelude::*;

use crate::json::{
    Json, json_text, json_views, JsonNumberView, JsonView, lemma_array_view, print_json,
};
use crate::model::{MessageEntry, MessageKind, MessageView, or_empty, Session, SessionView};
use crate::text::{
    begins_with, concat_text, decimal, decimal_text, is_blank, join, join_texts, lemma_texts_push,
    lines_of, lower, lower_text, option_text, own_option, parse_decimal, parse_number, same_text,
    signed_decimal, text_after_prefix, text_begins_with, text_is_blank, text_is_empty, text_lines,
    text_words, texts, trim, trim_text, words_of,
};
use crate::views::{group_views, views};

verus! {

broadcast use group_views;

/// The text of one part of a prompt, as it is shown.
pub open spec fn input_part_text(part: JsonView) -> Option<Seq<char>> {
    match part.get_str("type"@) {
        Some(kind) => if kind == "text"@ {
            part.get_str("text"@)
        } else if kind == "localImage"@ {
            Some("🖼 local image"@)
        } else if kind == "image"@ {
            Some("🖼 image"@)
        } else {
            None
        },
        None => None,
    }
}

/// The texts of the parts of a prompt that are shown.
pub open spec fn input_part_texts(parts: Seq<JsonView>) -> Seq<Seq<char>>
    decreases parts.len(),
{
    if parts.len() == 0 {
        seq![]
    } else {
        match input_part_text(parts.last()) {
            Some(text) => input_part_texts(parts.drop_last()).push(text),
            None => input_part_texts(parts.drop_last()),
        }
    }
}

/// The elements of an array; none for any other value.
pub open spec fn elements(value: Option<JsonView>) -> Seq<JsonView> {
    match value {
        Some(JsonView::Array(items)) => items,
        _ => seq![],
    }
}

/// A prompt as it is shown.
pub open spec fn prompt_shown(content: Option<JsonView>) -> Seq<char> {
    join(input_part_texts(elements(content)), "\n"@)
}

/// The texts among some values.
pub open spec fn plain_texts(items: Seq<JsonView>) -> Seq<Seq<char>>
    decreases items.len(),
{
    if items.len() == 0 {
        seq![]
    } else {
        match items.last().as_str() {
            Some(text) => plain_texts(items.drop_last()).push(text),
            None => plain_texts(items.drop_last()),
        }
    }
}

/// What an agent's message is, by its phase.
pub open spec fn phase_kind(phase: Option<Seq<char>>) -> MessageKind {
    match phase {
        Some(phase) => if phase == "final_answer"@ {
            MessageKind::Final
        } else {
            MessageKind::Progress
        },
        None => MessageKind::Final,
    }
}

/// What an item of a turn is, where it is shown.
#[verifier::opaque]
pub open spec fn kind_of_item(item: JsonView) -> Option<MessageKind> {
    match item.get_str("type"@) {
        Some(kind) => if kind == "userMessage"@ {
            Some(MessageKind::User)
        } else if kind == "reasoning"@ {
            Some(MessageKind::Thinking)
        } else if kind == "plan"@ {
            Some(MessageKind::Progress)
        } else if kind == "agentMessage"@ {
            Some(phase_kind(item.get_str("phase"@)))
        } else {
            None
        },
        None => None,
    }
}

/// What an item of a turn says.
pub open spec fn text_of_item(item: JsonView) -> Seq<char> {
    match kind_of_item(item) {
        Some(MessageKind::User) => prompt_shown(item.get("content"@)),
        Some(MessageKind::Thinking) => join(plain_texts(item.get_items("summary"@)), "\n"@),
        _ => or_empty(item.get_str("text"@)),
    }
}

/// The message that an item of a turn stands for.
#[verifier::opaque]
pub open spec fn item_message(item: JsonView) -> Option<MessageView> {
    match (kind_of_item(item), item.get_str("id"@)) {
        (Some(kind), Some(id)) => Some(MessageView { id, kind, text: text_of_item(item) }),
        _ => None,
    }
}

/// The messages of the items that say something.
pub open spec fn item_messages(items: Seq<JsonView>) -> Seq<MessageView>
    decreases items.len(),
{
    if items.len() == 0 {
        seq![]
    } else {
        let before = item_messages(items.drop_last());
        match item_message(items.last()) {
            Some(message) => if is_blank(message.text) {
                before
            } else {
                before.push(message)
            },
            None => before,
        }
    }
}

/// The message of an error object.
pub open spec fn error_text(value: JsonView) -> Option<Seq<char>> {
    match value.get("error"@) {
        Some(error) => error.get_str("message"@),
        None => None,
    }
}

/// The message on the error of a turn.
#[verifier::opaque]
pub open spec fn turn_error(turn: JsonView) -> Option<MessageView> {
    match error_text(turn) {
        Some(text) => Some(
            MessageView {
                id: "turn-error-"@ + (match turn.get_str("id"@) {
                    Some(id) => id,
                    None => "unknown"@,
                }),
                kind: MessageKind::System,
                text,
            },
        ),
        None => None,
    }
}

/// The messages of some turns: those of their items, and their errors.
pub open spec fn turn_messages(turns: Seq<JsonView>) -> Seq<MessageView>
    decreases turns.len(),
{
    if turns.len() == 0 {
        seq![]
    } else {
        let turn = turns.last();
        let said = turn_messages(turns.drop_last()) + item_messages(turn.get_items("items"@));
        match turn_error(turn) {
            Some(error) => said.push(error),
            None => said,
        }
    }
}

/// The messages of a thread.
#[verifier::opaque]
pub open spec fn thread_messages(thread: JsonView) -> Seq<MessageView> {
    turn_messages(thread.get_items("turns"@))
}

/// The last turn that is going on.
pub open spec fn running_turn(turns: Seq<JsonView>) -> Option<JsonView>
    decreases turns.len(),
{
    if turns.len() == 0 {
        None
    } else if turns.last().get_str("status"@) == Some("inProgress"@) {
        Some(turns.last())
    } else {
        running_turn(turns.drop_last())
    }
}

/// The identifier of the turn that is going on in a thread.
#[verifier::opaque]
pub open spec fn running_turn_id(thread: JsonView) -> Option<Seq<char>> {
    match running_turn(thread.get_items("turns"@)) {
        Some(turn) => turn.get_str("id"@),
        None => None,
    }
}

/// A notification's message: its own, or that of its error.
#[verifier::opaque]
pub open spec fn notified_text(params: JsonView) -> Option<Seq<char>> {
    match params.get_str("message"@) {
        Some(text) => Some(text),
        None => error_text(params),
    }
}

/// What a request is called: its identifier, where that is a text, or else the
/// identifier in print.
pub open spec fn id_label(id: JsonView) -> Seq<char> {
    match id {
        JsonView::Text(text) => text,
        JsonView::Number(JsonNumberView::Integer(number)) => signed_decimal(number),
        _ => json_text(id),
    }
}

/// The decision that a reply to an approval request stands for.
pub open spec fn decision(reply: Seq<char>) -> Seq<char> {
    if reply == "a"@ || reply == "always"@ || reply == "session"@ {
        "acceptForSession"@
    } else if reply == "y"@ || reply == "yes"@ || reply == "approve"@ || reply == "allow"@ {
        "accept"@
    } else if reply == "c"@ || reply == "cancel"@ {
        "cancel"@
    } else {
        "decline"@
    }
}

/// The value for a key, or an empty object where there is none.
fn items_of<'a>(value: &'a Json, key: &str) -> (items: Option<&'a Vec<Json>>)
    ensures
        match items {
            Some(items) => value@.get_items(key@) == json_views(items@),
            None => value@.get_items(key@).len() == 0,
        },
{
    value.get_array(key)
}

fn text_of_input_part(part: &Json) -> (text: Option<String>)
    ensures
        option_text(text) == input_part_text(part@),
{
    match part.get_str("type") {
        Some(kind) => if same_text(kind, "text") {
            own_option(part.get_str("text"))
        } else if same_text(kind, "localImage") {
            Some("🖼 local image".to_owned())
        } else if same_text(kind, "image") {
            Some("🖼 image".to_owned())
        } else {
            None
        },
        None => None,
    }
}

/// A prompt as it is shown.
pub fn user_input_text(content: Option<&Json>) -> (text: String)
    ensures
        text@ == prompt_shown(
            match content {
                Some(content) => Some(content@),
                None => None,
            },
        ),
{
    let mut found: Vec<String> = Vec::new();
    assert(texts(found@) =~= seq![]);
    if let Some(Json::Array(parts)) = content {
        let ghost all = json_views(parts@);
        let mut i: usize = 0;
        proof {
            lemma_array_view(*parts);
            assert(all.take(0) =~= seq![]);
        }
        while i < parts.len()
            invariant
                i <= parts.len(),
                all == json_views(parts@),
                texts(found@) == input_part_texts(all.take(i as int)),
            decreases parts.len() - i,
        {
            proof {
                assert(all.take(i + 1).drop_last() =~= all.take(i as int));
                assert(all.take(i + 1).last() == parts@[i as int]@);
            }
            if let Some(text) = text_of_input_part(&parts[i]) {
                proof {
                    lemma_texts_push(found@, text);
                }
                found.push(text);
            }
            i += 1;
        }
        assert(all.take(all.len() as int) =~= all);
    }
    join_texts(&found, "\n")
}

fn summary_text(item: &Json) -> (text: String)
    ensures
        text@ == join(plain_texts(item@.get_items("summary"@)), "\n"@),
{
    let mut found: Vec<String> = Vec::new();
    assert(texts(found@) =~= seq![]);
    let ghost all = item@.get_items("summary"@);
    if let Some(parts) = items_of(item, "summary") {
        let mut i: usize = 0;
        assert(all.take(0) =~= seq![]);
        while i < parts.len()
            invariant
                i <= parts.len(),
                all == json_views(parts@),
                texts(found@) == plain_texts(all.take(i as int)),
            decreases parts.len() - i,
        {
            proof {
                assert(all.take(i + 1).drop_last() =~= all.take(i as int));
                assert(all.take(i + 1).last() == parts@[i as int]@);
            }
            if let Some(text) = parts[i].as_str() {
                let text = text.to_owned();
                proof {
                    lemma_texts_push(found@, text);
                }
                found.push(text);
            }
            i += 1;
        }
        assert(all.take(all.len() as int) =~= all);
    }
    join_texts(&found, "\n")
}

/// What an item of a turn is, where it is shown.
pub fn item_kind(item: &Json) -> (kind: Option<MessageKind>)
    ensures
        kind == kind_of_item(item@),
{
    reveal(kind_of_item);
    match item.get_str("type") {
        Some(kind) => if same_text(kind, "userMessage") {
            Some(MessageKind::User)
        } else if same_text(kind, "reasoning") {
            Some(MessageKind::Thinking)
        } else if same_text(kind, "plan") {
            Some(MessageKind::Progress)
        } else if same_text(kind, "agentMessage") {
            match item.get_str("phase") {
                Some(phase) => if same_text(phase, "final_answer") {
                    Some(MessageKind::Final)
                } else {
                    Some(MessageKind::Progress)
                },
                None => Some(MessageKind::Final),
            }
        } else {
            None
        },
        None => None,
    }
}

/// The message that an item of a turn stands for.
pub fn message_from_item(item: &Json) -> (message: Option<MessageEntry>)
    ensures
        match message {
            Some(message) => item_message(item@) == Some(message@),
            None => item_message(item@) is None,
        },
{
    reveal(item_message);
    match (item_kind(item), item.get_str("id")) {
        (Some(kind), Some(id)) => {
            let text = match kind {
                MessageKind::User => user_input_text(item.get("content")),
                MessageKind::Thinking => summary_text(item),
                _ => match item.get_str("text") {
                    Some(text) => text.to_owned(),
                    None => {
                        let empty = String::new();
                        assert(empty@ =~= seq![]);
                        empty
                    },
                },
            };
            Some(MessageEntry { id: id.to_owned(), kind, text })
        },
        _ => None,
    }
}

/// The message of an error object.
pub fn error_message(value: &Json) -> (text: Option<&str>)
    ensures
        match text {
            Some(text) => error_text(value@) == Some(text@),
            None => error_text(value@) is None,
        },
{
    match value.get("error") {
        Some(error) => error.get_str("message"),
        None => None,
    }
}

/// The message on the error of a turn.
pub fn turn_error_message(turn: &Json) -> (message: Option<MessageEntry>)
    ensures
        match message {
            Some(message) => turn_error(turn@) == Some(message@),
            None => turn_error(turn@) is None,
        },
{
    reveal(turn_error);
    match error_message(turn) {
        Some(text) => {
            let id = match turn.get_str("id") {
                Some(id) => concat_text("turn-error-", id),
                None => concat_text("turn-error-", "unknown"),
            };
            Some(MessageEntry { id, kind: MessageKind::System, text: text.to_owned() })
        },
        None => None,
    }
}

/// Adds the messages of the items that say something.
fn push_items(messages: &mut Vec<MessageEntry>, turn: &Json)
    ensures
        views(final(messages)@) == views(old(messages)@) + item_messages(
            turn@.get_items("items"@),
        ),
{
    let ghost before = views(messages@);
    let ghost all = turn@.get_items("items"@);
    if let Some(items) = items_of(turn, "items") {
        let mut i: usize = 0;
        assert(all.take(0) =~= seq![]);
        assert(views(messages@) =~= before + item_messages(all.take(0)));
        while i < items.len()
            invariant
                i <= items.len(),
                all == json_views(items@),
                views(messages@) == before + item_messages(all.take(i as int)),
            decreases items.len() - i,
        {
            proof {
                assert(all.take(i + 1).drop_last() =~= all.take(i as int));
                assert(all.take(i + 1).last() == items@[i as int]@);
            }
            if let Some(message) = message_from_item(&items[i]) {
                if !text_is_blank(message.text.as_str()) {
                    let ghost said = message@;
                    messages.push(message);
                    assert(views(messages@) =~= before + item_messages(all.take(i as int)).push(
                        said,
                    ));
                }
            }
            i += 1;
        }
        assert(all.take(all.len() as int) =~= all);
    } else {
        assert(views(messages@) =~= before + item_messages(all));
    }
}

/// The messages of a thread.
pub fn messages_from_thread(thread: &Json) -> (messages: Vec<MessageEntry>)
    ensures
        views(messages@) == thread_messages(thread@),
{
    reveal(thread_messages);
    let mut messages: Vec<MessageEntry> = Vec::new();
    let ghost all = thread@.get_items("turns"@);
    if let Some(turns) = items_of(thread, "turns") {
        let mut i: usize = 0;
        assert(all.take(0) =~= seq![]);
        while i < turns.len()
            invariant
                i <= turns.len(),
                all == json_views(turns@),
                views(messages@) == turn_messages(all.take(i as int)),
            decreases turns.len() - i,
        {
            proof {
                assert(all.take(i + 1).drop_last() =~= all.take(i as int));
                assert(all.take(i + 1).last() == turns@[i as int]@);
            }
            push_items(&mut messages, &turns[i]);
            if let Some(error) = turn_error_message(&turns[i]) {
                messages.push(error);
            }
            i += 1;
        }
        assert(all.take(all.len() as int) =~= all);
    }
    messages
}

/// The identifier of the turn that is going on in a thread.
pub fn active_turn_id(thread: &Json) -> (id: Option<String>)
    ensures
        option_text(id) == running_turn_id(thread@),
{
    reveal(running_turn_id);
    let ghost all = thread@.get_items("turns"@);
    if let Some(turns) = items_of(thread, "turns") {
        let mut i: usize = turns.len();
        assert(all.take(i as int) =~= all);
        while i > 0
            invariant
                i <= turns.len(),
                all == json_views(turns@),
                all == thread@.get_items("turns"@),
                running_turn(all.take(i as int)) == running_turn(all),
            decreases i,
        {
            proof {
                assert(all.take(i as int).drop_last() =~= all.take(i - 1));
                assert(all.take(i as int).last() == turns@[i - 1]@);
            }
            if let Some(status) = turns[i - 1].get_str("status") {
                if same_text(status, "inProgress") {
                    reveal(running_turn_id);
                    return own_option(turns[i - 1].get_str("id"));
                }
            }
            i -= 1;
        }
    }
    None
}

/// A notification's message.
pub fn notification_message(params: &Json) -> (text: Option<String>)
    ensures
        option_text(text) == notified_text(params@),
{
    reveal(notified_text);
    match params.get_str("message") {
        Some(text) => Some(text.to_owned()),
        None => own_option(error_message(params)),
    }
}

/// What a request is called.
pub fn rpc_id_label(id: &Json) -> (label: String)
    ensures
        label@ == id_label(id@),
{
    match id.as_str() {
        Some(text) => text.to_owned(),
        None => print_json(id),
    }
}

/// The decision that a reply to an approval request stands for.
pub fn approval_decision(normalized: &str) -> (choice: &'static str)
    ensures
        choice@ == decision(normalized@),
{
    if same_text(normalized, "a") || same_text(normalized, "always") || same_text(
        normalized,
        "session",
    ) {
        "acceptForSession"
    } else if same_text(normalized, "y") || same_text(normalized, "yes") || same_text(
        normalized,
        "approve",
    ) || same_text(normalized, "allow") {
        "accept"
    } else if same_text(normalized, "c") || same_text(normalized, "cancel") {
        "cancel"
    } else {
        "decline"
    }
}

/// A choice that a question offers.
#[derive(Debug, PartialEq, Eq)]
pub struct InputOption {
    pub label: String,
    pub description: String,
}

/// The mathematical form of a choice.
#[verifier::ext_equal]
pub struct OptionView {
    pub label: Seq<char>,
    pub description: Seq<char>,
}

impl View for InputOption {
    type V = OptionView;

    open spec fn view(&self) -> OptionView {
        OptionView { label: self.label@, description: self.description@ }
    }
}

/// A question that a session asks.
#[derive(Debug, PartialEq, Eq)]
pub struct InputQuestion {
    pub id: String,
    pub header: String,
    pub question: String,
    pub options: Vec<InputOption>,
}

/// The mathematical form of a question.
#[verifier::ext_equal]
pub struct QuestionView {
    pub id: Seq<char>,
    pub header: Seq<char>,
    pub question: Seq<char>,
    pub options: Seq<OptionView>,
}

impl View for InputQuestion {
    type V = QuestionView;

    open spec fn view(&self) -> QuestionView {
        QuestionView {
            id: self.id@,
            header: self.header@,
            question: self.question@,
            options: views(self.options@),
        }
    }
}

/// What a session waits for.
#[derive(Debug, PartialEq, Eq)]
pub enum PendingRequestKind {
    UserInput(Vec<InputQuestion>),
    CommandApproval,
    FileApproval,
    PermissionApproval,
    McpElicitation,
    Unsupported(String),
}

/// The mathematical form of what a session waits for.
#[verifier::ext_equal]
pub enum RequestKindView {
    UserInput(Seq<QuestionView>),
    CommandApproval,
    FileApproval,
    PermissionApproval,
    McpElicitation,
    Unsupported(Seq<char>),
}

impl View for PendingRequestKind {
    type V = RequestKindView;

    open spec fn view(&self) -> RequestKindView {
        match self {
            PendingRequestKind::UserInput(questions) => RequestKindView::UserInput(
                views(questions@),
            ),
            PendingRequestKind::CommandApproval => RequestKindView::CommandApproval,
            PendingRequestKind::FileApproval => RequestKindView::FileApproval,
            PendingRequestKind::PermissionApproval => RequestKindView::PermissionApproval,
            PendingRequestKind::McpElicitation => RequestKindView::McpElicitation,
            PendingRequestKind::Unsupported(method) => RequestKindView::Unsupported(method@),
        }
    }
}

/// The choice that a value of the protocol describes.
pub open spec fn option_of(value: JsonView) -> Option<OptionView> {
    match value.get_str("label"@) {
        Some(label) => Some(
            OptionView { label, description: or_empty(value.get_str("description"@)) },
        ),
        None => None,
    }
}

/// The choices among some values.
pub open spec fn options_of(values: Seq<JsonView>) -> Seq<OptionView>
    decreases values.len(),
{
    if values.len() == 0 {
        seq![]
    } else {
        match option_of(values.last()) {
            Some(option) => options_of(values.drop_last()).push(option),
            None => options_of(values.drop_last()),
        }
    }
}

/// The question that a value of the protocol describes.
pub open spec fn question_of(value: JsonView) -> Option<QuestionView> {
    match value.get_str("id"@) {
        Some(id) => Some(
            QuestionView {
                id,
                header: match value.get_str("header"@) {
                    Some(header) => header,
                    None => "Question"@,
                },
                question: or_empty(value.get_str("question"@)),
                options: options_of(value.get_items("options"@)),
            },
        ),
        None => None,
    }
}

/// The questions among some values.
pub open spec fn questions_of(values: Seq<JsonView>) -> Seq<QuestionView>
    decreases values.len(),
{
    if values.len() == 0 {
        seq![]
    } else {
        match question_of(values.last()) {
            Some(question) => questions_of(values.drop_last()).push(question),
            None => questions_of(values.drop_last()),
        }
    }
}

fn owned_or_empty(text: Option<&str>) -> (owned: String)
    ensures
        owned@ == or_empty(
            match text {
                Some(text) => Some(text@),
                None => None,
            },
        ),
{
    match text {
        Some(text) => text.to_owned(),
        None => {
            let empty = String::new();
            assert(empty@ =~= seq![]);
            empty
        },
    }
}

fn parse_options(question: &Json) -> (options: Vec<InputOption>)
    ensures
        views(options@) == options_of(question@.get_items("options"@)),
{
    let mut options: Vec<InputOption> = Vec::new();
    let ghost all = question@.get_items("options"@);
    if let Some(values) = items_of(question, "options") {
        let mut i: usize = 0;
        assert(all.take(0) =~= seq![]);
        while i < values.len()
            invariant
                i <= values.len(),
                all == json_views(values@),
                views(options@) == options_of(all.take(i as int)),
            decreases values.len() - i,
        {
            proof {
                assert(all.take(i + 1).drop_last() =~= all.take(i as int));
                assert(all.take(i + 1).last() == values@[i as int]@);
            }
            if let Some(label) = values[i].get_str("label") {
                options.push(
                    InputOption {
                        label: label.to_owned(),
                        description: owned_or_empty(values[i].get_str("description")),
                    },
                );
            }
            i += 1;
        }
        assert(all.take(all.len() as int) =~= all);
    }
    options
}

/// The questions of a request for input.
pub fn parse_questions(params: &Json) -> (questions: Vec<InputQuestion>)
    ensures
        views(questions@) == questions_of(params@.get_items("questions"@)),
{
    let mut questions: Vec<InputQuestion> = Vec::new();
    let ghost all = params@.get_items("questions"@);
    if let Some(values) = items_of(params, "questions") {
        let mut i: usize = 0;
        assert(all.take(0) =~= seq![]);
        while i < values.len()
            invariant
                i <= values.len(),
                all == json_views(values@),
                views(questions@) == questions_of(all.take(i as int)),
            decreases values.len() - i,
        {
            proof {
                assert(all.take(i + 1).drop_last() =~= all.take(i as int));
                assert(all.take(i + 1).last() == values@[i as int]@);
            }
            if let Some(id) = values[i].get_str("id") {
                questions.push(
                    InputQuestion {
                        id: id.to_owned(),
                        header: match values[i].get_str("header") {
                            Some(header) => header.to_owned(),
                            None => "Question".to_owned(),
                        },
                        question: owned_or_empty(values[i].get_str("question")),
                        options: parse_options(&values[i]),
                    },
                );
            }
            i += 1;
        }
        assert(all.take(all.len() as int) =~= all);
    }
    questions
}

/// A choice as it is listed.
pub open spec fn option_line(option: OptionView, number: nat) -> Seq<char> {
    let line = "  "@ + decimal(number) + ". "@ + option.label;
    if option.description.len() == 0 {
        line
    } else {
        line + " — "@ + option.description
    }
}

/// The choices of a question, one to a line.
pub open spec fn option_lines(options: Seq<OptionView>) -> Seq<Seq<char>> {
    Seq::new(options.len(), |i: int| option_line(options[i], (i + 1) as nat))
}

/// A question as it is shown.
pub open spec fn question_shown(question: QuestionView) -> Seq<char> {
    let options = join(option_lines(question.options), "\n"@);
    let asked = question.header + ": "@ + question.question;
    if options.len() == 0 {
        asked
    } else {
        asked + "\n"@ + options
    }
}

/// A text, or another one where it is absent.
pub open spec fn text_or(text: Option<Seq<char>>, other: Seq<char>) -> Seq<char> {
    match text {
        Some(text) => text,
        None => other,
    }
}

/// What a session waits for, as it is shown.
#[verifier::opaque]
pub open spec fn request_shown(kind: RequestKindView, params: JsonView) -> Seq<char> {
    match kind {
        RequestKindView::UserInput(questions) => join(
            Seq::new(questions.len(), |i: int| question_shown(questions[i])),
            "\n\n"@,
        ),
        RequestKindView::CommandApproval => "Approve command?\n"@ + text_or(
            params.get_str("command"@),
            "Run requested command"@,
        ) + "\n"@ + or_empty(params.get_str("reason"@)) + "\ny once · a session · n deny"@,
        RequestKindView::FileApproval => "Approve file change?\n"@ + text_or(
            params.get_str("reason"@),
            "Codex requests a file change"@,
        ) + "\ny once · a session · n deny"@,
        RequestKindView::PermissionApproval => text_or(
            params.get_str("reason"@),
            "Codex requests additional permissions"@,
        ) + "\nAdvanced permission grants are denied by this version."@,
        RequestKindView::McpElicitation => text_or(
            params.get_str("message"@),
            "MCP server requests input"@,
        ),
        RequestKindView::Unsupported(method) => "Unsupported Codex request: "@ + method,
    }
}

fn option_text_line(option: &InputOption, number: u64) -> (line: String)
    ensures
        line@ == option_line(option@, number as nat),
{
    let mut line = concat_text("  ", decimal_text(number).as_str());
    line.append(". ");
    line.append(option.label.as_str());
    if !text_is_empty(option.description.as_str()) {
        line.append(" — ");
        line.append(option.description.as_str());
    }
    line
}

fn question_text(question: &InputQuestion) -> (text: String)
    ensures
        text@ == question_shown(question@),
{
    let mut lines: Vec<String> = Vec::new();
    let mut i: usize = 0;
    while i < question.options.len()
        invariant
            i <= question.options.len(),
            lines.len() == i,
            forall|j: int|
                0 <= j < i ==> (#[trigger] lines@[j])@ == option_lines(question@.options)[j],
        decreases question.options.len() - i,
    {
        assert(question@.options[i as int] == question.options@[i as int]@);
        lines.push(option_text_line(&question.options[i], i as u64 + 1));
        i += 1;
    }
    assert(texts(lines@) =~= option_lines(question@.options));
    let options = join_texts(&lines, "\n");
    let mut text = concat_text(question.header.as_str(), ": ");
    text.append(question.question.as_str());
    if !text_is_empty(options.as_str()) {
        text.append("\n");
        text.append(options.as_str());
    }
    text
}

fn owned_or(text: Option<&str>, other: &str) -> (owned: String)
    ensures
        owned@ == text_or(
            match text {
                Some(text) => Some(text@),
                None => None,
            },
            other@,
        ),
{
    match text {
        Some(text) => text.to_owned(),
        None => other.to_owned(),
    }
}

/// What a session waits for, as it is shown.
pub fn pending_request_display(kind: &PendingRequestKind, params: &Json) -> (text: String)
    ensures
        text@ == request_shown(kind@, params@),
{
    reveal(request_shown);
    match kind {
        PendingRequestKind::UserInput(questions) => {
            let ghost shown = Seq::new(
                questions@.len(),
                |i: int| question_shown(views(questions@)[i]),
            );
            let mut parts: Vec<String> = Vec::new();
            let mut i: usize = 0;
            while i < questions.len()
                invariant
                    i <= questions.len(),
                    parts.len() == i,
                    shown == Seq::new(
                        questions@.len(),
                        |i: int| question_shown(views(questions@)[i]),
                    ),
                    forall|j: int| 0 <= j < i ==> (#[trigger] parts@[j])@ == shown[j],
                decreases questions.len() - i,
            {
                parts.push(question_text(&questions[i]));
                i += 1;
            }
            assert(texts(parts@) =~= shown);
            join_texts(&parts, "\n\n")
        },
        PendingRequestKind::CommandApproval => {
            let command = owned_or(params.get_str("command"), "Run requested command");
            let reason = owned_or_empty(params.get_str("reason"));
            let mut text = concat_text("Approve command?\n", command.as_str());
            text.append("\n");
            text.append(reason.as_str());
            text.append("\ny once · a session · n deny");
            text
        },
        PendingRequestKind::FileApproval => {
            let reason = owned_or(params.get_str("reason"), "Codex requests a file change");
            let mut text = concat_text("Approve file change?\n", reason.as_str());
            text.append("\ny once · a session · n deny");
            text
        },
        PendingRequestKind::PermissionApproval => {
            let reason = owned_or(
                params.get_str("reason"),
                "Codex requests additional permissions",
            );
            concat_text(
                reason.as_str(),
                "\nAdvanced permission grants are denied by this version.",
            )
        },
        PendingRequestKind::McpElicitation => owned_or(
            params.get_str("message"),
            "MCP server requests input",
        ),
        PendingRequestKind::Unsupported(method) => concat_text(
            "Unsupported Codex request: ",
            method.as_str(),
        ),
    }
}

/// The first choice with a label, whatever its case.
pub open spec fn option_labelled(options: Seq<OptionView>, label: Seq<char>) -> Option<Seq<char>>
    decreases options.len(),
{
    if options.len() == 0 {
        None
    } else if lower(options[0].label) == lower(label) {
        Some(options[0].label)
    } else {
        option_labelled(options.drop_first(), label)
    }
}

/// The answer that a reply to a question stands for: the label of the choice with
/// that number or that label, or the reply itself.
pub open spec fn resolved_answer(question: QuestionView, raw: Seq<char>) -> Seq<char> {
    let number = match parse_decimal(raw, usize::MAX as nat) {
        Some(number) => number,
        None => 0,
    };
    if 0 < number <= question.options.len() {
        question.options[number - 1].label
    } else {
        text_or(option_labelled(question.options, raw), raw)
    }
}

/// The answer that a reply to a question stands for.
pub fn resolve_question_answer(question: &InputQuestion, raw: &str) -> (answer: String)
    ensures
        answer@ == resolved_answer(question@, raw@),
{
    let ghost options = question@.options;
    if let Some(number) = parse_number(raw, usize::MAX as u64) {
        if number > 0 && number <= question.options.len() as u64 {
            assert(options[number - 1] == question.options@[number - 1]@);
            return question.options[(number - 1) as usize].label.clone();
        }
    }
    let wanted = lower_text(raw);
    let mut i: usize = 0;
    assert(options.skip(0) =~= options);
    while i < question.options.len()
        invariant
            i <= question.options.len(),
            options == question@.options,
            wanted@ == lower(raw@),
            option_labelled(options.skip(i as int), raw@) == option_labelled(options, raw@),
            parse_decimal(raw@, usize::MAX as nat) matches Some(number) ==> !(0 < number
                <= options.len()),
        decreases question.options.len() - i,
    {
        proof {
            assert(options.skip(i as int)[0] == question.options@[i as int]@);
            assert(options.skip(i as int).drop_first() =~= options.skip(i + 1));
        }
        let label = lower_text(question.options[i].label.as_str());
        if same_text(label.as_str(), wanted.as_str()) {
            return question.options[i].label.clone();
        }
        i += 1;
    }
    raw.to_owned()
}

/// Whether a line says only that there are images.
pub open spec fn marks_images(line: Seq<char>) -> bool {
    if begins_with(line, "🖼 "@) {
        let label = line.skip("🖼 "@.len() as int);
        let words = words_of(label);
        label == "image"@ || label == "local image"@ || (words.len() == 2 && (words[1] == "image"@
            || words[1] == "images"@) && parse_decimal(words[0], usize::MAX as nat) is Some)
    } else {
        false
    }
}

/// Whether a line says only that there are images.
pub fn is_image_marker(line: &str) -> (marker: bool)
    ensures
        marker == marks_images(line@),
{
    let label = match text_after_prefix(line, "🖼 ") {
        Some(label) => label,
        None => {
            return false;
        },
    };
    if same_text(label.as_str(), "image") || same_text(label.as_str(), "local image") {
        return true;
    }
    let words = text_words(label.as_str());
    if words.len() != 2 {
        return false;
    }
    proof {
        assert(texts(words@)[0] == words@[0]@);
        assert(texts(words@)[1] == words@[1]@);
    }
    (same_text(words[1].as_str(), "image") || same_text(words[1].as_str(), "images"))
        && parse_number(words[0].as_str(), usize::MAX as u64).is_some()
}

/// The lines that say more than that there are images.
pub open spec fn body_lines(lines: Seq<Seq<char>>) -> Seq<Seq<char>>
    decreases lines.len(),
{
    if lines.len() == 0 {
        seq![]
    } else if marks_images(trim(lines.last())) {
        body_lines(lines.drop_last())
    } else {
        body_lines(lines.drop_last()).push(lines.last())
    }
}

/// What tells one prompt from another: its text, and whether it has images.
pub open spec fn prompt_signature(text: Seq<char>) -> (Seq<char>, bool) {
    let lines = lines_of(text);
    (
        trim(join(body_lines(lines), "\n"@)),
        exists|i: int| 0 <= i < lines.len() && marks_images(trim(#[trigger] lines[i])),
    )
}

/// What tells one prompt from another.
pub fn user_message_signature(text: &str) -> (signature: (String, bool))
    ensures
        (signature.0@, signature.1) == prompt_signature(text@),
{
    let lines = text_lines(text);
    let ghost all = texts(lines@);
    let mut body: Vec<String> = Vec::new();
    let mut has_image = false;
    let mut i: usize = 0;
    assert(all.take(0) =~= seq![]);
    assert(texts(body@) =~= seq![]);
    while i < lines.len()
        invariant
            i <= lines.len(),
            all == texts(lines@),
            texts(body@) == body_lines(all.take(i as int)),
            has_image == exists|j: int| 0 <= j < i && marks_images(trim(#[trigger] all[j])),
        decreases lines.len() - i,
    {
        proof {
            assert(all.take(i + 1).drop_last() =~= all.take(i as int));
            assert(all.take(i + 1).last() == lines@[i as int]@);
            assert(all[i as int] == lines@[i as int]@);
        }
        let trimmed = trim_text(lines[i].as_str());
        if is_image_marker(trimmed.as_str()) {
            has_image = true;
        } else {
            let line = lines[i].clone();
            proof {
                lemma_texts_push(body@, line);
            }
            body.push(line);
        }
        i += 1;
    }
    assert(all.take(all.len() as int) =~= all);
    let joined = join_texts(&body, "\n");
    (trim_text(joined.as_str()), has_image)
}

/// The position of the first local copy of a prompt.
pub open spec fn local_copy(messages: Seq<MessageView>, text: Seq<char>) -> Option<int>
    decreases messages.len(),
{
    if messages.len() == 0 {
        None
    } else if begins_with(messages[0].id, "local-user-"@) && prompt_signature(messages[0].text)
        == prompt_signature(text) {
        Some(0)
    } else {
        match local_copy(messages.drop_first(), text) {
            Some(i) => Some(i + 1),
            None => None,
        }
    }
}

/// The messages without the first local copy of a prompt.
pub open spec fn without_local_copy(messages: Seq<MessageView>, text: Seq<char>) -> Seq<
    MessageView,
> {
    match local_copy(messages, text) {
        Some(i) => messages.remove(i),
        None => messages,
    }
}

/// Takes the local copy of a prompt away, when the app-server repeats the prompt.
pub fn remove_matching_local_user(session: &mut Session, text: &str)
    ensures
        final(session)@ == (SessionView {
            messages: without_local_copy(old(session)@.messages, text@),
            ..old(session)@
        }),
{
    let signature = user_message_signature(text);
    let ghost all = session@.messages;
    let mut i: usize = 0;
    assert(all.skip(0) =~= all);
    while i < session.messages.len()
        invariant
            i <= session.messages.len(),
            *session == *old(session),
            all == session@.messages,
            (signature.0@, signature.1) == prompt_signature(text@),
            local_copy(all, text@) == (match local_copy(all.skip(i as int), text@) {
                Some(k) => Some(k + i),
                None => None,
            }),
        decreases session.messages.len() - i,
    {
        let message = &session.messages[i];
        proof {
            assert(all.skip(i as int)[0] == message@);
            assert(all.skip(i as int).drop_first() =~= all.skip(i + 1));
        }
        if text_begins_with(message.id.as_str(), "local-user-") {
            let other = user_message_signature(message.text.as_str());
            if other.1 == signature.1 && same_text(other.0.as_str(), signature.0.as_str()) {
                session.messages.remove(i);
                return;
            }
        }
        i += 1;
    }
}

} // verus!
