//! What the requests of the dashboard, and its answers, hold.

use vstd::prelude::*;

use crate::assoc::{lemma_key_slot_is, lemma_no_key_slot, put};
use crate::composer::SkillView;
use crate::deck::own_origin;
use crate::json::{
    joined_object, Json, json_array, json_str, json_views, JsonNumber, JsonNumberView, JsonView,
    lemma_object_view, member, member_views, object, object0, object1, object2, object3,
};
use crate::model::{MessageEntry, MessageKind, MessageView};
use crate::protocol::{
    approval_decision, decision, InputQuestion, parse_questions, PendingRequestKind, questions_of,
    QuestionView, RequestKindView, resolve_question_answer, resolved_answer,
};
use crate::state::{DraftView, option_view, PromptDraft};
use crate::text::{
    concat_text, decimal, decimal_text, lower, lower_text, same_text, split_on, split_text_on,
    text_is_empty, texts, trim, trim_text,
};
use crate::views::{group_views, views};

verus! {

broadcast use group_views;

/// A text value.
pub open spec fn text_value(text: Seq<char>) -> JsonView {
    JsonView::Text(text)
}

/// An integer value.
pub open spec fn integer_value(value: int) -> JsonView {
    JsonView::Number(JsonNumberView::Integer(value))
}

/// The parameters of a request on one thread.
#[verifier::opaque]
pub open spec fn thread_params(id: Seq<char>) -> JsonView {
    object(seq![("threadId"@, text_value(id))])
}

/// The parameters of the first request.
#[verifier::opaque]
pub open spec fn initialize_params() -> JsonView {
    object(
        seq![
            (
                "clientInfo"@,
                object(
                    seq![
                        ("name"@, text_value("codex_deck"@)),
                        ("title"@, text_value("Codex Deck"@)),
                        ("version"@, text_value("0.1.0"@)),
                    ],
                ),
            ),
            ("capabilities"@, object(seq![("experimentalApi"@, JsonView::Bool(true))])),
        ],
    )
}

/// The parameters of a request for a page of the list of threads.
#[verifier::opaque]
pub open spec fn list_params(cursor: Option<Seq<char>>) -> JsonView {
    object(
        seq![
            (
                "cursor"@,
                match cursor {
                    Some(cursor) => text_value(cursor),
                    None => JsonView::Null,
                },
            ),
            ("limit"@, integer_value(100)),
            ("sortKey"@, text_value("recency_at"@)),
        ] + seq![
            ("sortDirection"@, text_value("desc"@)),
            ("archived"@, JsonView::Bool(false)),
            (
                "sourceKinds"@,
                JsonView::Array(
                    seq![
                        text_value("cli"@),
                        text_value("vscode"@),
                        text_value("exec"@),
                        text_value("appServer"@),
                    ],
                ),
            ),
        ],
    )
}

/// The parameters of a request for a thread with its history.
#[verifier::opaque]
pub open spec fn read_params(id: Seq<char>) -> JsonView {
    object(seq![("threadId"@, text_value(id)), ("includeTurns"@, JsonView::Bool(true))])
}

/// The parameters of a new task.
#[verifier::opaque]
pub open spec fn start_params(cwd: Seq<char>) -> JsonView {
    object(
        seq![("cwd"@, text_value(cwd)), ("serviceName"@, text_value("codex-deck"@))] + seq![
            ("threadSource"@, text_value(own_origin())),
            ("ephemeral"@, JsonView::Bool(false)),
        ],
    )
}

/// The text of a prompt as input.
pub open spec fn text_input(text: Seq<char>) -> Seq<JsonView> {
    if text.len() == 0 {
        seq![]
    } else {
        seq![
            object(
                seq![
                    ("type"@, text_value("text"@)),
                    ("text"@, text_value(text)),
                    ("text_elements"@, JsonView::Array(seq![])),
                ],
            ),
        ]
    }
}

/// The images of a prompt as input.
pub open spec fn image_input(images: Seq<Seq<char>>) -> Seq<JsonView> {
    Seq::new(
        images.len(),
        |i: int|
            object(
                seq![("type"@, text_value("localImage"@)), ("path"@, text_value(images[i]))],
            ),
    )
}

/// The skills of a prompt as input.
pub open spec fn skill_input(skills: Seq<SkillView>) -> Seq<JsonView> {
    Seq::new(
        skills.len(),
        |i: int|
            object(
                seq![
                    ("type"@, text_value("skill"@)),
                    ("name"@, text_value(skills[i].name)),
                    ("path"@, text_value(skills[i].path)),
                ],
            ),
    )
}

/// A prompt as input: its text, its images and its skills.
#[verifier::opaque]
pub open spec fn draft_input(draft: DraftView) -> Seq<JsonView> {
    text_input(draft.text) + image_input(draft.images) + skill_input(draft.skills)
}

/// A prompt as it is shown before the app-server repeats it.
#[verifier::opaque]
pub open spec fn draft_shown(draft: DraftView) -> Seq<char> {
    let count = draft.images.len();
    let label = if count == 1 {
        "🖼 1 image"@
    } else {
        "🖼 "@ + decimal(count) + " images"@
    };
    if count == 0 {
        draft.text
    } else if draft.text.len() == 0 {
        label
    } else {
        draft.text + "\n\n"@ + label
    }
}

/// The parameters of a new turn.
#[verifier::opaque]
pub open spec fn turn_params(id: Seq<char>, draft: DraftView) -> JsonView {
    object(
        seq![
            ("threadId"@, text_value(id)),
            ("input"@, JsonView::Array(draft_input(draft))),
            ("summary"@, text_value("auto"@)),
        ],
    )
}

/// The parameters of a prompt for the turn that is going on.
#[verifier::opaque]
pub open spec fn steer_params(id: Seq<char>, turn: Seq<char>, draft: DraftView) -> JsonView {
    object(
        seq![
            ("threadId"@, text_value(id)),
            ("expectedTurnId"@, text_value(turn)),
            ("input"@, JsonView::Array(draft_input(draft))),
        ],
    )
}

/// The parameters of a request for the skills of a directory.
#[verifier::opaque]
pub open spec fn skills_params(cwd: Seq<char>) -> JsonView {
    object(seq![("cwds"@, JsonView::Array(seq![text_value(cwd)]))])
}

/// The parameters of a rename.
#[verifier::opaque]
pub open spec fn name_params(id: Seq<char>, name: Seq<char>) -> JsonView {
    object(seq![("threadId"@, text_value(id)), ("name"@, text_value(name))])
}

/// The parameters of a request to stop a turn.
#[verifier::opaque]
pub open spec fn interrupt_params(id: Seq<char>, turn: Seq<char>) -> JsonView {
    object(seq![("threadId"@, text_value(id)), ("turnId"@, text_value(turn))])
}

/// The parts of a reply to several questions.
pub open spec fn reply_parts(text: Seq<char>) -> Seq<Seq<char>> {
    let parts = split_on(text, '|');
    Seq::new(parts.len(), |i: int| trim(parts[i]))
}

/// The part of a reply for a question: the one with its number, or the last.
pub open spec fn part_for(parts: Seq<Seq<char>>, index: int) -> Seq<char> {
    if index < parts.len() {
        parts[index]
    } else {
        parts.last()
    }
}

/// The answers to the first `count` questions.
pub open spec fn answers_to(questions: Seq<QuestionView>, parts: Seq<Seq<char>>, count: int) -> Seq<
    (Seq<char>, JsonView),
>
    decreases count,
{
    if count <= 0 {
        seq![]
    } else {
        let question = questions[count - 1];
        let answer = resolved_answer(question, part_for(parts, count - 1));
        put(
            answers_to(questions, parts, count - 1),
            question.id,
            object(seq![("answers"@, JsonView::Array(seq![text_value(answer)]))]),
        )
    }
}

/// The answer to a request, for the reply that the user gave; nothing where the
/// request is not supported.
#[verifier::opaque]
pub open spec fn answer_value(kind: RequestKindView, text: Seq<char>) -> Option<JsonView> {
    match kind {
        RequestKindView::UserInput(questions) => Some(
            object(
                seq![
                    (
                        "answers"@,
                        object(
                            answers_to(questions, reply_parts(text), questions.len() as int),
                        ),
                    ),
                ],
            ),
        ),
        RequestKindView::CommandApproval | RequestKindView::FileApproval => Some(
            object(seq![("decision"@, text_value(decision(lower(trim(text)))))]),
        ),
        RequestKindView::PermissionApproval => Some(
            object(seq![("permissions"@, object(seq![])), ("scope"@, text_value("turn"@))]),
        ),
        RequestKindView::McpElicitation => Some(
            object(seq![("action"@, text_value("decline"@))]),
        ),
        RequestKindView::Unsupported(_) => None,
    }
}

/// What a request of the app-server asks for.
#[verifier::opaque]
pub open spec fn request_kind(method: Seq<char>, params: JsonView) -> RequestKindView {
    if method == "item/tool/requestUserInput"@ {
        RequestKindView::UserInput(questions_of(params.get_items("questions"@)))
    } else if method == "item/commandExecution/requestApproval"@ || method
        == "execCommandApproval"@ {
        RequestKindView::CommandApproval
    } else if method == "item/fileChange/requestApproval"@ || method == "applyPatchApproval"@ {
        RequestKindView::FileApproval
    } else if method == "item/permissions/requestApproval"@ {
        RequestKindView::PermissionApproval
    } else if method == "mcpServer/elicitation/request"@ {
        RequestKindView::McpElicitation
    } else {
        RequestKindView::Unsupported(method)
    }
}

/// The local copy of a prompt, until the app-server repeats it.
#[verifier::opaque]
pub open spec fn local_prompt(number: u64, draft: DraftView) -> MessageView {
    MessageView {
        id: "local-user-"@ + decimal(number as nat),
        kind: MessageKind::User,
        text: draft_shown(draft),
    }
}

fn text_json(text: &str) -> (json: Json)
    ensures
        json@ == text_value(text@),
{
    json_str(text)
}

/// The parameters of a request on one thread.
pub fn thread_params_json(id: &str) -> (json: Json)
    ensures
        json@ == thread_params(id@),
{
    reveal(thread_params);
    object1(member("threadId", text_json(id)))
}

/// The parameters of the first request.
pub fn initialize_params_json() -> (json: Json)
    ensures
        json@ == initialize_params(),
{
    reveal(initialize_params);
    object2(
        member(
            "clientInfo",
            object3(
                member("name", text_json("codex_deck")),
                member("title", text_json("Codex Deck")),
                member("version", text_json("0.1.0")),
            ),
        ),
        member("capabilities", object1(member("experimentalApi", Json::Bool(true)))),
    )
}

/// The parameters of a request for a page of the list of threads.
pub fn list_params_json(cursor: Option<&str>) -> (json: Json)
    ensures
        json@ == list_params(
            match cursor {
                Some(cursor) => Some(cursor@),
                None => None,
            },
        ),
{
    reveal(list_params);
    let ghost shown = match cursor {
        Some(cursor) => Some(cursor@),
        None => None,
    };
    let cursor = match cursor {
        Some(cursor) => text_json(cursor),
        None => Json::Null,
    };
    let mut kinds: Vec<Json> = Vec::new();
    kinds.push(text_json("cli"));
    kinds.push(text_json("vscode"));
    kinds.push(text_json("exec"));
    kinds.push(text_json("appServer"));
    let ghost sources = seq![
        text_value("cli"@),
        text_value("vscode"@),
        text_value("exec"@),
        text_value("appServer"@),
    ];
    assert(json_views(kinds@) =~= sources);
    let first = object3(
        member("cursor", cursor),
        member("limit", Json::Number(JsonNumber::Unsigned(100))),
        member("sortKey", text_json("recency_at")),
    );
    let second = object3(
        member("sortDirection", text_json("desc")),
        member("archived", Json::Bool(false)),
        member("sourceKinds", json_array(kinds)),
    );
    proof {
        let page = match shown {
            Some(cursor) => text_value(cursor),
            None => JsonView::Null,
        };
        assert(first@ == object(
            seq![
                ("cursor"@, page),
                ("limit"@, integer_value(100)),
                ("sortKey"@, text_value("recency_at"@)),
            ],
        ));
        assert(second@ == object(
            seq![
                ("sortDirection"@, text_value("desc"@)),
                ("archived"@, JsonView::Bool(false)),
                ("sourceKinds"@, JsonView::Array(sources)),
            ],
        ));
    }
    let json = joined_object(first, second);
    assert(list_params(shown)->Object_0[5].1->Array_0 =~= sources);
    assert(json@->Object_0 =~= list_params(shown)->Object_0);
    json
}

/// The parameters of a request for a thread with its history.
pub fn read_params_json(id: &str) -> (json: Json)
    ensures
        json@ == read_params(id@),
{
    reveal(read_params);
    object2(member("threadId", text_json(id)), member("includeTurns", Json::Bool(true)))
}

/// The parameters of a new task.
pub fn start_params_json(cwd: &str) -> (json: Json)
    ensures
        json@ == start_params(cwd@),
{
    reveal(start_params);
    let first = object2(
        member("cwd", text_json(cwd)),
        member("serviceName", text_json("codex-deck")),
    );
    let second = object2(
        member("threadSource", text_json("codex-deck")),
        member("ephemeral", Json::Bool(false)),
    );
    joined_object(first, second)
}

/// A prompt as input: its text, its images and its skills.
pub fn prompt_input(draft: &PromptDraft) -> (input: Json)
    ensures
        input@ == JsonView::Array(draft_input(draft@)),
{
    reveal(draft_input);
    let ghost shown = draft@;
    let mut items: Vec<Json> = Vec::new();
    if !text_is_empty(draft.text.as_str()) {
        items.push(
            object3(
                member("type", text_json("text")),
                member("text", text_json(draft.text.as_str())),
                member("text_elements", json_array(Vec::new())),
            ),
        );
    }
    assert(json_views(Seq::<Json>::empty()) =~= seq![]);
    assert(json_views(items@) =~= text_input(shown.text));
    let mut i: usize = 0;
    while i < draft.images.len()
        invariant
            i <= draft.images.len(),
            shown == draft@,
            json_views(items@) == text_input(shown.text) + image_input(shown.images).take(i as int),
        decreases draft.images.len() - i,
    {
        let ghost before = json_views(items@);
        let item = object2(
            member("type", text_json("localImage")),
            member("path", text_json(draft.images[i].as_str())),
        );
        proof {
            assert(item@ == image_input(shown.images)[i as int]);
            assert(image_input(shown.images).take(i + 1) =~= image_input(shown.images).take(
                i as int,
            ).push(item@));
        }
        let ghost view = item@;
        items.push(item);
        assert(json_views(items@) =~= before.push(view));
        i += 1;
    }
    assert(image_input(shown.images).take(i as int) =~= image_input(shown.images));
    let ghost start = text_input(shown.text) + image_input(shown.images);
    let mut k: usize = 0;
    while k < draft.skills.len()
        invariant
            k <= draft.skills.len(),
            shown == draft@,
            json_views(items@) == start + skill_input(shown.skills).take(k as int),
        decreases draft.skills.len() - k,
    {
        let ghost before = json_views(items@);
        let item = object3(
            member("type", text_json("skill")),
            member("name", text_json(draft.skills[k].name.as_str())),
            member("path", text_json(draft.skills[k].path.as_str())),
        );
        proof {
            assert(item@ == skill_input(shown.skills)[k as int]);
            assert(skill_input(shown.skills).take(k + 1) =~= skill_input(shown.skills).take(
                k as int,
            ).push(item@));
        }
        let ghost view = item@;
        items.push(item);
        assert(json_views(items@) =~= before.push(view));
        k += 1;
    }
    assert(skill_input(shown.skills).take(k as int) =~= skill_input(shown.skills));
    json_array(items)
}

/// A prompt as it is shown before the app-server repeats it.
pub fn draft_display(draft: &PromptDraft) -> (text: String)
    ensures
        text@ == draft_shown(draft@),
{
    reveal(draft_shown);
    let count: usize = draft.images.len();
    if count == 0 {
        return draft.text.clone();
    }
    let label = if count == 1 {
        "🖼 1 image".to_owned()
    } else {
        let start = concat_text("🖼 ", decimal_text(count as u64).as_str());
        concat_text(start.as_str(), " images")
    };
    if text_is_empty(draft.text.as_str()) {
        label
    } else {
        let start = concat_text(draft.text.as_str(), "\n\n");
        concat_text(start.as_str(), label.as_str())
    }
}

/// The parameters of a new turn.
pub fn turn_params_json(id: &str, draft: &PromptDraft) -> (json: Json)
    ensures
        json@ == turn_params(id@, draft@),
{
    reveal(turn_params);
    object3(
        member("threadId", text_json(id)),
        member("input", prompt_input(draft)),
        member("summary", text_json("auto")),
    )
}

/// The parameters of a prompt for the turn that is going on.
pub fn steer_params_json(id: &str, turn: &str, draft: &PromptDraft) -> (json: Json)
    ensures
        json@ == steer_params(id@, turn@, draft@),
{
    reveal(steer_params);
    object3(
        member("threadId", text_json(id)),
        member("expectedTurnId", text_json(turn)),
        member("input", prompt_input(draft)),
    )
}

/// The parameters of a request for the skills of a directory.
pub fn skills_params_json(cwd: &str) -> (json: Json)
    ensures
        json@ == skills_params(cwd@),
{
    reveal(skills_params);
    let mut list: Vec<Json> = Vec::new();
    list.push(text_json(cwd));
    assert(json_views(list@) =~= seq![text_value(cwd@)]);
    object1(member("cwds", json_array(list)))
}

/// The parameters of a rename.
pub fn name_params_json(id: &str, name: &str) -> (json: Json)
    ensures
        json@ == name_params(id@, name@),
{
    reveal(name_params);
    object2(member("threadId", text_json(id)), member("name", text_json(name)))
}

/// The parameters of a request to stop a turn.
pub fn interrupt_params_json(id: &str, turn: &str) -> (json: Json)
    ensures
        json@ == interrupt_params(id@, turn@),
{
    reveal(interrupt_params);
    object2(member("threadId", text_json(id)), member("turnId", text_json(turn)))
}

/// The parts of a reply to several questions.
fn reply_parts_of(text: &str) -> (parts: Vec<String>)
    ensures
        texts(parts@) == reply_parts(text@),
        parts.len() > 0,
{
    let pieces = split_text_on(text, '|');
    let ghost all = split_on(text@, '|');
    let mut parts: Vec<String> = Vec::new();
    let mut i: usize = 0;
    while i < pieces.len()
        invariant
            i <= pieces.len(),
            parts.len() == i,
            all == texts(pieces@),
            forall|j: int| 0 <= j < i ==> (#[trigger] parts@[j])@ == trim(all[j]),
        decreases pieces.len() - i,
    {
        let part = trim_text(pieces[i].as_str());
        parts.push(part);
        i += 1;
    }
    assert(texts(parts@) =~= reply_parts(text@));
    parts
}

/// The answers to the questions of a request.
fn answers_json(questions: &Vec<InputQuestion>, text: &str) -> (answers: Json)
    ensures
        answers@ == object(
            answers_to(views(questions@), reply_parts(text@), questions.len() as int),
        ),
{
    let parts = reply_parts_of(text);
    let ghost all = views(questions@);
    let ghost given = reply_parts(text@);
    let mut members: Vec<(String, Json)> = Vec::new();
    let mut i: usize = 0;
    assert(member_views(members@) =~= seq![]);
    while i < questions.len()
        invariant
            i <= questions.len(),
            all == views(questions@),
            given == texts(parts@),
            parts.len() > 0,
            member_views(members@) == answers_to(all, given, i as int),
        decreases questions.len() - i,
    {
        let raw = if i < parts.len() {
            parts[i].as_str()
        } else {
            parts[parts.len() - 1].as_str()
        };
        assert(raw@ == part_for(given, i as int));
        let answer = resolve_question_answer(&questions[i], raw);
        let mut list: Vec<Json> = Vec::new();
        list.push(text_json(answer.as_str()));
        assert(json_views(list@) =~= seq![text_value(answer@)]);
        let value = object1(member("answers", json_array(list)));
        put_member(&mut members, questions[i].id.as_str(), value);
        i += 1;
    }
    proof {
        lemma_object_view(members);
    }
    Json::Object(members)
}

/// Gives a member of an object under construction a value.
fn put_member(members: &mut Vec<(String, Json)>, key: &str, value: Json)
    ensures
        member_views(final(members)@) == put(member_views(old(members)@), key@, value@),
{
    let ghost all = member_views(members@);
    let ghost entry = (key@, value@);
    let mut i: usize = 0;
    while i < members.len()
        invariant
            i <= members.len(),
            all == member_views(members@),
            all == member_views(old(members)@),
            entry == (key@, value@),
            forall|j: int| 0 <= j < i ==> (#[trigger] all[j]).0 != key@,
        decreases members.len() - i,
    {
        if same_text(members[i].0.as_str(), key) {
            proof {
                lemma_key_slot_is(all, key@, i as int);
            }
            members.set(i, (key.to_owned(), value));
            assert(member_views(members@) =~= all.update(i as int, entry));
            return;
        }
        i += 1;
    }
    proof {
        lemma_no_key_slot(all, key@);
    }
    members.push((key.to_owned(), value));
    assert(member_views(members@) =~= all.push(entry));
}

/// The answer to a request, for the reply that the user gave; nothing where the
/// request is not supported.
pub fn answer_json(kind: &PendingRequestKind, text: &str) -> (answer: Option<Json>)
    ensures
        option_view(answer) == answer_value(kind@, text@),
{
    reveal(answer_value);
    match kind {
        PendingRequestKind::UserInput(questions) => Some(
            object1(member("answers", answers_json(questions, text))),
        ),
        PendingRequestKind::CommandApproval | PendingRequestKind::FileApproval => {
            let normalized = lower_text(trim_text(text).as_str());
            Some(
                object1(member("decision", text_json(approval_decision(normalized.as_str())))),
            )
        },
        PendingRequestKind::PermissionApproval => Some(
            object2(member("permissions", object0()), member("scope", text_json("turn"))),
        ),
        PendingRequestKind::McpElicitation => Some(
            object1(member("action", text_json("decline"))),
        ),
        PendingRequestKind::Unsupported(_) => None,
    }
}

/// What a request of the app-server asks for.
pub fn request_kind_of(method: &str, params: &Json) -> (kind: PendingRequestKind)
    ensures
        kind@ == request_kind(method@, params@),
{
    reveal(request_kind);
    if same_text(method, "item/tool/requestUserInput") {
        PendingRequestKind::UserInput(parse_questions(params))
    } else if same_text(method, "item/commandExecution/requestApproval") || same_text(
        method,
        "execCommandApproval",
    ) {
        PendingRequestKind::CommandApproval
    } else if same_text(method, "item/fileChange/requestApproval") || same_text(
        method,
        "applyPatchApproval",
    ) {
        PendingRequestKind::FileApproval
    } else if same_text(method, "item/permissions/requestApproval") {
        PendingRequestKind::PermissionApproval
    } else if same_text(method, "mcpServer/elicitation/request") {
        PendingRequestKind::McpElicitation
    } else {
        PendingRequestKind::Unsupported(method.to_owned())
    }
}

/// The local copy of a prompt.
pub fn local_prompt_entry(number: u64, draft: &PromptDraft) -> (entry: MessageEntry)
    ensures
        entry@ == local_prompt(number, draft@),
{
    reveal(local_prompt);
    MessageEntry {
        id: concat_text("local-user-", decimal_text(number).as_str()),
        kind: MessageKind::User,
        text: draft_display(draft),
    }
}

} // verus!
