//! What is sent to the app-server, and what the user's answers say.

use vstd::prelude::*;

use crate::assoc::{key_slot, law_put_then_lookup, lookup};
use crate::json::{JsonNumberView, JsonView, member_index, object};
use crate::params::{
    answer_value, answers_to, draft_input, draft_shown, interrupt_params, list_params, name_params,
    part_for, read_params, reply_parts, request_kind, skills_params, start_params, text_value,
    thread_params,
};
use crate::protocol::{
    option_labelled, option_line, option_lines, options_of, OptionView, question_shown,
    questions_of, QuestionView, request_shown, RequestKindView, resolved_answer,
};
use crate::state::DraftView;
use crate::text::{decimal, digit, digits_value, join, lower, parse_decimal, split_on, trim};

verus! {

proof fn lemma_request_words()
    ensures
        "threadId"@ != "includeTurns"@,
        "threadId"@ != "name"@,
        "threadId"@ != "turnId"@,
        "includeTurns"@ != "name"@,
        "includeTurns"@ != "turnId"@,
        "name"@ != "turnId"@,
        "cwd"@ != "serviceName"@,
        "cwd"@ != "threadSource"@,
        "cwd"@ != "ephemeral"@,
        "serviceName"@ != "threadSource"@,
        "serviceName"@ != "ephemeral"@,
        "threadSource"@ != "ephemeral"@,
        "cursor"@ != "limit"@,
        "cursor"@ != "sortKey"@,
        "cursor"@ != "sortDirection"@,
        "cursor"@ != "archived"@,
        "cursor"@ != "sourceKinds"@,
        "limit"@ != "sortKey"@,
        "limit"@ != "sortDirection"@,
        "limit"@ != "archived"@,
        "limit"@ != "sourceKinds"@,
        "sortKey"@ != "sortDirection"@,
        "sortKey"@ != "archived"@,
        "sortKey"@ != "sourceKinds"@,
        "sortDirection"@ != "archived"@,
        "sortDirection"@ != "sourceKinds"@,
        "archived"@ != "sourceKinds"@,
        "permissions"@ != "scope"@,
{
    reveal_strlit("threadId");
    reveal_strlit("includeTurns");
    reveal_strlit("name");
    reveal_strlit("turnId");
    reveal_strlit("cwd");
    reveal_strlit("serviceName");
    reveal_strlit("threadSource");
    reveal_strlit("ephemeral");
    reveal_strlit("cursor");
    reveal_strlit("limit");
    reveal_strlit("sortKey");
    reveal_strlit("sortDirection");
    reveal_strlit("archived");
    reveal_strlit("sourceKinds");
    reveal_strlit("permissions");
    reveal_strlit("scope");
    assert("threadId"@.len() != "includeTurns"@.len());
    assert("threadId"@.len() != "name"@.len());
    assert("threadId"@.len() != "turnId"@.len());
    assert("includeTurns"@.len() != "name"@.len());
    assert("includeTurns"@.len() != "turnId"@.len());
    assert("name"@.len() != "turnId"@.len());
    assert("cwd"@.len() != "serviceName"@.len());
    assert("cwd"@.len() != "threadSource"@.len());
    assert("cwd"@.len() != "ephemeral"@.len());
    assert("serviceName"@.len() != "threadSource"@.len());
    assert("serviceName"@.len() != "ephemeral"@.len());
    assert("threadSource"@.len() != "ephemeral"@.len());
    assert("cursor"@.len() != "limit"@.len());
    assert("cursor"@.len() != "sortKey"@.len());
    assert("cursor"@.len() != "sortDirection"@.len());
    assert("cursor"@.len() != "archived"@.len());
    assert("cursor"@.len() != "sourceKinds"@.len());
    assert("limit"@.len() != "sortKey"@.len());
    assert("limit"@.len() != "sortDirection"@.len());
    assert("limit"@.len() != "archived"@.len());
    assert("limit"@.len() != "sourceKinds"@.len());
    assert("sortKey"@.len() != "sortDirection"@.len());
    assert("sortKey"@.len() != "archived"@.len());
    assert("sortKey"@.len() != "sourceKinds"@.len());
    assert("sortDirection"@.len() != "archived"@.len());
    assert("sortDirection"@.len() != "sourceKinds"@.len());
    assert("archived"@.len() != "sourceKinds"@.len());
    assert("permissions"@.len() != "scope"@.len());
}

proof fn lemma_input_words()
    ensures
        "type"@ != "text"@,
        "type"@ != "text_elements"@,
        "type"@ != "path"@,
        "type"@ != "name"@,
        "text"@ != "text_elements"@,
        "text"@ != "path"@,
        "text"@ != "name"@,
        "text_elements"@ != "path"@,
        "text_elements"@ != "name"@,
        "path"@ != "name"@,
{
    reveal_strlit("type");
    reveal_strlit("text");
    reveal_strlit("text_elements");
    reveal_strlit("path");
    reveal_strlit("name");
    assert("type"@[1] != "text"@[1]);
    assert("type"@.len() != "text_elements"@.len());
    assert("type"@[0] != "path"@[0]);
    assert("type"@[0] != "name"@[0]);
    assert("text"@.len() != "text_elements"@.len());
    assert("text"@[0] != "path"@[0]);
    assert("text"@[0] != "name"@[0]);
    assert("text_elements"@.len() != "path"@.len());
    assert("text_elements"@.len() != "name"@.len());
    assert("path"@[0] != "name"@[0]);
}

proof fn lemma_reply_words()
    ensures
        "a"@ != "always"@,
        "a"@ != "session"@,
        "a"@ != "y"@,
        "a"@ != "yes"@,
        "a"@ != "approve"@,
        "a"@ != "allow"@,
        "a"@ != "c"@,
        "a"@ != "cancel"@,
        "always"@ != "session"@,
        "always"@ != "y"@,
        "always"@ != "yes"@,
        "always"@ != "approve"@,
        "always"@ != "allow"@,
        "always"@ != "c"@,
        "always"@ != "cancel"@,
        "session"@ != "y"@,
        "session"@ != "yes"@,
        "session"@ != "approve"@,
        "session"@ != "allow"@,
        "session"@ != "c"@,
        "session"@ != "cancel"@,
        "y"@ != "yes"@,
        "y"@ != "approve"@,
        "y"@ != "allow"@,
        "y"@ != "c"@,
        "y"@ != "cancel"@,
        "yes"@ != "approve"@,
        "yes"@ != "allow"@,
        "yes"@ != "c"@,
        "yes"@ != "cancel"@,
        "approve"@ != "allow"@,
        "approve"@ != "c"@,
        "approve"@ != "cancel"@,
        "allow"@ != "c"@,
        "allow"@ != "cancel"@,
        "c"@ != "cancel"@,
{
    reveal_strlit("a");
    reveal_strlit("always");
    reveal_strlit("session");
    reveal_strlit("y");
    reveal_strlit("yes");
    reveal_strlit("approve");
    reveal_strlit("allow");
    reveal_strlit("c");
    reveal_strlit("cancel");
    assert("a"@.len() != "always"@.len());
    assert("a"@.len() != "session"@.len());
    assert("a"@[0] != "y"@[0]);
    assert("a"@.len() != "yes"@.len());
    assert("a"@.len() != "approve"@.len());
    assert("a"@.len() != "allow"@.len());
    assert("a"@[0] != "c"@[0]);
    assert("a"@.len() != "cancel"@.len());
    assert("always"@.len() != "session"@.len());
    assert("always"@.len() != "y"@.len());
    assert("always"@.len() != "yes"@.len());
    assert("always"@.len() != "approve"@.len());
    assert("always"@.len() != "allow"@.len());
    assert("always"@.len() != "c"@.len());
    assert("always"@[0] != "cancel"@[0]);
    assert("session"@.len() != "y"@.len());
    assert("session"@.len() != "yes"@.len());
    assert("session"@[0] != "approve"@[0]);
    assert("session"@.len() != "allow"@.len());
    assert("session"@.len() != "c"@.len());
    assert("session"@.len() != "cancel"@.len());
    assert("y"@.len() != "yes"@.len());
    assert("y"@.len() != "approve"@.len());
    assert("y"@.len() != "allow"@.len());
    assert("y"@[0] != "c"@[0]);
    assert("y"@.len() != "cancel"@.len());
    assert("yes"@.len() != "approve"@.len());
    assert("yes"@.len() != "allow"@.len());
    assert("yes"@.len() != "c"@.len());
    assert("yes"@.len() != "cancel"@.len());
    assert("approve"@.len() != "allow"@.len());
    assert("approve"@.len() != "c"@.len());
    assert("approve"@.len() != "cancel"@.len());
    assert("allow"@.len() != "c"@.len());
    assert("allow"@.len() != "cancel"@.len());
    assert("c"@.len() != "cancel"@.len());
}

proof fn lemma_kind_words()
    ensures
        "item/tool/requestUserInput"@ != "item/commandExecution/requestApproval"@,
        "item/tool/requestUserInput"@ != "execCommandApproval"@,
        "item/tool/requestUserInput"@ != "item/fileChange/requestApproval"@,
        "item/tool/requestUserInput"@ != "applyPatchApproval"@,
        "item/tool/requestUserInput"@ != "item/permissions/requestApproval"@,
        "item/tool/requestUserInput"@ != "mcpServer/elicitation/request"@,
        "item/commandExecution/requestApproval"@ != "execCommandApproval"@,
        "item/commandExecution/requestApproval"@ != "item/fileChange/requestApproval"@,
        "item/commandExecution/requestApproval"@ != "applyPatchApproval"@,
        "item/commandExecution/requestApproval"@ != "item/permissions/requestApproval"@,
        "item/commandExecution/requestApproval"@ != "mcpServer/elicitation/request"@,
        "execCommandApproval"@ != "item/fileChange/requestApproval"@,
        "execCommandApproval"@ != "applyPatchApproval"@,
        "execCommandApproval"@ != "item/permissions/requestApproval"@,
        "execCommandApproval"@ != "mcpServer/elicitation/request"@,
        "item/fileChange/requestApproval"@ != "applyPatchApproval"@,
        "item/fileChange/requestApproval"@ != "item/permissions/requestApproval"@,
        "item/fileChange/requestApproval"@ != "mcpServer/elicitation/request"@,
        "applyPatchApproval"@ != "item/permissions/requestApproval"@,
        "applyPatchApproval"@ != "mcpServer/elicitation/request"@,
        "item/permissions/requestApproval"@ != "mcpServer/elicitation/request"@,
{
    reveal_strlit("item/tool/requestUserInput");
    reveal_strlit("item/commandExecution/requestApproval");
    reveal_strlit("execCommandApproval");
    reveal_strlit("item/fileChange/requestApproval");
    reveal_strlit("applyPatchApproval");
    reveal_strlit("item/permissions/requestApproval");
    reveal_strlit("mcpServer/elicitation/request");
    assert("item/tool/requestUserInput"@.len() != "item/commandExecution/requestApproval"@.len());
    assert("item/tool/requestUserInput"@.len() != "execCommandApproval"@.len());
    assert("item/tool/requestUserInput"@.len() != "item/fileChange/requestApproval"@.len());
    assert("item/tool/requestUserInput"@.len() != "applyPatchApproval"@.len());
    assert("item/tool/requestUserInput"@.len() != "item/permissions/requestApproval"@.len());
    assert("item/tool/requestUserInput"@.len() != "mcpServer/elicitation/request"@.len());
    assert("item/commandExecution/requestApproval"@.len() != "execCommandApproval"@.len());
    assert("item/commandExecution/requestApproval"@.len() != "item/fileChange/requestApproval"@.len());
    assert("item/commandExecution/requestApproval"@.len() != "applyPatchApproval"@.len());
    assert("item/commandExecution/requestApproval"@.len() != "item/permissions/requestApproval"@.len());
    assert("item/commandExecution/requestApproval"@.len() != "mcpServer/elicitation/request"@.len());
    assert("execCommandApproval"@.len() != "item/fileChange/requestApproval"@.len());
    assert("execCommandApproval"@.len() != "applyPatchApproval"@.len());
    assert("execCommandApproval"@.len() != "item/permissions/requestApproval"@.len());
    assert("execCommandApproval"@.len() != "mcpServer/elicitation/request"@.len());
    assert("item/fileChange/requestApproval"@.len() != "applyPatchApproval"@.len());
    assert("item/fileChange/requestApproval"@.len() != "item/permissions/requestApproval"@.len());
    assert("item/fileChange/requestApproval"@.len() != "mcpServer/elicitation/request"@.len());
    assert("applyPatchApproval"@.len() != "item/permissions/requestApproval"@.len());
    assert("applyPatchApproval"@.len() != "mcpServer/elicitation/request"@.len());
    assert("item/permissions/requestApproval"@.len() != "mcpServer/elicitation/request"@.len());
}

/// Every request names what it is about: its thread, its turn, its directory, or the
/// page of the list.
pub proof fn law_requests_say_what_they_are_about(
    id: Seq<char>,
    other: Seq<char>,
    cursor: Option<Seq<char>>,
)
    ensures
        thread_params(id).get_str("threadId"@) == Some(id),
        read_params(id).get_str("threadId"@) == Some(id),
        read_params(id).get("includeTurns"@) == Some(JsonView::Bool(true)),
        name_params(id, other).get_str("threadId"@) == Some(id),
        name_params(id, other).get_str("name"@) == Some(other),
        interrupt_params(id, other).get_str("threadId"@) == Some(id),
        interrupt_params(id, other).get_str("turnId"@) == Some(other),
        start_params(other).get_str("cwd"@) == Some(other),
        start_params(other).get_str("threadSource"@) == Some("codex-deck"@),
        start_params(other).get_str("serviceName"@) == Some("codex-deck"@),
        start_params(other).get("ephemeral"@) == Some(JsonView::Bool(false)),
        skills_params(other).get_items("cwds"@) == seq![JsonView::Text(other)],
        list_params(cursor).get("cursor"@) == (match cursor {
            Some(cursor) => Some(JsonView::Text(cursor)),
            None => Some(JsonView::Null),
        }),
        list_params(cursor).get("limit"@) == Some(
            JsonView::Number(JsonNumberView::Integer(100)),
        ),
        list_params(cursor).get_str("sortKey"@) == Some("recency_at"@),
        list_params(cursor).get_str("sortDirection"@) == Some("desc"@),
        list_params(cursor).get("archived"@) == Some(JsonView::Bool(false)),
        list_params(cursor).get_items("sourceKinds"@) == seq![
            JsonView::Text("cli"@),
            JsonView::Text("vscode"@),
            JsonView::Text("exec"@),
            JsonView::Text("appServer"@),
        ],
{
    lemma_request_words();
    reveal(thread_params);
    reveal(read_params);
    reveal(name_params);
    reveal(interrupt_params);
    reveal(start_params);
    reveal(skills_params);
    reveal(list_params);
    reveal_with_fuel(member_index, 7);
    lemma_list_members(cursor);
}

proof fn lemma_list_members(cursor: Option<Seq<char>>)
    ensures
        list_params(cursor)->Object_0.len() == 6,
        list_params(cursor)->Object_0[3].0 == "sortDirection"@,
        list_params(cursor)->Object_0[4].0 == "archived"@,
        list_params(cursor)->Object_0[5].0 == "sourceKinds"@,
{
    reveal(list_params);
}

/// The input of a prompt is its text, where it has one, then its images, and then its
/// skills, each in order and none left out.
pub proof fn law_prompts_are_sent_whole(draft: DraftView, i: int)
    ensures
        ({
            let input = draft_input(draft);
            let texts = if draft.text.len() > 0 {
                1int
            } else {
                0
            };
            let images = draft.images.len() as int;
            &&& input.len() == texts + images + draft.skills.len()
            &&& texts == 1 ==> input[0].get_str("type"@) == Some("text"@) && input[0].get_str(
                "text"@,
            ) == Some(draft.text)
            &&& 0 <= i < images ==> input[texts + i].get_str("type"@) == Some("localImage"@)
                && input[texts + i].get_str("path"@) == Some(draft.images[i])
            &&& 0 <= i < draft.skills.len() ==> input[texts + images + i].get_str("type"@) == Some(
                "skill"@,
            ) && input[texts + images + i].get_str("name"@) == Some(draft.skills[i].name)
                && input[texts + images + i].get_str("path"@) == Some(draft.skills[i].path)
        }),
{
    lemma_input_words();
    reveal(draft_input);
    reveal_with_fuel(member_index, 4);
}

/// A prompt is shown with its text, and with the number of its images where it has
/// some.
pub proof fn law_prompts_are_shown_with_their_images(draft: DraftView)
    ensures
        draft.images.len() == 0 ==> draft_shown(draft) == draft.text,
        draft.images.len() == 1 && draft.text.len() == 0 ==> draft_shown(draft) == "🖼 1 image"@,
        draft.images.len() == 1 && draft.text.len() > 0 ==> draft_shown(draft) == draft.text
            + "\n\n"@ + "🖼 1 image"@,
        draft.images.len() > 1 && draft.text.len() == 0 ==> draft_shown(draft) == "🖼 "@ + decimal(
            draft.images.len(),
        ) + " images"@,
        draft.images.len() > 1 && draft.text.len() > 0 ==> draft_shown(draft) == draft.text
            + "\n\n"@ + ("🖼 "@ + decimal(draft.images.len()) + " images"@),
{
    reveal(draft_shown);
}

/// An approval is granted once for `y`, for the session for `a`, and refused for
/// anything that is no word of consent, whatever the case and the white space around.
pub proof fn law_approvals_follow_the_reply(kind: RequestKindView, text: Seq<char>)
    requires
        kind == RequestKindView::CommandApproval || kind == RequestKindView::FileApproval,
    ensures
        answer_value(kind, text) matches Some(answer) && {
            let word = lower(trim(text));
            let decision = answer.get_str("decision"@);
            let once = word == "y"@ || word == "yes"@ || word == "approve"@ || word == "allow"@;
            let always = word == "a"@ || word == "always"@ || word == "session"@;
            let cancelled = word == "c"@ || word == "cancel"@;
            &&& once ==> decision == Some("accept"@)
            &&& always ==> decision == Some("acceptForSession"@)
            &&& cancelled ==> decision == Some("cancel"@)
            &&& !once && !always && !cancelled ==> decision == Some("decline"@)
        },
{
    lemma_reply_words();
    reveal(answer_value);
    reveal_with_fuel(member_index, 2);
}

/// Further permissions are never granted, a form of a tool server is declined, and a
/// request that is not supported has no answer.
pub proof fn law_other_requests_are_declined(method: Seq<char>, text: Seq<char>)
    ensures
        answer_value(RequestKindView::PermissionApproval, text) matches Some(answer)
            && answer.get("permissions"@) == Some(JsonView::Object(seq![])) && answer.get_str(
            "scope"@,
        ) == Some("turn"@),
        answer_value(RequestKindView::McpElicitation, text) matches Some(answer) && answer.get_str(
            "action"@,
        ) == Some("decline"@),
        answer_value(RequestKindView::Unsupported(method), text) is None,
{
    lemma_request_words();
    reveal(answer_value);
    reveal_with_fuel(member_index, 3);
}

proof fn lemma_digit(n: nat)
    requires
        n < 10,
    ensures
        digits_value(seq![digit(n)]) == Some(n),
        '0' <= digit(n) && digit(n) <= '9',
        digit(n) as u32 - '0' as u32 == n,
        digit(n) != '+',
{
}

proof fn lemma_decimal_value(n: nat)
    ensures
        digits_value(decimal(n)) == Some(n),
        decimal(n).len() > 0,
        decimal(n)[0] != '+',
    decreases n,
{
    if n < 10 {
        lemma_digit(n);
    } else {
        lemma_decimal_value(n / 10);
        lemma_digit(n % 10);
        assert(decimal(n).drop_last() =~= decimal(n / 10));
    }
}

/// A number in decimal is read as the number that it is.
pub proof fn law_decimal_numbers_are_read_back(n: nat, max: nat)
    requires
        n <= max,
    ensures
        parse_decimal(decimal(n), max) == Some(n),
{
    lemma_decimal_value(n);
}

/// A reply to a question stands for the choice with its number, counted from one, or
/// for the choice with its label, whatever the case. Any other reply is the answer
/// itself.
pub proof fn law_replies_choose_by_number_or_label(
    question: QuestionView,
    n: nat,
    raw: Seq<char>,
)
    requires
        question.options.len() <= usize::MAX,
    ensures
        1 <= n <= question.options.len() ==> resolved_answer(question, decimal(n))
            == question.options[n - 1].label,
        parse_decimal(raw, usize::MAX as nat) is None ==> forall|i: int|
            0 <= i < question.options.len() && lower((#[trigger] question.options[i]).label)
                == lower(raw) && (forall|j: int|
                0 <= j < i ==> lower((#[trigger] question.options[j]).label) != lower(raw))
                ==> resolved_answer(question, raw) == question.options[i].label,
        parse_decimal(raw, usize::MAX as nat) is None && (forall|i: int|
            0 <= i < question.options.len() ==> lower((#[trigger] question.options[i]).label)
                != lower(raw)) ==> resolved_answer(question, raw) == raw,
{
    if 1 <= n <= question.options.len() {
        law_decimal_numbers_are_read_back(n, usize::MAX as nat);
    }
    lemma_labelled(question.options, raw);
}

proof fn lemma_labelled(options: Seq<OptionView>, raw: Seq<char>)
    ensures
        forall|i: int|
            0 <= i < options.len() && lower((#[trigger] options[i]).label) == lower(raw) && (forall|
                j: int,
            |
                0 <= j < i ==> lower((#[trigger] options[j]).label) != lower(raw))
                ==> option_labelled(options, raw) == Some(options[i].label),
        (forall|i: int|
            0 <= i < options.len() ==> lower((#[trigger] options[i]).label) != lower(raw))
            ==> option_labelled(options, raw) is None,
    decreases options.len(),
{
    if options.len() > 0 {
        let rest = options.drop_first();
        lemma_labelled(rest, raw);
        assert forall|j: int| 0 <= j < rest.len() implies #[trigger] rest[j] == options[j + 1] by {}
        assert forall|i: int|
            0 <= i < options.len() && lower((#[trigger] options[i]).label) == lower(raw) && (forall|
                j: int,
            |
                0 <= j < i ==> lower((#[trigger] options[j]).label) != lower(raw)) implies
            option_labelled(options, raw) == Some(options[i].label) by {
            if i > 0 {
                assert(lower(options[0].label) != lower(raw));
                assert(rest[i - 1] == options[i]);
                assert forall|j: int| 0 <= j < i - 1 implies lower((#[trigger] rest[j]).label)
                    != lower(raw) by {
                    assert(rest[j] == options[j + 1]);
                }
            }
        }
    }
}

proof fn lemma_member_slot(members: Seq<(Seq<char>, JsonView)>, key: Seq<char>)
    ensures
        member_index(members, key) == key_slot(members, key),
        object(members).get(key) == lookup(members, key),
    decreases members.len(),
{
    if members.len() > 0 {
        lemma_member_slot(members.drop_first(), key);
    }
}

proof fn lemma_answers(questions: Seq<QuestionView>, parts: Seq<Seq<char>>, count: int, k: int)
    requires
        0 <= k < count <= questions.len(),
        forall|i: int, j: int|
            0 <= i < j < questions.len() ==> (#[trigger] questions[i]).id != (
            #[trigger] questions[j]).id,
    ensures
        lookup(answers_to(questions, parts, count), questions[k].id) == Some(
            object(
                seq![
                    (
                        "answers"@,
                        JsonView::Array(
                            seq![
                                JsonView::Text(
                                    resolved_answer(questions[k], part_for(parts, k)),
                                ),
                            ],
                        ),
                    ),
                ],
            ),
        ),
    decreases count,
{
    let question = questions[count - 1];
    let answer = resolved_answer(question, part_for(parts, count - 1));
    let value = object(
        seq![("answers"@, JsonView::Array(seq![text_value(answer)]))],
    );
    law_put_then_lookup(
        answers_to(questions, parts, count - 1),
        question.id,
        value,
        questions[k].id,
    );
    if k < count - 1 {
        lemma_answers(questions, parts, count - 1, k);
        assert(questions[k].id != questions[count - 1].id);
    }
}

/// Several questions are answered at once: the parts of the reply between the bars go
/// to the questions in order, without the white space around them, and the last part
/// to the questions that are left.
pub proof fn law_questions_are_answered_in_order(
    questions: Seq<QuestionView>,
    text: Seq<char>,
    k: int,
)
    requires
        0 <= k < questions.len(),
        forall|i: int, j: int|
            0 <= i < j < questions.len() ==> (#[trigger] questions[i]).id != (
            #[trigger] questions[j]).id,
    ensures
        answer_value(RequestKindView::UserInput(questions), text) matches Some(answer) && {
            let parts = split_on(text, '|');
            let part = trim(
                if k < parts.len() {
                    parts[k]
                } else {
                    parts.last()
                },
            );
            answer.get("answers"@) matches Some(answers) && (answers.get(questions[k].id)
                matches Some(given) && given.get_items("answers"@) == seq![
                JsonView::Text(resolved_answer(questions[k], part)),
            ])
        },
{
    reveal(answer_value);
    reveal_with_fuel(member_index, 2);
    let parts = reply_parts(text);
    lemma_split_some(text);
    lemma_answers(questions, parts, questions.len() as int, k);
    let members = answers_to(questions, parts, questions.len() as int);
    lemma_member_slot(members, questions[k].id);
}

proof fn lemma_split_some(text: Seq<char>)
    ensures
        split_on(text, '|').len() > 0,
{
}

/// What a request of the app-server is about, by its method.
pub proof fn law_requests_are_told_apart(method: Seq<char>, params: JsonView)
    ensures
        ({
            let kind = request_kind(method, params);
            &&& method == "item/tool/requestUserInput"@ <==> kind is UserInput
            &&& method == "item/commandExecution/requestApproval"@ || method
                == "execCommandApproval"@ <==> kind is CommandApproval
            &&& method == "item/fileChange/requestApproval"@ || method == "applyPatchApproval"@
                <==> kind is FileApproval
            &&& method == "item/permissions/requestApproval"@ <==> kind is PermissionApproval
            &&& method == "mcpServer/elicitation/request"@ <==> kind is McpElicitation
            &&& kind matches RequestKindView::Unsupported(named) ==> named == method
        }),
{
    lemma_kind_words();
    reveal(request_kind);
}

/// The questions of a request are read in order: each with its identifier, its words
/// and its choices. One without an identifier is passed over.
pub proof fn law_questions_are_read_in_order(values: Seq<JsonView>, value: JsonView)
    ensures
        questions_of(seq![]).len() == 0,
        value.get_str("id"@) is None ==> questions_of(values.push(value)) == questions_of(values),
        value.get_str("id"@) matches Some(id) ==> {
            let all = questions_of(values.push(value));
            &&& all.len() == questions_of(values).len() + 1
            &&& all.drop_last() == questions_of(values)
            &&& all.last().id == id
            &&& value.get_str("question"@) matches Some(question) ==> all.last().question
                == question
            &&& value.get_str("header"@) matches Some(header) ==> all.last().header == header
            &&& value.get_str("header"@) is None ==> all.last().header == "Question"@
            &&& all.last().options == options_of(value.get_items("options"@))
        },
{
    assert(values.push(value).drop_last() =~= values);
    if value.get_str("id"@) is Some {
        assert(questions_of(values.push(value)).drop_last() =~= questions_of(values));
    }
}

/// The choices of a question are read in order, with their labels and descriptions.
/// One without a label is passed over.
pub proof fn law_choices_are_read_in_order(values: Seq<JsonView>, value: JsonView)
    ensures
        options_of(seq![]).len() == 0,
        value.get_str("label"@) is None ==> options_of(values.push(value)) == options_of(values),
        value.get_str("label"@) matches Some(label) ==> options_of(values.push(value))
            == options_of(values).push(
            OptionView {
                label,
                description: match value.get_str("description"@) {
                    Some(text) => text,
                    None => seq![],
                },
            },
        ),
{
    assert(values.push(value).drop_last() =~= values);
}

/// What the user sees of a request: the command and its reason, the reason of a change,
/// or the questions with their numbered choices.
pub proof fn law_requests_are_shown(params: JsonView, command: Seq<char>, reason: Seq<char>)
    ensures
        params.get_str("command"@) == Some(command) && params.get_str("reason"@) == Some(reason)
            ==> request_shown(RequestKindView::CommandApproval, params) == "Approve command?\n"@
            + command + "\n"@ + reason + "\ny once · a session · n deny"@,
        params.get_str("reason"@) == Some(reason) ==> request_shown(
            RequestKindView::FileApproval,
            params,
        ) == "Approve file change?\n"@ + reason + "\ny once · a session · n deny"@,
        params.get_str("reason"@) == Some(reason) ==> request_shown(
            RequestKindView::PermissionApproval,
            params,
        ) == reason + "\nAdvanced permission grants are denied by this version."@,
        params.get_str("message"@) == Some(reason) ==> request_shown(
            RequestKindView::McpElicitation,
            params,
        ) == reason,
        request_shown(RequestKindView::Unsupported(command), params)
            == "Unsupported Codex request: "@ + command,
{
    reveal(request_shown);
}

/// A question is shown with its heading and its words, and below them its choices,
/// numbered from one.
pub proof fn law_questions_are_shown_with_their_choices(
    question: QuestionView,
    option: OptionView,
    params: JsonView,
)
    requires
        option.label.len() > 0,
        option.description.len() > 0,
    ensures
        ({
            let asked = question.header + ": "@ + question.question;
            let plain = QuestionView { options: seq![], ..question };
            let one = QuestionView { options: seq![option], ..question };
            &&& request_shown(RequestKindView::UserInput(seq![plain]), params) == asked
            &&& request_shown(RequestKindView::UserInput(seq![one]), params) == asked + "\n"@ + (
            "  "@ + decimal(1) + ". "@ + option.label + " — "@ + option.description)
            &&& forall|i: int|
                0 <= i < question.options.len() ==> (#[trigger] option_lines(question.options)[i])
                    == option_line(question.options[i], (i + 1) as nat)
        }),
{
    reveal(request_shown);
    let plain = QuestionView { options: seq![], ..question };
    let one = QuestionView { options: seq![option], ..question };
    assert(option_lines(plain.options) =~= seq![]);
    assert(option_lines(one.options) =~= seq![option_line(option, 1)]);
    let shown = |q: QuestionView| Seq::new(1, |i: int| question_shown(seq![q][i]));
    assert(join(shown(plain), "\n\n"@) == question_shown(plain));
    assert(join(shown(one), "\n\n"@) == question_shown(one));
}

} // verus!
