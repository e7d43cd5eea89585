use codeck::composer::ComposeTarget;
use codeck::input::offered_sessions;
use codeck::json::{parse_json, print_json, Json};
use codeck::keys::{KeyCode, KeyEvent, KeyKind, KeyModifiers};
use codeck::lifecycle::LifecycleStore;
use codeck::model::{MessageEntry, MessageKind, PreviewVerbosity, Session, SessionStatus};
use codeck::protocol::{
    messages_from_thread, remove_matching_local_user, resolve_question_answer, user_input_text,
    user_message_signature, InputOption, InputQuestion,
};
use codeck::responses::ClientEvent;
use codeck::rpc::{Outgoing, RpcOutbox};
use codeck::state::{App, AppError, MenuTab, TranscriptOutcome};
use codeck::transcript::BoundedPreview;

fn json(text: &str) -> Json {
    parse_json(text.as_bytes()).expect("JSON")
}

fn value(json: &Json) -> serde_json::Value {
    serde_json::from_str(&print_json(json)).expect("value")
}

fn test_app(show_all: bool) -> App {
    App::with_lifecycle(
        "/tmp".to_string(),
        show_all,
        LifecycleStore::for_test("/tmp/lifecycle.json".to_string()),
    )
}

fn test_session(id: &str, title: &str, status: SessionStatus) -> Session {
    Session {
        id: id.to_string(),
        title: title.to_string(),
        preview: String::new(),
        cwd: format!("/tmp/{id}"),
        path: None,
        updated_at: 0,
        source: "appServer".to_string(),
        thread_source: Some("codex-deck".to_string()),
        status,
        active_turn_id: None,
        messages: Vec::new(),
        history_loaded: true,
    }
}

fn requests(sender: &RpcOutbox) -> Vec<(String, serde_json::Value)> {
    sender
        .messages
        .iter()
        .filter_map(|message| match message {
            Outgoing::Request { method, params, .. } => Some((method.clone(), value(params))),
            _ => None,
        })
        .collect()
}

fn last_request(sender: &RpcOutbox) -> (String, serde_json::Value) {
    requests(sender).pop().expect("a request")
}

fn expected(method: &str, params: &str) -> (String, serde_json::Value) {
    (method.to_string(), serde_json::from_str(params).expect("params"))
}

fn key(code: KeyCode) -> KeyEvent {
    KeyEvent::plain(code)
}

fn control(c: char) -> KeyEvent {
    let mut event = KeyEvent::plain(KeyCode::Char(c));
    event.modifiers.control = true;
    event
}

fn repeated(mut event: KeyEvent) -> KeyEvent {
    event.kind = KeyKind::Repeat;
    event
}

fn type_text(app: &mut App, sender: &mut RpcOutbox, text: &str) {
    for c in text.chars() {
        app.handle_key(key(KeyCode::Char(c)), sender);
    }
}

#[test]
fn reads_thinking_and_final_in_one_ordered_stream() {
    let thread = json(
        r#"{
            "turns": [{
                "id": "turn-1",
                "items": [
                    {"type":"userMessage","id":"u","content":[{"type":"text","text":"Do it","text_elements":[]}]},
                    {"type":"reasoning","id":"r","summary":["Inspecting", "Implementing"],"content":[]},
                    {"type":"agentMessage","id":"p","text":"Working","phase":"commentary","memoryCitation":null},
                    {"type":"agentMessage","id":"f","text":"Done","phase":"final_answer","memoryCitation":null}
                ],
                "error": null
            }]
        }"#,
    );
    let messages = messages_from_thread(&thread);
    assert_eq!(messages.len(), 4);
    assert_eq!(messages[1].kind, MessageKind::Thinking);
    assert_eq!(messages[2].kind, MessageKind::Progress);
    assert_eq!(messages[3].kind, MessageKind::Final);
    assert_eq!(messages[0].text, "Do it");
    assert_eq!(messages[3].id, "f");
}

#[test]
fn numeric_question_answer_resolves_to_option_label() {
    let question = InputQuestion {
        id: "choice".to_string(),
        header: "Choice".to_string(),
        question: "Pick".to_string(),
        options: vec![
            InputOption { label: "First".to_string(), description: String::new() },
            InputOption { label: "Second".to_string(), description: String::new() },
        ],
    };
    assert_eq!(resolve_question_answer(&question, "2"), "Second");
    assert_eq!(resolve_question_answer(&question, "3"), "3");
    assert_eq!(resolve_question_answer(&question, "0"), "0");
}

#[test]
fn attach_targets_the_selected_session_and_its_directory() {
    let mut app = test_app(true);
    let mut session = test_session("thread-123", "Test", SessionStatus::Completed);
    session.cwd = "/tmp/project".to_string();
    app.sessions_mut().push(session);

    app.request_attach();
    let request = app.take_attach_request().expect("attach request");
    assert_eq!(request.thread_id, "thread-123");
    assert_eq!(request.cwd, "/tmp/project");
    assert!(app.take_attach_request().is_none());
}

#[test]
fn attach_requires_two_right_arrow_presses_and_ignores_key_repeat() {
    let mut app = test_app(true);
    app.sessions_mut().push(test_session("thread-123", "Test", SessionStatus::Completed));
    let mut sender = RpcOutbox::default();

    app.handle_key(key(KeyCode::Enter), &mut sender);
    assert!(app.take_attach_request().is_none());

    app.handle_key(key(KeyCode::Right), &mut sender);
    assert!(app.take_attach_request().is_none());
    app.handle_key(repeated(key(KeyCode::Right)), &mut sender);
    assert!(app.take_attach_request().is_none());

    app.handle_key(key(KeyCode::Left), &mut sender);
    app.handle_key(key(KeyCode::Right), &mut sender);
    assert!(app.take_attach_request().is_none());
    app.handle_key(key(KeyCode::Right), &mut sender);

    assert_eq!(app.take_attach_request().expect("confirmed attach").thread_id, "thread-123");
}

#[test]
fn reply_drafts_follow_their_selected_sessions() {
    let mut app = test_app(false);
    app.sessions_mut().push(test_session("thread-a", "Session A", SessionStatus::Completed));
    app.sessions_mut().push(test_session("thread-b", "Session B", SessionStatus::Completed));
    let mut sender = RpcOutbox::default();
    app.toggle_compose_target();
    app.insert_text("reply for A");
    app.composer_mut().images.push("/tmp/a.png".to_string());

    app.move_selection(1, &mut sender);

    assert_eq!(app.selected_session().expect("B").id, "thread-b");
    assert_eq!(app.composer().target, ComposeTarget::Reply);
    assert!(app.composer().text.is_empty());
    assert!(app.composer().images.is_empty());
    app.insert_text("reply for B");

    app.move_selection(-1, &mut sender);

    assert_eq!(app.composer().text, "reply for A");
    assert_eq!(app.composer().images, vec!["/tmp/a.png".to_string()]);
    app.move_selection(1, &mut sender);
    assert_eq!(app.composer().text, "reply for B");
    app.submit(&mut sender);
    assert_eq!(last_request(&sender), expected("thread/resume", r#"{"threadId":"thread-b"}"#));
}

#[test]
fn new_draft_is_global_and_separate_from_session_replies() {
    let mut app = test_app(false);
    app.sessions_mut().push(test_session("thread-a", "Session A", SessionStatus::Completed));
    app.sessions_mut().push(test_session("thread-b", "Session B", SessionStatus::Completed));
    let mut sender = RpcOutbox::default();
    app.insert_text("global new task");

    app.toggle_compose_target();
    assert!(app.composer().text.is_empty());
    app.insert_text("reply for A");
    app.toggle_compose_target();
    assert_eq!(app.composer().target, ComposeTarget::NewTask);
    assert_eq!(app.composer().text, "global new task");

    app.move_selection(1, &mut sender);
    assert_eq!(app.composer().target, ComposeTarget::NewTask);
    assert_eq!(app.composer().text, "global new task");
    app.toggle_compose_target();
    assert_eq!(app.composer().target, ComposeTarget::Reply);
    assert!(app.composer().text.is_empty());

    app.move_selection(-1, &mut sender);
    assert_eq!(app.composer().text, "reply for A");
}

#[test]
fn mouse_wheel_scroll_changes_only_preview_offset() {
    let mut app = test_app(false);
    app.sessions_mut().push(test_session("thread-a", "Session A", SessionStatus::Completed));

    app.scroll_preview(3);
    assert_eq!(app.scroll_back(), 3);
    assert_eq!(app.selected_index(), 0);
    app.scroll_preview(-2);
    assert_eq!(app.scroll_back(), 1);
    assert_eq!(app.selected_index(), 0);
    app.scroll_preview(-10);
    assert_eq!(app.scroll_back(), 0);
    assert_eq!(app.selected_index(), 0);
}

#[test]
fn lifecycle_view_adopts_live_sessions_but_skips_old_history() {
    let mut app = test_app(false);
    app.merge_thread_list(&json(
        r#"{
            "data": [
                {
                    "id": "old-thread",
                    "preview": "Old history",
                    "cwd": "/tmp/old",
                    "status": {"type": "idle"},
                    "source": "cli",
                    "threadSource": "cli"
                },
                {
                    "id": "live-thread",
                    "preview": "Current work",
                    "cwd": "/tmp/live",
                    "status": {"type": "active", "activeFlags": []},
                    "source": "appServer",
                    "threadSource": "cli"
                }
            ]
        }"#,
    ));

    assert_eq!(app.sessions().len(), 1);
    assert_eq!(app.sessions()[0].id, "live-thread");
    assert!(app.lifecycle().contains("live-thread"));
    assert!(!app.lifecycle().contains("old-thread"));
    assert_eq!(app.history().len(), 1);
    assert_eq!(app.history()[0].id, "old-thread");
}

#[test]
fn completed_session_waits_for_review_then_leaves_only_the_deck() {
    let mut app = test_app(false);
    let mut session = Session::from_thread(&json(
        r#"{
            "id": "review-thread",
            "preview": "Review me",
            "cwd": "/tmp/review",
            "status": {"type": "active", "activeFlags": []},
            "source": "appServer",
            "threadSource": "codex-deck"
        }"#,
    ))
    .expect("session");
    app.lifecycle_mut().track("review-thread");
    session.status = SessionStatus::Completed;
    app.sessions_mut().push(session);
    let mut sender = RpcOutbox::default();

    app.stop_or_remove_selected(&mut sender);

    assert!(app.sessions().is_empty());
    assert!(!app.lifecycle().contains("review-thread"));
    assert!(app.notice().contains("Codex history was kept"));
    assert_eq!(app.history()[0].id, "review-thread");
    assert!(sender.messages.is_empty());
}

#[test]
fn pin_persists_and_moves_session_into_the_first_group() {
    let mut app = test_app(false);
    app.sessions_mut().push(test_session("working-thread", "Working", SessionStatus::Working));
    app.sessions_mut().push(test_session(
        "completed-thread",
        "Completed",
        SessionStatus::Completed,
    ));
    let mut sender = RpcOutbox::default();
    app.move_selection(1, &mut sender);

    app.toggle_pin_selected();

    assert_eq!(app.sessions()[0].id, "completed-thread");
    assert!(app.lifecycle().is_pinned("completed-thread"));
    let stored = app.unsaved_lifecycle().expect("something to store");
    let restored = LifecycleStore::load("/tmp/lifecycle.json".to_string(), Some(stored));
    assert!(restored.is_pinned("completed-thread"));
    assert_eq!(app.notice(), "Pinned Completed");
    app.lifecycle_saved();
    assert!(app.unsaved_lifecycle().is_none());
    assert_eq!(app.selected_session().expect("still selected").id, "completed-thread");
}

#[test]
fn rename_uses_the_official_thread_name_rpc_and_restores_the_composer() {
    let mut app = test_app(false);
    app.sessions_mut().push(test_session("rename-thread", "Old name", SessionStatus::Completed));
    app.composer_mut().target = ComposeTarget::Reply;
    app.composer_mut().text = "saved draft".to_string();
    app.composer_mut().cursor = "saved draft".len();
    app.composer_mut().images.push("/tmp/draft.png".to_string());
    app.start_rename();
    app.composer_mut().text = "New name".to_string();
    app.composer_mut().cursor = "New name".len();
    let mut sender = RpcOutbox::default();

    app.submit(&mut sender);

    assert_eq!(
        last_request(&sender),
        expected("thread/name/set", r#"{"threadId":"rename-thread","name":"New name"}"#)
    );
    app.handle_response(&json(r#"{"id": 1, "result": {}}"#), &mut sender).expect("response");
    assert_eq!(app.sessions()[0].title, "New name");
    assert_eq!(app.composer().target, ComposeTarget::Reply);
    assert_eq!(app.composer().text, "saved draft");
    assert_eq!(app.composer().images, vec!["/tmp/draft.png".to_string()]);
    assert_eq!(app.notice(), "Renamed session to New name");
}

#[test]
fn image_only_reply_is_sent_as_local_image_input() {
    let mut app = test_app(false);
    let mut session = test_session("image-thread", "Image", SessionStatus::Working);
    session.active_turn_id = Some("turn-1".to_string());
    app.sessions_mut().push(session);
    app.composer_mut().target = ComposeTarget::Reply;
    app.composer_mut().images.push("/tmp/pasted.png".to_string());
    let mut sender = RpcOutbox::default();

    app.submit(&mut sender);

    assert_eq!(
        last_request(&sender),
        expected(
            "turn/steer",
            r#"{
                "threadId":"image-thread",
                "expectedTurnId":"turn-1",
                "input":[{"type":"localImage","path":"/tmp/pasted.png"}]
            }"#
        )
    );
    assert!(app.composer().images.is_empty());
    assert_eq!(app.sessions()[0].messages.last().expect("local user message").text, "🖼 1 image");
}

#[test]
fn history_parser_keeps_image_only_user_messages_visible() {
    assert_eq!(
        user_input_text(Some(&json(
            r#"[
                {"type":"text","text":"Inspect this"},
                {"type":"localImage","path":"/tmp/pasted.png"}
            ]"#
        ))),
        "Inspect this\n🖼 local image"
    );
}

#[test]
fn official_image_message_replaces_its_optimistic_local_preview() {
    let mut session = test_session("image-thread", "Image", SessionStatus::Working);
    session.messages.push(MessageEntry {
        id: "local-user-1".to_string(),
        kind: MessageKind::User,
        text: "测试一下你是否真的收到了图\n\n🖼 1 image".to_string(),
    });

    remove_matching_local_user(&mut session, "测试一下你是否真的收到了图\n🖼 local image");

    assert!(session.messages.is_empty());
    assert_eq!(user_message_signature("🖼 2 images"), (String::new(), true));
}

#[test]
fn ctrl_x_interrupts_a_working_turn_without_removing_the_session() {
    let mut app = test_app(false);
    let mut session = test_session("working-thread", "Working", SessionStatus::Working);
    session.active_turn_id = Some("turn-1".to_string());
    app.sessions_mut().push(session);
    let mut sender = RpcOutbox::default();

    app.stop_or_remove_selected(&mut sender);

    assert_eq!(app.sessions().len(), 1);
    assert_eq!(
        last_request(&sender),
        expected("turn/interrupt", r#"{"threadId":"working-thread","turnId":"turn-1"}"#)
    );
}

#[test]
fn official_thread_name_notification_updates_the_title() {
    let mut app = test_app(false);
    app.sessions_mut().push(test_session("rename-thread", "Old name", SessionStatus::Completed));

    app.handle_notification(
        "thread/name/updated",
        &json(r#"{"threadId":"rename-thread","threadName":"Server name"}"#),
    );

    assert_eq!(app.sessions()[0].title, "Server name");
}

#[test]
fn the_first_request_and_the_first_list() {
    let mut app = test_app(false);
    let mut sender = RpcOutbox::default();
    app.begin(&mut sender);
    assert_eq!(
        last_request(&sender),
        expected(
            "initialize",
            r#"{"clientInfo":{"name":"codex_deck","title":"Codex Deck","version":"0.1.0"},"capabilities":{"experimentalApi":true}}"#
        )
    );
    app.handle_client_event(
        ClientEvent::Message(json(r#"{"id":1,"result":{}}"#)),
        &mut sender,
    )
    .expect("initialized");
    assert_eq!(app.notice(), "Connected");
    assert!(matches!(
        &sender.messages[1],
        Outgoing::Notification { method, .. } if method == "initialized"
    ));
    assert_eq!(
        last_request(&sender),
        expected(
            "thread/list",
            r#"{"cursor":null,"limit":100,"sortKey":"recency_at","sortDirection":"desc","archived":false,"sourceKinds":["cli","vscode","exec","appServer"]}"#
        )
    );
    assert!(!app.initial_load_complete());
    app.handle_response(
        &json(
            r#"{"id":2,"result":{"nextCursor":"page-2","data":[
                {"id":"a","preview":"First","cwd":"/tmp/a","status":{"type":"active","activeFlags":[]}}
            ]}}"#,
        ),
        &mut sender,
    )
    .expect("first page");
    assert_eq!(app.notice(), "Loading 1 sessions…");
    assert_eq!(requests(&sender).last().expect("next page").1["cursor"], "page-2");
    app.handle_response(&json(r#"{"id":3,"result":{"data":[]}}"#), &mut sender)
        .expect("last page");
    assert!(app.initial_load_complete());
    assert!(app.lifecycle().is_initialized());
    assert_eq!(app.notice(), "");
    assert_eq!(
        last_request(&sender),
        expected("thread/read", r#"{"threadId":"a","includeTurns":true}"#)
    );
    app.set_clock(999, 0);
    let sent = sender.messages.len();
    app.tick(&mut sender);
    assert_eq!(sender.messages.len(), sent);
    app.set_clock(1000, 0);
    app.tick(&mut sender);
    assert_eq!(sender.messages.len(), sent + 1);
    app.set_clock(5000, 0);
    app.tick(&mut sender);
    assert_eq!(sender.messages.len(), sent + 1);
}

#[test]
fn an_empty_first_list_invites_a_task() {
    let mut app = test_app(false);
    let mut sender = RpcOutbox::default();
    app.begin(&mut sender);
    app.handle_response(&json(r#"{"id":1,"result":{}}"#), &mut sender).expect("initialized");
    app.handle_response(&json(r#"{"id":2,"result":{"data":[]}}"#), &mut sender).expect("list");
    assert_eq!(app.notice(), "Type a task and press Enter");
}

#[test]
fn a_new_task_starts_a_thread_and_then_a_turn() {
    let mut app = test_app(false);
    let mut sender = RpcOutbox::default();
    app.handle_key(control('n'), &mut sender);
    assert!(app.composer_open());
    type_text(&mut app, &mut sender, "fix it");
    app.handle_key(key(KeyCode::Enter), &mut sender);
    assert!(!app.composer_open());
    assert!(app.composer().text.is_empty());
    assert_eq!(
        last_request(&sender),
        expected(
            "thread/start",
            r#"{"cwd":"/tmp","serviceName":"codex-deck","threadSource":"codex-deck","ephemeral":false}"#
        )
    );
    app.handle_response(
        &json(r#"{"id":1,"result":{"thread":{"id":"new","preview":"fix it","cwd":"/tmp"}}}"#),
        &mut sender,
    )
    .expect("started");
    assert_eq!(
        last_request(&sender),
        expected(
            "turn/start",
            r#"{"threadId":"new","input":[{"type":"text","text":"fix it","text_elements":[]}],"summary":"auto"}"#
        )
    );
    assert_eq!(app.sessions()[0].id, "new");
    assert_eq!(app.sessions()[0].status, SessionStatus::Working);
    assert_eq!(app.sessions()[0].messages[0].id, "local-user-2");
    assert_eq!(app.sessions()[0].messages[0].text, "fix it");
    app.handle_response(&json(r#"{"id":2,"result":{"turn":{"id":"turn-9"}}}"#), &mut sender)
        .expect("turn");
    assert_eq!(app.sessions()[0].active_turn_id.as_deref(), Some("turn-9"));
    assert_eq!(app.notice(), "Working in background");
}

#[test]
fn a_new_task_without_a_thread_is_an_error() {
    let mut app = test_app(false);
    let mut sender = RpcOutbox::default();
    app.insert_text("one");
    app.submit(&mut sender);
    assert_eq!(
        app.handle_response(&json(r#"{"id":1,"result":{}}"#), &mut sender),
        Err(AppError::MissingThread)
    );
    app.insert_text("two");
    app.submit(&mut sender);
    assert_eq!(
        app.handle_response(&json(r#"{"id":2,"result":{"thread":{}}}"#), &mut sender),
        Err(AppError::InvalidThread)
    );
    assert_eq!(app.handle_response(&json(r#"{"id":2,"result":{}}"#), &mut sender), Ok(()));
}

#[test]
fn refused_requests_leave_a_notice() {
    let mut app = test_app(false);
    let mut sender = RpcOutbox::default();
    app.insert_text("one");
    app.submit(&mut sender);
    app.handle_response(&json(r#"{"id":1,"error":{"message":"no quota"}}"#), &mut sender)
        .expect("refusal");
    assert_eq!(app.notice(), "no quota");
    app.insert_text("two");
    app.submit(&mut sender);
    app.handle_response(&json(r#"{"id":2,"error":{}}"#), &mut sender).expect("refusal");
    assert_eq!(app.notice(), "Codex request failed");
}

#[test]
fn a_turn_is_followed_from_start_to_end() {
    let mut app = test_app(false);
    app.sessions_mut().push(test_session("t", "Turn", SessionStatus::Completed));
    app.set_clock(0, 77);
    app.handle_notification("turn/started", &json(r#"{"threadId":"t","turn":{"id":"turn-1"}}"#));
    assert_eq!(app.sessions()[0].status, SessionStatus::Working);
    assert_eq!(app.sessions()[0].updated_at, 77);
    assert!(app.lifecycle().contains("t"));
    app.handle_notification(
        "item/started",
        &json(r#"{"threadId":"t","item":{"type":"agentMessage","id":"m","text":"","phase":"final_answer"}}"#),
    );
    assert!(app.sessions()[0].messages.is_empty());
    app.handle_notification(
        "item/agentMessage/delta",
        &json(r#"{"threadId":"t","itemId":"m","delta":"Hel"}"#),
    );
    app.handle_notification(
        "item/agentMessage/delta",
        &json(r#"{"threadId":"t","itemId":"m","delta":"lo"}"#),
    );
    assert_eq!(app.sessions()[0].messages[0].text, "Hello");
    assert_eq!(app.sessions()[0].messages[0].kind, MessageKind::Final);
    app.handle_notification(
        "item/reasoning/summaryTextDelta",
        &json(r#"{"threadId":"t","itemId":"r","delta":"Think"}"#),
    );
    app.handle_notification(
        "item/reasoning/summaryPartAdded",
        &json(r#"{"threadId":"t","itemId":"r"}"#),
    );
    assert_eq!(app.sessions()[0].messages[1].text, "Think\n");
    assert_eq!(app.sessions()[0].messages[1].kind, MessageKind::Thinking);
    app.handle_notification(
        "turn/completed",
        &json(r#"{"threadId":"t","turn":{"id":"turn-1","status":"failed","error":{"message":"boom"}}}"#),
    );
    assert_eq!(app.sessions()[0].status, SessionStatus::Failed);
    assert_eq!(app.sessions()[0].active_turn_id, None);
    assert_eq!(app.notice(), "Session failed");
    assert_eq!(app.sessions()[0].messages.last().expect("error").kind, MessageKind::System);
}

#[test]
fn approval_requests_are_answered_with_a_decision() {
    let mut app = test_app(false);
    app.sessions_mut().push(test_session("t", "Turn", SessionStatus::Working));
    let mut sender = RpcOutbox::default();
    app.handle_protocol_message(
        &json(
            r#"{"id":"req-1","method":"item/commandExecution/requestApproval","params":{"threadId":"t","command":"rm x"}}"#,
        ),
        &mut sender,
    )
    .expect("request");
    assert_eq!(app.sessions()[0].status, SessionStatus::NeedsInput);
    assert!(app.selected_has_pending_request());
    assert_eq!(app.sessions()[0].messages[0].kind, MessageKind::Question);
    app.handle_key(key(KeyCode::Char(' ')), &mut sender);
    type_text(&mut app, &mut sender, "y");
    app.handle_key(key(KeyCode::Enter), &mut sender);
    assert!(!app.selected_has_pending_request());
    match sender.messages.last().expect("an answer") {
        Outgoing::Response { id, result } => {
            assert_eq!(value(id), "req-1");
            assert_eq!(value(result)["decision"], "accept");
        }
        other => panic!("{other:?}"),
    }
    assert_eq!(app.notice(), "Response sent; session resumed");
}

#[test]
fn several_questions_are_answered_in_parts() {
    let mut app = test_app(false);
    app.sessions_mut().push(test_session("t", "Turn", SessionStatus::Working));
    let mut sender = RpcOutbox::default();
    app.handle_server_request(
        &json(
            r#"{"id":7,"method":"item/tool/requestUserInput","params":{"threadId":"t","questions":[
                {"id":"a","header":"A","question":"Which?","options":[{"label":"One","description":""},{"label":"Two","description":""}]},
                {"id":"b","header":"B","question":"Why?"}
            ]}}"#,
        ),
        &mut sender,
    );
    app.toggle_compose_target();
    app.insert_text("2 | because");
    app.submit(&mut sender);
    match sender.messages.last().expect("an answer") {
        Outgoing::Response { id, result } => {
            assert_eq!(value(id), 7);
            assert_eq!(value(result)["answers"]["a"]["answers"][0], "Two");
            assert_eq!(value(result)["answers"]["b"]["answers"][0], "because");
        }
        other => panic!("{other:?}"),
    }
}

#[test]
fn requests_that_cannot_be_served_are_refused() {
    let mut app = test_app(false);
    app.sessions_mut().push(test_session("t", "Turn", SessionStatus::Working));
    let mut sender = RpcOutbox::default();
    app.handle_server_request(&json(r#"{"id":1,"method":"odd","params":{}}"#), &mut sender);
    assert_eq!(
        sender.messages.last().map(|message| value(&message.frame())),
        Some(
            serde_json::from_str(
                r#"{"id":1,"error":{"code":-32601,"message":"codex-deck cannot route this request"}}"#
            )
            .expect("frame")
        )
    );
    app.handle_server_request(
        &json(r#"{"id":2,"method":"odd","params":{"threadId":"t"}}"#),
        &mut sender,
    );
    app.toggle_compose_target();
    app.insert_text("anything");
    app.submit(&mut sender);
    match sender.messages.last().expect("a refusal") {
        Outgoing::Error { id, code, message } => {
            assert_eq!(value(id), 2);
            assert_eq!(*code, -32601);
            assert_eq!(message, "codex-deck does not support odd");
        }
        other => panic!("{other:?}"),
    }
    assert_eq!(app.notice(), "Rejected unsupported request: odd");
}

#[test]
fn an_image_alone_does_not_answer_a_question() {
    let mut app = test_app(false);
    app.sessions_mut().push(test_session("t", "Turn", SessionStatus::Working));
    let mut sender = RpcOutbox::default();
    app.handle_server_request(
        &json(r#"{"id":2,"method":"execCommandApproval","params":{"threadId":"t"}}"#),
        &mut sender,
    );
    app.toggle_compose_target();
    app.add_images(&vec!["/tmp/x.png".to_string()]);
    app.submit(&mut sender);
    assert_eq!(app.notice(), "This request needs a text answer; attached images were kept");
    assert_eq!(app.composer().images, vec!["/tmp/x.png".to_string()]);
    assert!(sender.messages.is_empty());
}

#[test]
fn a_reply_to_a_waiting_thread_waits_for_its_question() {
    let mut app = test_app(false);
    app.sessions_mut().push(test_session("t", "Turn", SessionStatus::Completed));
    let mut sender = RpcOutbox::default();
    app.toggle_compose_target();
    app.insert_text("yes");
    app.submit(&mut sender);
    app.handle_response(
        &json(
            r#"{"id":1,"result":{"thread":{"id":"t","status":{"type":"active","activeFlags":["waitingOnUserInput"]}}}}"#,
        ),
        &mut sender,
    )
    .expect("resumed");
    assert_eq!(app.notice(), "Waiting for Codex question details…");
    app.handle_server_request(
        &json(r#"{"id":5,"method":"applyPatchApproval","params":{"threadId":"t"}}"#),
        &mut sender,
    );
    match sender.messages.last().expect("an answer") {
        Outgoing::Response { id, result } => {
            assert_eq!(value(id), 5);
            assert_eq!(value(result)["decision"], "accept");
        }
        other => panic!("{other:?}"),
    }
}

#[test]
fn the_composer_opens_and_closes_with_space_and_escape() {
    let mut app = test_app(false);
    app.sessions_mut().push(test_session("t", "Turn", SessionStatus::Completed));
    let mut sender = RpcOutbox::default();
    type_text(&mut app, &mut sender, "lost");
    assert!(!app.composer_open());
    assert!(app.composer().text.is_empty());
    app.handle_key(key(KeyCode::Char(' ')), &mut sender);
    assert!(app.composer_open());
    assert_eq!(app.composer().target, ComposeTarget::Reply);
    app.handle_key(key(KeyCode::Char(' ')), &mut sender);
    assert!(!app.composer_open());
    app.handle_key(key(KeyCode::Char(' ')), &mut sender);
    type_text(&mut app, &mut sender, "kept");
    app.handle_key(key(KeyCode::Esc), &mut sender);
    assert!(!app.composer_open());
    app.handle_key(key(KeyCode::Char(' ')), &mut sender);
    assert_eq!(app.composer().text, "kept");
}

#[test]
fn escape_twice_closes_the_dashboard() {
    let mut app = test_app(false);
    let mut sender = RpcOutbox::default();
    app.handle_key(key(KeyCode::Esc), &mut sender);
    assert_eq!(app.notice(), "Press Esc again to close Codeck");
    app.handle_key(key(KeyCode::Up), &mut sender);
    app.handle_key(key(KeyCode::Esc), &mut sender);
    assert!(!app.should_quit());
    app.handle_key(repeated(key(KeyCode::Esc)), &mut sender);
    assert!(!app.should_quit());
    app.handle_key(key(KeyCode::Esc), &mut sender);
    assert!(app.should_quit());
    let mut other = test_app(false);
    other.handle_key(control('c'), &mut sender);
    assert!(other.should_quit());
}

#[test]
fn ctrl_x_twice_removes_a_session_that_is_done() {
    let mut app = test_app(false);
    app.sessions_mut().push(test_session("t", "Turn", SessionStatus::Completed));
    let mut sender = RpcOutbox::default();
    app.handle_key(control('x'), &mut sender);
    assert_eq!(app.ctrl_x_confirmation("t"), Some("Ctrl+X again: remove"));
    app.handle_key(repeated(control('x')), &mut sender);
    assert_eq!(app.sessions().len(), 1);
    app.handle_key(key(KeyCode::Down), &mut sender);
    assert_eq!(app.ctrl_x_confirmation("t"), None);
    app.handle_key(control('x'), &mut sender);
    app.handle_key(control('x'), &mut sender);
    assert!(app.sessions().is_empty());
    assert_eq!(app.history().len(), 1);
}

#[test]
fn removal_is_not_offered_for_all_sessions() {
    let mut app = test_app(true);
    app.sessions_mut().push(test_session("t", "Turn", SessionStatus::Completed));
    let mut sender = RpcOutbox::default();
    app.stop_or_remove_selected(&mut sender);
    assert_eq!(app.sessions().len(), 1);
    assert_eq!(app.notice(), "Remove is available in the lifecycle view, without --all");
}

#[test]
fn the_menu_brings_a_session_back() {
    let mut app = test_app(false);
    app.lifecycle_mut().track("other");
    app.merge_thread_list(&json(
        r#"{"data":[
            {"id":"old","name":"Old work","preview":"Old work","cwd":"/tmp/old","status":{"type":"idle"}},
            {"id":"older","name":"Something","preview":"Something","cwd":"/tmp/older","status":{"type":"idle"}}
        ]}"#,
    ));
    assert!(app.sessions().is_empty());
    let mut sender = RpcOutbox::default();
    app.handle_key(key(KeyCode::Left), &mut sender);
    assert!(!app.settings_open());
    app.handle_key(key(KeyCode::Left), &mut sender);
    assert!(app.settings_open());
    assert_eq!(app.menu_tab(), MenuTab::Resume);
    assert_eq!(app.history_picker_view().expect("picker").items.len(), 2);
    type_text(&mut app, &mut sender, "SOME");
    let picker = app.history_picker_view().expect("picker");
    assert_eq!(picker.query, "SOME");
    assert_eq!(picker.items.len(), 1);
    app.handle_key(key(KeyCode::Enter), &mut sender);
    assert!(!app.settings_open());
    assert_eq!(app.sessions()[0].id, "older");
    assert_eq!(app.history().len(), 1);
    assert!(app.composer_open());
    assert_eq!(app.composer().target, ComposeTarget::Reply);
    assert_eq!(app.notice(), "Added Something");
    assert_eq!(
        last_request(&sender),
        expected("thread/read", r#"{"threadId":"older","includeTurns":true}"#)
    );
    assert_eq!(offered_sessions(app.history(), "nothing").len(), 0);
}

#[test]
fn the_menu_keeps_a_preview_level() {
    let mut app = test_app(false);
    let mut sender = RpcOutbox::default();
    app.open_menu();
    app.handle_key(key(KeyCode::Tab), &mut sender);
    assert_eq!(app.menu_tab(), MenuTab::Settings);
    app.handle_key(key(KeyCode::Down), &mut sender);
    app.handle_key(key(KeyCode::Down), &mut sender);
    app.handle_key(key(KeyCode::Up), &mut sender);
    assert_eq!(app.settings_selection(), PreviewVerbosity::Progress);
    assert_eq!(app.preview_verbosity(), PreviewVerbosity::Full);
    app.handle_key(key(KeyCode::Enter), &mut sender);
    assert_eq!(app.preview_verbosity(), PreviewVerbosity::Progress);
    assert!(!app.settings_open());
    app.open_menu();
    app.handle_key(key(KeyCode::Esc), &mut sender);
    assert!(!app.settings_open());
}

#[test]
fn help_opens_and_closes() {
    let mut app = test_app(false);
    let mut sender = RpcOutbox::default();
    app.handle_key(key(KeyCode::Char('?')), &mut sender);
    assert!(app.help_open());
    app.handle_key(key(KeyCode::Char('x')), &mut sender);
    assert!(app.help_open());
    app.handle_key(key(KeyCode::Esc), &mut sender);
    assert!(!app.help_open());
    assert!(!app.should_quit());
}

#[test]
fn long_pastes_collapse_and_short_ones_do_not() {
    let mut app = test_app(false);
    app.insert_paste("short", &Vec::new());
    assert_eq!(app.composer().text, "short");
    assert!(app.composer_open());
    let long = "x".repeat(1001);
    app.insert_paste(&long, &Vec::new());
    assert!(app.composer().text.starts_with("short[Pasted text #1"));
    assert_eq!(app.composer().prompt_text(), format!("short{long}"));
}

#[test]
fn pasted_image_files_are_attached() {
    let mut app = test_app(false);
    app.insert_paste("'/tmp/a b.png'\n/tmp/c.jpg", &vec![
        "/tmp/a b.png".to_string(),
        "/tmp/c.jpg".to_string(),
    ]);
    assert_eq!(app.composer().images, vec!["/tmp/a b.png".to_string(), "/tmp/c.jpg".to_string()]);
    assert_eq!(app.notice(), "Attached 2 images · Backspace on empty input removes the last one");
    app.insert_paste("/tmp/c.jpg", &vec!["/tmp/c.jpg".to_string()]);
    assert_eq!(app.notice(), "Image is already attached");
    app.insert_paste("", &Vec::new());
    assert!(app.take_clipboard_request());
    assert!(!app.take_clipboard_request());
    app.handle_clipboard_image(Ok(Some("/tmp/d.png".to_string())));
    assert_eq!(app.composer().images.len(), 3);
    app.handle_clipboard_image(Ok(None));
    assert_eq!(app.notice(), "Clipboard does not contain an image");
    app.handle_clipboard_image(Err("busy".to_string()));
    assert_eq!(app.notice(), "Could not paste clipboard image: busy");
}

#[test]
fn transcripts_on_disk_are_looked_at_first() {
    let mut app = test_app(false);
    let mut session = test_session("t", "Turn", SessionStatus::Completed);
    session.path = Some("/tmp/rollout.jsonl".to_string());
    session.history_loaded = false;
    app.sessions_mut().push(session);
    let mut sender = RpcOutbox::default();
    app.move_selection(0, &mut sender);
    let request = app.take_history_request().expect("transcript");
    assert_eq!(request.path, "/tmp/rollout.jsonl");
    assert!(sender.messages.is_empty());
    app.handle_transcript(
        request,
        TranscriptOutcome::Preview(BoundedPreview {
            file_bytes: 70 * 1024 * 1024 + 512 * 1024,
            messages: vec![MessageEntry {
                id: "m".to_string(),
                kind: MessageKind::Final,
                text: "end".to_string(),
            }],
        }),
        &mut sender,
    );
    assert_eq!(
        app.sessions()[0].messages[0].text,
        "Large session (70.5 MiB) · showing the latest 64 MiB · attach for full history"
    );
    assert_eq!(app.sessions()[0].messages[1].text, "end");
    assert_eq!(app.notice(), "Large session: bounded preview");
    app.refresh_after_attach("t", &mut sender);
    let request = app.take_history_request().expect("transcript");
    assert!(request.after_attach);
    app.handle_transcript(request, TranscriptOutcome::Unavailable, &mut sender);
    assert_eq!(app.notice(), "Transcript preview unavailable");
    app.refresh_after_attach("t", &mut sender);
    let request = app.take_history_request().expect("transcript");
    app.handle_transcript(request, TranscriptOutcome::Small, &mut sender);
    assert_eq!(
        last_request(&sender),
        expected("thread/read", r#"{"threadId":"t","includeTurns":true}"#)
    );
}

#[test]
fn the_return_from_the_native_interface_leaves_a_notice() {
    let mut app = test_app(false);
    app.sessions_mut().push(test_session("t", "Turn", SessionStatus::Completed));
    let mut sender = RpcOutbox::default();
    app.refresh_after_attach("t", &mut sender);
    assert_eq!(app.notice(), "Returned from attached session");
    assert_eq!(
        last_request(&sender),
        expected("thread/read", r#"{"threadId":"t","includeTurns":true}"#)
    );
}

#[test]
fn deleted_threads_leave_the_dashboard() {
    let mut app = test_app(false);
    app.sessions_mut().push(test_session("a", "A", SessionStatus::Completed));
    app.sessions_mut().push(test_session("b", "B", SessionStatus::Completed));
    app.toggle_compose_target();
    app.insert_text("draft for a");
    app.handle_notification("thread/deleted", &json(r#"{"threadId":"a"}"#));
    assert_eq!(app.sessions().len(), 1);
    assert_eq!(app.selected_session().expect("b").id, "b");
    assert!(app.composer().text.is_empty());
    app.handle_notification("warning", &json(r#"{"message":"careful"}"#));
    assert_eq!(app.notice(), "careful");
    app.handle_notification("deprecationNotice", &json("{}"));
    assert_eq!(app.notice(), "deprecationNotice");
}

#[test]
fn removed_sessions_come_back_when_they_become_active() {
    let mut app = test_app(false);
    app.sessions_mut().push(test_session("a", "A", SessionStatus::Completed));
    app.handle_notification(
        "thread/status/changed",
        &json(r#"{"threadId":"a","status":{"type":"active","activeFlags":[]}}"#),
    );
    assert!(app.lifecycle().contains("a"));
    assert_eq!(app.sessions()[0].status, SessionStatus::Working);
}

#[test]
fn sorting_keeps_the_selected_session() {
    let mut app = test_app(false);
    app.sessions_mut().push(test_session("a", "A", SessionStatus::Completed));
    app.sessions_mut().push(test_session("b", "B", SessionStatus::Completed));
    app.handle_notification("turn/started", &json(r#"{"threadId":"b","turn":{"id":"x"}}"#));
    assert_eq!(app.sessions()[0].id, "b");
    assert_eq!(app.selected_session().expect("a").id, "a");
}

#[test]
fn shift_enter_breaks_the_line_and_tab_turns_the_composer() {
    let mut app = test_app(false);
    app.sessions_mut().push(test_session("a", "A", SessionStatus::Completed));
    let mut sender = RpcOutbox::default();
    app.handle_key(key(KeyCode::Char(' ')), &mut sender);
    type_text(&mut app, &mut sender, "one");
    let mut enter = key(KeyCode::Enter);
    enter.modifiers = KeyModifiers { control: false, alt: false, shift: true, command: false };
    app.handle_key(enter, &mut sender);
    type_text(&mut app, &mut sender, "two");
    assert_eq!(app.composer().text, "one\ntwo");
    app.set_composer_layout(20, 10);
    app.handle_key(key(KeyCode::Up), &mut sender);
    assert_eq!(app.selected_index(), 0);
    app.handle_key(key(KeyCode::Tab), &mut sender);
    assert_eq!(app.composer().target, ComposeTarget::NewTask);
    assert!(app.composer().text.is_empty());
    app.handle_key(key(KeyCode::Tab), &mut sender);
    assert_eq!(app.composer().text, "one\ntwo");
    app.handle_key(control('u'), &mut sender);
    assert!(app.composer().text.is_empty());
}

#[test]
fn backspace_on_an_empty_composer_removes_the_last_image() {
    let mut app = test_app(false);
    let mut sender = RpcOutbox::default();
    app.handle_key(control('n'), &mut sender);
    app.composer_mut().images.push("/tmp/a.png".to_string());
    app.handle_key(key(KeyCode::Backspace), &mut sender);
    assert!(app.composer().images.is_empty());
    assert_eq!(app.notice(), "Removed last image");
}

#[test]
fn the_connection_reports_through_notices() {
    let mut app = test_app(false);
    let mut sender = RpcOutbox::default();
    app.handle_client_event(ClientEvent::Warning("odd".to_string()), &mut sender).expect("ok");
    assert_eq!(app.notice(), "odd");
    app.handle_client_event(ClientEvent::Disconnected("gone".to_string()), &mut sender)
        .expect("ok");
    assert_eq!(app.notice(), "Disconnected: gone");
    app.set_notice("mine".to_string());
    assert_eq!(app.notice(), "mine");
    assert_eq!(AppError::MissingThread.message(), "thread/start response missing thread");
}

#[test]
fn a_dollar_sign_opens_the_skill_picker() {
    let mut app = test_app(false);
    let mut sender = RpcOutbox::default();
    app.handle_key(control('n'), &mut sender);
    type_text(&mut app, &mut sender, "use $");
    assert_eq!(last_request(&sender), expected("skills/list", r#"{"cwds":["/tmp"]}"#));
    let picker = app.skill_picker_view().expect("picker");
    assert!(picker.loading);
    assert!(picker.items.is_empty());
    app.handle_response(
        &json(
            r#"{"id":1,"result":{"data":[{"cwd":"/tmp","skills":[
                {"name":"documents","description":"Writes","path":"/s/documents","scope":"user"},
                {"name":"Slides","description":"Draws","path":"/s/slides"},
                {"name":"broken"}
            ]}]}}"#,
        ),
        &mut sender,
    )
    .expect("skills");
    assert_eq!(app.skill_picker_view().expect("picker").items.len(), 2);
    app.handle_key(key(KeyCode::Down), &mut sender);
    assert_eq!(app.skill_picker_view().expect("picker").selected, 1);
    type_text(&mut app, &mut sender, "sl");
    let picker = app.skill_picker_view().expect("picker");
    assert_eq!(picker.items.len(), 1);
    assert_eq!(picker.items[0].name, "Slides");
    app.handle_key(key(KeyCode::Enter), &mut sender);
    assert_eq!(app.composer().text, "use $Slides ");
    assert_eq!(app.composer().skills[0].path, "/s/slides");
    assert!(app.skill_picker_view().is_none());
    assert_eq!(requests(&sender).len(), 1);
    app.handle_key(key(KeyCode::Enter), &mut sender);
    app.handle_response(
        &json(r#"{"id":2,"result":{"thread":{"id":"new","cwd":"/tmp"}}}"#),
        &mut sender,
    )
    .expect("started");
    assert_eq!(
        last_request(&sender).1["input"],
        serde_json::from_str::<serde_json::Value>(
            r#"[
                {"type":"text","text":"use $Slides","text_elements":[]},
                {"type":"skill","name":"Slides","path":"/s/slides"}
            ]"#
        )
        .expect("input")
    );
}

#[test]
fn changed_skills_are_asked_for_again() {
    let mut app = test_app(false);
    let mut sender = RpcOutbox::default();
    app.handle_key(control('n'), &mut sender);
    type_text(&mut app, &mut sender, "$");
    app.handle_response(&json(r#"{"id":1,"error":{"message":"no"}}"#), &mut sender).expect("no");
    type_text(&mut app, &mut sender, "a");
    assert_eq!(requests(&sender).len(), 1);
    app.handle_notification("skills/changed", &json("{}"));
    type_text(&mut app, &mut sender, "b");
    assert_eq!(requests(&sender).len(), 2);
    type_text(&mut app, &mut sender, " c");
    assert!(app.skill_picker_view().is_none());
}

#[test]
fn a_prompt_without_a_session_is_given_back() {
    let mut app = test_app(false);
    let mut sender = RpcOutbox::default();
    app.composer_mut().target = ComposeTarget::Reply;
    app.insert_text("  hello 你 \n");
    app.composer_mut().images.push("/tmp/a.png".to_string());

    app.submit(&mut sender);

    assert!(sender.drain().is_empty());
    assert_eq!(app.composer().target, ComposeTarget::NewTask);
    assert_eq!(app.composer().text, "hello 你");
    assert_eq!(app.composer().cursor, "hello 你".len());
    assert_eq!(app.composer().images, vec!["/tmp/a.png".to_string()]);
    assert_eq!(app.notice(), "No session selected; switched to new task");
    app.submit(&mut sender);
    assert_eq!(sender.drain().len(), 1);
}
