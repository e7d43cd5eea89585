use codeck::clipboard::{
    check_rgba_size, clipboard_file_name, image_paths_from_paste, is_image_path,
    normalize_pasted_path, pasted_paths, ClipboardImageError,
};
use codeck::connection::{
    attach_arguments, can_reuse_server, check_step, check_summary, connect_step, endpoint_of, message_event,
    parse_pid, process_is_alive, signalled_process, socket_action, start_failure_text, start_step,
    state_dir, write_failure, CheckStep, ConnectStep, SocketAction, SocketEvent, StartStep,
};
use codeck::json::{parse_json, print_json, read_json, Json};
use codeck::lifecycle::{temporary_name, LifecycleData, LifecycleStore};
use codeck::model::{source_label, MessageKind, PreviewVerbosity, Session, SessionStatus};
use codeck::paths::{path_extension, path_file_name};
use codeck::protocol::{
    approval_decision, is_image_marker, message_from_item, notification_message,
    pending_request_display, rpc_id_label, turn_error_message, PendingRequestKind,
};
use codeck::responses::ClientEvent;
use codeck::rpc::{Outgoing, RpcOutbox};
use codeck::state::AttachRequest;
use codeck::transcript::{
    bounded_preview, is_noisy_record, normalize_text, parse_tail, preview_window,
    FULL_HISTORY_LIMIT_BYTES, TAIL_PREVIEW_BYTES,
};

fn json(text: &str) -> Json {
    parse_json(text.as_bytes()).expect("JSON")
}

fn line(envelope_type: &str, payload: &str) -> String {
    format!("{{\"type\":\"{envelope_type}\",\"payload\":{payload}}}")
}

#[test]
fn protocol_status_prefers_waiting_flags() {
    assert_eq!(
        SessionStatus::from_protocol(&json(
            r#"{"type": "active", "activeFlags": ["waitingOnUserInput"]}"#
        )),
        SessionStatus::NeedsInput
    );
    assert_eq!(
        SessionStatus::from_protocol(&json(r#"{"type": "active", "activeFlags": []}"#)),
        SessionStatus::Working
    );
    assert_eq!(
        SessionStatus::from_protocol(&json(r#"{"type": "idle"}"#)),
        SessionStatus::Completed
    );
}

#[test]
fn pasted_image_paths_are_detected_without_consuming_normal_text() {
    let path = "/tmp/codex-deck-pasted-image-1.png".to_string();
    let files = vec![path.clone()];

    assert_eq!(image_paths_from_paste(&format!("'{path}'"), &files), vec![path.clone()]);
    assert!(image_paths_from_paste("please inspect image.png", &files).is_empty());
    assert!(image_paths_from_paste(&path, &Vec::new()).is_empty());
    assert!(image_paths_from_paste("/tmp/a.txt", &vec!["/tmp/a.txt".to_string()]).is_empty());
}

#[test]
fn pasted_paths_lose_quotes_and_escapes() {
    assert_eq!(normalize_pasted_path("\"/tmp/a b.png\""), "/tmp/a b.png");
    assert_eq!(normalize_pasted_path("/tmp/a\\ b.png"), "/tmp/a b.png");
    assert_eq!(normalize_pasted_path("'"), "'");
    assert_eq!(pasted_paths(" a \n\n'b'\n"), vec!["a".to_string(), "b".to_string()]);
    assert!(is_image_path("/x/Y.JPeG"));
    assert!(!is_image_path("/x/png"));
    assert_eq!(path_file_name("/a/b/").as_deref(), Some("b"));
    assert_eq!(path_file_name("/").as_deref(), None);
    assert_eq!(path_extension("/a/.png").as_deref(), None);
    assert_eq!(path_extension("/a/b.tar.gz").as_deref(), Some("gz"));
}

#[test]
fn clipboard_images_have_four_bytes_for_each_pixel() {
    assert_eq!(check_rgba_size(2, 3, 24), Ok(()));
    assert_eq!(check_rgba_size(2, 3, 23), Err(ClipboardImageError::InvalidDimensions));
    assert_eq!(check_rgba_size(0, 3, 0), Err(ClipboardImageError::InvalidDimensions));
    assert_eq!(check_rgba_size(usize::MAX, 2, 8), Err(ClipboardImageError::DimensionsOverflow));
    assert_eq!(
        ClipboardImageError::DimensionsOverflow.message(),
        "clipboard image dimensions overflow"
    );
    assert_eq!(
        ClipboardImageError::InvalidDimensions.message(),
        "clipboard image has invalid RGBA dimensions"
    );
    assert_eq!(clipboard_file_name(7, 12), "codex-deck-clipboard-7-12.png");
}

#[test]
fn lifecycle_state_persists_tracking_and_dismissal() {
    let path = "/tmp/codeck-lifecycle.json".to_string();

    let mut store = LifecycleStore::load(path.clone(), None);
    assert!(!store.is_initialized());
    store.track("active-thread");
    assert!(store.toggle_pin("active-thread"));
    store.finish_initial_scan(&vec!["active-thread".to_string()]);
    let stored = store.to_store().expect("save state");

    let mut restored = LifecycleStore::load(path.clone(), Some(stored));
    assert!(restored.is_initialized());
    assert!(restored.contains("active-thread"));
    assert!(restored.is_pinned("active-thread"));
    restored.dismiss("active-thread");
    let stored = restored.to_store().expect("save dismissal");

    let mut restored = LifecycleStore::load(path, Some(stored));
    assert!(!restored.contains("active-thread"));
    assert!(!restored.is_pinned("active-thread"));
    assert!(restored.to_store().is_none());
}

#[test]
fn a_stored_registry_has_the_current_version() {
    let older = LifecycleData {
        version: 1,
        initialized: true,
        tracked_sessions: vec!["a".to_string(), "b".to_string(), "b".to_string()],
        pinned_sessions: vec!["b".to_string()],
        preview_verbosity: PreviewVerbosity::Progress,
    };
    let mut store = LifecycleStore::load("/tmp/x.json".to_string(), Some(older));
    assert!(store.to_store().is_none());
    assert_eq!(store.data.version, 1);
    store.dismiss("a");
    let stored = store.to_store().expect("changed");
    assert_eq!(stored.version, 3);
    assert_eq!(stored.tracked_sessions, vec!["b".to_string()]);
    assert_eq!(store.data.version, 3);
    store.saved();
    assert!(store.to_store().is_none());

    let again = LifecycleStore::load("/tmp/x.json".to_string(), Some(stored));
    assert!(again.is_initialized());
    assert!(!again.contains("a"));
    assert!(again.is_pinned("b"));
    assert_eq!(again.preview_verbosity(), PreviewVerbosity::Progress);
}

#[test]
fn the_registry_is_stored_only_when_it_changed() {
    let mut store = LifecycleStore::load("/tmp/x.json".to_string(), None);
    assert!(store.to_store().is_none());
    store.dismiss("unknown");
    assert!(store.to_store().is_none());
    store.set_preview_verbosity(PreviewVerbosity::Full);
    assert!(store.to_store().is_none());
    store.set_preview_verbosity(PreviewVerbosity::Final);
    assert_eq!(store.to_store().expect("changed").version, 3);
    store.saved();
    store.track("a");
    store.track("a");
    assert_eq!(store.to_store().expect("changed").tracked_sessions, vec!["a".to_string()]);
    store.finish_initial_scan(&Vec::new());
    assert!(!store.contains("a"));
    assert_eq!(temporary_name("/tmp/x.json", 9), ".x.json.tmp-9");
}

#[test]
fn bounded_tail_keeps_all_user_visible_turns_in_the_window() {
    let data = [
        "partial-record".to_string(),
        line("event_msg", r#"{"type":"user_message","message":"上一轮任务"}"#),
        line("event_msg", r#"{"type":"task_complete","last_agent_message":"上一轮完成"}"#),
        line("event_msg", r#"{"type":"task_started"}"#),
        line(
            "response_item",
            r#"{"type":"message","role":"user","content":[{"type":"input_text","text":"最新任务"}]}"#,
        ),
        line("response_item", r#"{"type":"custom_tool_call_output","output":"noise"}"#),
        line(
            "response_item",
            r#"{"type":"reasoning","summary":[{"type":"summary_text","text":"正在检查"}]}"#,
        ),
        line(
            "event_msg",
            r#"{"type":"agent_message","phase":"commentary","message":"完成一半"}"#,
        ),
        line("event_msg", r#"{"type":"task_complete","last_agent_message":"已经完成"}"#),
    ]
    .join("\n");

    let messages = parse_tail(data.as_bytes(), true);
    assert_eq!(messages.len(), 6);
    assert_eq!(messages[0].text, "上一轮任务");
    assert_eq!(messages[1].text, "上一轮完成");
    assert_eq!(messages[2].kind, MessageKind::User);
    assert_eq!(messages[3].kind, MessageKind::Thinking);
    assert_eq!(messages[4].kind, MessageKind::Progress);
    assert_eq!(messages[5].kind, MessageKind::Final);
    assert_eq!(messages[5].text, "已经完成");
}

#[test]
fn small_rollouts_keep_using_the_official_history_api() {
    assert!(preview_window(3).is_none());
    assert!(preview_window(FULL_HISTORY_LIMIT_BYTES).is_none());
}

#[test]
fn bounded_tail_keeps_more_than_the_previous_message_and_text_caps() {
    assert_eq!(TAIL_PREVIEW_BYTES, 64 * 1024 * 1024);
    let long_text = "x".repeat(13_000);
    let mut records = (0..30)
        .map(|index| {
            line(
                "event_msg",
                &format!("{{\"type\":\"user_message\",\"message\":\"message-{index}\"}}"),
            )
        })
        .collect::<Vec<_>>();
    records.push(line(
        "event_msg",
        &format!("{{\"type\":\"agent_message\",\"message\":\"{long_text}\"}}"),
    ));

    let messages = parse_tail(records.join("\n").as_bytes(), false);

    assert_eq!(messages.len(), 31);
    assert_eq!(messages.last().expect("long message").text.len(), 13_000);
}

#[test]
fn oversized_rollout_reads_only_its_bounded_tail() {
    let record = line(
        "event_msg",
        r#"{"type":"agent_message","phase":"final_answer","message":"bounded result"}"#,
    );
    let tail = format!("discarded partial record\n{record}\n");
    let size = FULL_HISTORY_LIMIT_BYTES + 1 + tail.len() as u64;
    let (start, length) = preview_window(size).expect("large file");
    assert_eq!(start + length, size);
    assert!(length <= TAIL_PREVIEW_BYTES);
    let mut bytes = vec![0u8; length as usize - tail.len()];
    bytes.extend_from_slice(tail.as_bytes());

    let preview = bounded_preview(size, start, &bytes);
    assert_eq!(preview.file_bytes, size);
    assert_eq!(preview.messages.len(), 1);
    assert_eq!(preview.messages[0].kind, MessageKind::Final);
    assert_eq!(preview.messages[0].text, "bounded result");
}

#[test]
fn transcript_records_are_cleaned() {
    assert!(is_noisy_record(r#"{"type":"response_item","payload":{"type":"function_call","name":"x"}}"#));
    assert_eq!(normalize_text(Some("  hi \n")).as_deref(), Some("hi"));
    assert_eq!(normalize_text(Some("  ")), None);
    assert_eq!(normalize_text(None), None);
    assert!(parse_tail(b"not json\n\xff\xfe\n", false).is_empty());
}

#[test]
fn threads_become_sessions() {
    let session = Session::from_thread(&json(
        r#"{"id":"t","preview":"\n  First line  \nmore","cwd":"/tmp/a/b","updatedAt":12,"source":{"subAgent":{}},"status":{"type":"systemError"}}"#,
    ))
    .expect("session");
    assert_eq!(session.title, "First line");
    assert_eq!(session.updated_at, 12);
    assert_eq!(session.source, "subAgent");
    assert_eq!(session.status, SessionStatus::Failed);
    assert_eq!(session.leaf_directory(), "b");
    assert!(Session::from_thread(&json("{}")).is_none());
    assert_eq!(source_label(None), "unknown");
}

#[test]
fn items_and_errors_become_messages() {
    let entry = message_from_item(&json(
        r#"{"type":"agentMessage","id":"m","text":"Done","phase":"final_answer"}"#,
    ))
    .expect("message");
    assert_eq!(entry.kind, MessageKind::Final);
    assert!(message_from_item(&json(r#"{"type":"other","id":"m"}"#)).is_none());
    let error = turn_error_message(&json(r#"{"id":"t","error":{"message":"bad"}}"#)).expect("error");
    assert_eq!(error.kind, MessageKind::System);
    assert!(error.text.contains("bad"));
    assert!(turn_error_message(&json(r#"{"id":"t","error":null}"#)).is_none());
    assert_eq!(
        notification_message(&json(r#"{"error":{"message":"deep"}}"#)).as_deref(),
        Some("deep")
    );
}

#[test]
fn requests_are_shown_and_decided() {
    assert_eq!(
        pending_request_display(&PendingRequestKind::CommandApproval, &json(r#"{"command":"ls"}"#)),
        "Approve command?\nls\n\ny once · a session · n deny"
    );
    assert_eq!(approval_decision("y"), "accept");
    assert_eq!(approval_decision("a"), "acceptForSession");
    assert_eq!(approval_decision("n"), "decline");
    assert_eq!(approval_decision("whatever"), "decline");
    assert_eq!(rpc_id_label(&json("7")), "7");
    assert_eq!(rpc_id_label(&json("\"x\"")), "x");
    assert!(is_image_marker("🖼 3 images"));
    assert!(is_image_marker("🖼 local image"));
    assert!(!is_image_marker("🖼 many images"));
}

#[test]
fn json_is_printed_as_it_was_read() {
    let text = r#"{"a":[1,-2,true,null,"q\"\n",0.5,-1e+300],"b":{}}"#;
    assert_eq!(print_json(&json(text)), text);
    assert!(parse_json(b"{").is_none());
    let complaint = read_json(b"{").expect_err("not JSON");
    assert!(complaint.contains("line 1"));
}

#[test]
fn messages_are_framed_and_numbered() {
    let mut outbox = RpcOutbox::default();
    assert_eq!(outbox.request("a", Json::Null), 1);
    assert_eq!(outbox.request("b", Json::Null), 2);
    outbox.notify("c", Json::Bool(true));
    outbox.respond(json("9"), json("{}"));
    outbox.respond_error(json("8"), -1, "no");
    let frames: Vec<String> =
        outbox.drain().iter().map(|message: &Outgoing| print_json(&message.frame())).collect();
    assert_eq!(
        frames,
        vec![
            r#"{"id":1,"method":"a","params":null}"#.to_string(),
            r#"{"id":2,"method":"b","params":null}"#.to_string(),
            r#"{"method":"c","params":true}"#.to_string(),
            r#"{"id":9,"result":{}}"#.to_string(),
            r#"{"error":{"code":-1,"message":"no"},"id":8}"#.to_string(),
        ]
    );
    assert!(outbox.drain().is_empty());
}

#[test]
fn attach_uses_native_tui_on_the_deck_app_server() {
    let request = AttachRequest { thread_id: "thread-123".to_string(), cwd: "/tmp".to_string() };
    assert_eq!(
        attach_arguments(&request, "unix:///tmp/deck.sock"),
        vec![
            "resume".to_string(),
            "--include-non-interactive".to_string(),
            "--remote".to_string(),
            "unix:///tmp/deck.sock".to_string(),
            "thread-123".to_string(),
        ]
    );
}

#[test]
fn the_app_server_is_found_started_and_given_up() {
    assert_eq!(check_step(true, false), CheckStep::Wait);
    assert_eq!(check_step(true, true), CheckStep::Done);
    assert_eq!(check_step(false, true), CheckStep::GiveUp);
    assert_eq!(state_dir("/home/u", false), "/home/u/.codeck");
    assert_eq!(state_dir("/home/u/", true), "/home/u/.codex-deck");
    assert_eq!(endpoint_of("/tmp/s"), "unix:///tmp/s");
    assert_eq!(parse_pid(" 42\n"), Some(42));
    assert_eq!(parse_pid("4294967296"), None);
    assert_eq!(parse_pid("x"), None);
    assert_eq!(signalled_process(0), None);
    assert_eq!(signalled_process(2147483648), None);
    assert_eq!(signalled_process(5), Some(5));
    assert!(process_is_alive(5, false, true));
    assert!(!process_is_alive(5, false, false));
    assert!(!process_is_alive(0, true, true));
    assert!(can_reuse_server(Some(5), true, true));
    assert!(!can_reuse_server(None, true, true));
    assert_eq!(start_step(true, true, true), StartStep::Ready);
    assert_eq!(start_step(true, true, false), StartStep::Wait);
    assert_eq!(start_step(false, true, true), StartStep::GiveUp);
    assert_eq!(connect_step(true, true), ConnectStep::Retry);
    assert_eq!(connect_step(true, false), ConnectStep::Exited);
    assert_eq!(connect_step(false, true), ConnectStep::Fail);
    assert_eq!(start_failure_text("/tmp/s", ""), "Codex app-server did not create /tmp/s");
    let log = (1..=10).map(|n| n.to_string()).collect::<Vec<_>>().join("\n");
    assert_eq!(
        start_failure_text("/tmp/s", &log),
        "Codex app-server did not create /tmp/s\n3\n4\n5\n6\n7\n8\n9\n10"
    );
    assert_eq!(check_summary(1), "codex-deck: connected · 1 session");
    assert_eq!(check_summary(2), "codex-deck: connected · 2 sessions");
}

#[test]
fn the_connection_is_watched() {
    match socket_action(SocketEvent::Message(b"{\"id\":1}".to_vec())) {
        SocketAction::Deliver(ClientEvent::Message(message)) => {
            assert_eq!(print_json(&message), "{\"id\":1}");
        }
        other => panic!("{other:?}"),
    }
    match message_event(&b"nope".to_vec()) {
        ClientEvent::Warning(text) => assert!(text.starts_with("invalid app-server JSON: ")),
        other => panic!("{other:?}"),
    }
    assert!(matches!(socket_action(SocketEvent::Ping), SocketAction::Pong));
    assert!(matches!(socket_action(SocketEvent::Quiet), SocketAction::Nothing));
    match socket_action(SocketEvent::Closed) {
        SocketAction::Stop(ClientEvent::Disconnected(text)) => {
            assert_eq!(text, "app-server connection closed");
        }
        other => panic!("{other:?}"),
    }
    match socket_action(SocketEvent::Failed("x".to_string())) {
        SocketAction::Stop(ClientEvent::Disconnected(text)) => {
            assert_eq!(text, "app-server read failed: x");
        }
        other => panic!("{other:?}"),
    }
    match write_failure("x") {
        ClientEvent::Disconnected(text) => assert_eq!(text, "app-server write failed: x"),
        other => panic!("{other:?}"),
    }
}
