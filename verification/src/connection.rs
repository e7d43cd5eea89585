//! The app-server: where it keeps its files, whether it runs, and what its
//! connection brings.

use vstd::prelude::*;

use crate::json::{Json, json_reading, read_json};
use crate::responses::ClientEvent;
use crate::state::AttachRequest;
use crate::text::{
    chars_of, concat_text, decimal, decimal_text, join, join_texts, lines_of, parse_decimal,
    parse_number, text_lines, texts, trim, trim_text,
};

verus! {

/// The directory for the dashboard's files in a home directory. The older one is
/// used where it is there.
pub open spec fn state_directory(home: Seq<char>, older_exists: bool) -> Seq<char> {
    child_path(
        home,
        if older_exists {
            ".codex-deck"@
        } else {
            ".codeck"@
        },
    )
}

/// A name in a directory.
pub open spec fn child_path(directory: Seq<char>, name: Seq<char>) -> Seq<char> {
    if directory.len() == 0 || directory.last() == '/' {
        directory + name
    } else {
        directory + "/"@ + name
    }
}

/// A name in a directory.
pub fn join_path(directory: &str, name: &str) -> (path: String)
    ensures
        path@ == child_path(directory@, name@),
{
    let chars = chars_of(directory);
    if chars.len() == 0 || chars[chars.len() - 1] == '/' {
        concat_text(directory, name)
    } else {
        let start = concat_text(directory, "/");
        concat_text(start.as_str(), name)
    }
}

/// The directory for the dashboard's files in a home directory.
pub fn state_dir(home: &str, older_exists: bool) -> (path: String)
    ensures
        path@ == state_directory(home@, older_exists),
{
    if older_exists {
        join_path(home, ".codex-deck")
    } else {
        join_path(home, ".codeck")
    }
}

/// The address of the app-server at a socket.
pub fn endpoint_of(socket: &str) -> (endpoint: String)
    ensures
        endpoint@ == "unix://"@ + socket@,
{
    concat_text("unix://", socket)
}

/// The number of a process in a file.
pub open spec fn stored_pid(text: Seq<char>) -> Option<nat> {
    parse_decimal(trim(text), u32::MAX as nat)
}

/// The number of a process in a file.
pub fn parse_pid(text: &str) -> (pid: Option<u32>)
    ensures
        match pid {
            Some(pid) => stored_pid(text@) == Some(pid as nat),
            None => stored_pid(text@) is None,
        },
{
    let trimmed = trim_text(text);
    match parse_number(trimmed.as_str(), 4294967295) {
        Some(number) => Some(number as u32),
        None => None,
    }
}

/// A process that a signal can be sent to: neither the own group nor a negative
/// number.
pub fn signalled_process(pid: u32) -> (process: Option<i32>)
    ensures
        match process {
            Some(process) => process == pid && process > 0,
            None => pid == 0 || pid > i32::MAX,
        },
{
    if pid == 0 || pid > 2147483647 {
        None
    } else {
        Some(pid as i32)
    }
}

/// Whether a process is there, given that a signal reached it or that it is
/// another user's.
pub fn process_is_alive(pid: u32, reached: bool, forbidden: bool) -> (alive: bool)
    ensures
        alive == (0 < pid && pid <= i32::MAX && (reached || forbidden)),
{
    signalled_process(pid).is_some() && (reached || forbidden)
}

/// Whether a running app-server can be used: its process is there, and its socket.
pub fn can_reuse_server(pid: Option<u32>, alive: bool, socket_exists: bool) -> (reuse: bool)
    ensures
        reuse == (pid is Some && alive && socket_exists),
{
    pid.is_some() && alive && socket_exists
}

/// What to do while an app-server starts.
#[derive(Debug, Clone, Copy, PartialEq, Eq, Structural)]
pub enum StartStep {
    /// It is there.
    Ready,
    /// Look again a little later.
    Wait,
    /// It did not come in time.
    GiveUp,
}

/// What to do while an app-server starts.
pub fn start_step(in_time: bool, socket_exists: bool, alive: bool) -> (step: StartStep)
    ensures
        step == (if !in_time {
            StartStep::GiveUp
        } else if socket_exists && alive {
            StartStep::Ready
        } else {
            StartStep::Wait
        }),
{
    if !in_time {
        StartStep::GiveUp
    } else if socket_exists && alive {
        StartStep::Ready
    } else {
        StartStep::Wait
    }
}

/// What to do after a connection was refused.
#[derive(Debug, Clone, Copy, PartialEq, Eq, Structural)]
pub enum ConnectStep {
    /// Try again a little later.
    Retry,
    /// The app-server is gone.
    Exited,
    /// The time is over.
    Fail,
}

/// What to do after a connection was refused.
pub fn connect_step(in_time: bool, alive: bool) -> (step: ConnectStep)
    ensures
        step == (if !in_time {
            ConnectStep::Fail
        } else if alive {
            ConnectStep::Retry
        } else {
            ConnectStep::Exited
        }),
{
    if !in_time {
        ConnectStep::Fail
    } else if alive {
        ConnectStep::Retry
    } else {
        ConnectStep::Exited
    }
}

/// The last lines of a log, at most eight.
pub open spec fn log_tail(lines: Seq<Seq<char>>) -> Seq<Seq<char>> {
    if lines.len() > 8 {
        lines.skip(lines.len() - 8)
    } else {
        lines
    }
}

/// Why an app-server did not start: its socket, and the end of its log.
pub open spec fn start_failure(socket: Seq<char>, log: Seq<char>) -> Seq<char> {
    let tail = log_tail(lines_of(log));
    "Codex app-server did not create "@ + socket + if tail.len() == 0 {
        seq![]
    } else {
        "\n"@ + join(tail, "\n"@)
    }
}

/// Why an app-server did not start.
pub fn start_failure_text(socket: &str, log: &str) -> (text: String)
    ensures
        text@ == start_failure(socket@, log@),
{
    let mut lines = text_lines(log);
    let ghost all = texts(lines@);
    let mut text = concat_text("Codex app-server did not create ", socket);
    let ghost start = text@;
    while lines.len() > 8
        invariant
            texts(lines@) == all.skip(all.len() - lines.len()),
            lines.len() <= all.len(),
            lines.len() >= 8 || lines.len() == all.len(),
        decreases lines.len(),
    {
        let ghost before = lines@;
        let ghost skipped = all.len() - before.len();
        lines.remove(0);
        assert forall|j: int| 0 <= j < lines.len() implies #[trigger] texts(lines@)[j]
            == all.skip(skipped + 1)[j] by {
            assert(lines@[j] == before[j + 1]);
            assert(texts(before)[j + 1] == all.skip(skipped)[j + 1]);
        }
        assert(texts(lines@) =~= all.skip(all.len() - lines.len()));
    }
    assert(all.skip(0) =~= all);
    assert(texts(lines@) == log_tail(all));
    if lines.len() == 0 {
        assert(start + Seq::<char>::empty() =~= start);
        return text;
    }
    text.append("\n");
    text.append(join_texts(&lines, "\n").as_str());
    assert(text@ =~= start + ("\n"@ + join(texts(lines@), "\n"@)));
    text
}

/// What a connection brings.
#[derive(Debug)]
pub enum SocketEvent {
    /// A message.
    Message(Vec<u8>),
    /// A question whether the connection is still there.
    Ping,
    /// The connection was closed.
    Closed,
    /// Nothing within the time that was given, or nothing that matters.
    Quiet,
    /// The connection failed.
    Failed(String),
}

/// What to do about what a connection brings.
#[derive(Debug)]
pub enum SocketAction {
    /// Tell the dashboard.
    Deliver(ClientEvent),
    /// Answer that the connection is still there.
    Pong,
    /// Nothing.
    Nothing,
    /// Tell the dashboard, and stop.
    Stop(ClientEvent),
}

/// What the dashboard is told of a message: what it says, or what is wrong with it.
pub open spec fn tells_message(event: ClientEvent, bytes: Seq<u8>) -> bool {
    match json_reading(bytes) {
        Ok(json) => event matches ClientEvent::Message(message) && message@ == json,
        Err(text) => event matches ClientEvent::Warning(warning) && warning@
            == "invalid app-server JSON: "@ + text,
    }
}

/// What the dashboard is told of a message.
pub fn message_event(bytes: &Vec<u8>) -> (event: ClientEvent)
    ensures
        tells_message(event, bytes@),
{
    told(read_json(bytes.as_slice()))
}

/// What the dashboard is told of a document that was read, or could not be read.
pub fn told(reading: Result<Json, String>) -> (event: ClientEvent)
    ensures
        match reading {
            Ok(json) => event matches ClientEvent::Message(message) && message@ == json@,
            Err(text) => event matches ClientEvent::Warning(warning) && warning@
                == "invalid app-server JSON: "@ + text@,
        },
{
    match reading {
        Ok(json) => ClientEvent::Message(json),
        Err(text) => ClientEvent::Warning(
            concat_text("invalid app-server JSON: ", text.as_str()),
        ),
    }
}

/// What to do about what a connection brings.
pub fn socket_action(event: SocketEvent) -> (action: SocketAction)
    ensures
        match event {
            SocketEvent::Message(bytes) => action matches SocketAction::Deliver(told)
                && tells_message(told, bytes@),
            SocketEvent::Ping => action is Pong,
            SocketEvent::Closed => action matches SocketAction::Stop(
                ClientEvent::Disconnected(text),
            ) && text@ == "app-server connection closed"@,
            SocketEvent::Quiet => action is Nothing,
            SocketEvent::Failed(error) => action matches SocketAction::Stop(
                ClientEvent::Disconnected(text),
            ) && text@ == "app-server read failed: "@ + error@,
        },
{
    match event {
        SocketEvent::Message(bytes) => SocketAction::Deliver(message_event(&bytes)),
        SocketEvent::Ping => SocketAction::Pong,
        SocketEvent::Closed => SocketAction::Stop(
            ClientEvent::Disconnected("app-server connection closed".to_owned()),
        ),
        SocketEvent::Quiet => SocketAction::Nothing,
        SocketEvent::Failed(error) => SocketAction::Stop(
            ClientEvent::Disconnected(
                concat_text("app-server read failed: ", error.as_str()),
            ),
        ),
    }
}

/// What the dashboard is told where a message could not be sent.
pub fn write_failure(error: &str) -> (event: ClientEvent)
    ensures
        event matches ClientEvent::Disconnected(text) && text@ == "app-server write failed: "@
            + error@,
{
    ClientEvent::Disconnected(concat_text("app-server write failed: ", error))
}

/// The arguments of the native interface for a session.
pub open spec fn attach_words(endpoint: Seq<char>, thread_id: Seq<char>) -> Seq<Seq<char>> {
    seq!["resume"@, "--include-non-interactive"@, "--remote"@, endpoint, thread_id]
}

/// The arguments of the native interface for a session.
pub fn attach_arguments(request: &AttachRequest, endpoint: &str) -> (arguments: Vec<String>)
    ensures
        texts(arguments@) == attach_words(endpoint@, request@.thread_id),
{
    let mut arguments: Vec<String> = Vec::new();
    arguments.push("resume".to_owned());
    arguments.push("--include-non-interactive".to_owned());
    arguments.push("--remote".to_owned());
    arguments.push(endpoint.to_owned());
    arguments.push(request.thread_id.clone());
    assert(texts(arguments@) =~= attach_words(endpoint@, request@.thread_id));
    arguments
}

/// What to do while a check waits for the first list of sessions.
#[derive(Debug, Clone, Copy, PartialEq, Eq, Structural)]
pub enum CheckStep {
    /// The list has come.
    Done,
    /// Look again a little later.
    Wait,
    /// It did not come in time.
    GiveUp,
}

/// What to do while a check waits for the first list of sessions.
pub fn check_step(in_time: bool, loaded: bool) -> (step: CheckStep)
    ensures
        step == (if !in_time {
            CheckStep::GiveUp
        } else if loaded {
            CheckStep::Done
        } else {
            CheckStep::Wait
        }),
{
    if !in_time {
        CheckStep::GiveUp
    } else if loaded {
        CheckStep::Done
    } else {
        CheckStep::Wait
    }
}

/// The summary of a check: how many sessions there are.
pub fn check_summary(sessions: usize) -> (text: String)
    ensures
        text@ == "codex-deck: connected · "@ + decimal(sessions as nat) + " session"@ + (
        if sessions == 1 {
            ""@
        } else {
            "s"@
        }),
{
    let mut text = concat_text(
        "codex-deck: connected · ",
        decimal_text(sessions as u64).as_str(),
    );
    text.append(" session");
    if sessions != 1 {
        text.append("s");
    }
    proof {
        reveal_strlit("");
        assert(sessions == 1 ==> text@ =~= text@ + ""@);
    }
    text
}

} // verus!
