//! Messages to the app-server, in the order in which they are to be sent.

use vstd::prelude::*;

use crate::json::{
    Json, json_str, JsonNumber, JsonNumberView, JsonView, member, object, object2, object3,
};
use crate::views::{group_views, views};

verus! {

broadcast use group_views;

/// A message to the app-server.
#[derive(Debug, PartialEq, Eq)]
pub enum Outgoing {
    Request { number: u64, method: String, params: Json },
    Notification { method: String, params: Json },
    Response { id: Json, result: Json },
    Error { id: Json, code: i64, message: String },
}

/// The mathematical form of a message.
#[verifier::ext_equal]
pub enum OutgoingView {
    Request { number: u64, method: Seq<char>, params: JsonView },
    Notification { method: Seq<char>, params: JsonView },
    Response { id: JsonView, result: JsonView },
    Error { id: JsonView, code: i64, message: Seq<char> },
}

impl View for Outgoing {
    type V = OutgoingView;

    open spec fn view(&self) -> OutgoingView {
        match self {
            Outgoing::Request { number, method, params } => OutgoingView::Request {
                number: *number,
                method: method@,
                params: params@,
            },
            Outgoing::Notification { method, params } => OutgoingView::Notification {
                method: method@,
                params: params@,
            },
            Outgoing::Response { id, result } => OutgoingView::Response {
                id: id@,
                result: result@,
            },
            Outgoing::Error { id, code, message } => OutgoingView::Error {
                id: id@,
                code: *code,
                message: message@,
            },
        }
    }
}

/// The object that a message is sent as.
pub open spec fn framed(message: OutgoingView) -> JsonView {
    match message {
        OutgoingView::Request { number, method, params } => object(
            seq![
                ("method"@, JsonView::Text(method)),
                ("id"@, JsonView::Number(JsonNumberView::Integer(number as int))),
                ("params"@, params),
            ],
        ),
        OutgoingView::Notification { method, params } => object(
            seq![("method"@, JsonView::Text(method)), ("params"@, params)],
        ),
        OutgoingView::Response { id, result } => object(seq![("id"@, id), ("result"@, result)]),
        OutgoingView::Error { id, code, message } => object(
            seq![
                ("id"@, id),
                (
                    "error"@,
                    object(
                        seq![
                            ("code"@, JsonView::Number(JsonNumberView::Integer(code as int))),
                            ("message"@, JsonView::Text(message)),
                        ],
                    ),
                ),
            ],
        ),
    }
}

impl Outgoing {
    /// The object that the message is sent as.
    pub fn frame(&self) -> (json: Json)
        ensures
            json@ == framed(self@),
    {
        match self {
            Outgoing::Request { number, method, params } => object3(
                member("method", json_str(method.as_str())),
                member("id", Json::Number(JsonNumber::Unsigned(*number))),
                member("params", params.duplicate()),
            ),
            Outgoing::Notification { method, params } => object2(
                member("method", json_str(method.as_str())),
                member("params", params.duplicate()),
            ),
            Outgoing::Response { id, result } => object2(
                member("id", id.duplicate()),
                member("result", result.duplicate()),
            ),
            Outgoing::Error { id, code, message } => object2(
                member("id", id.duplicate()),
                member(
                    "error",
                    object2(
                        member("code", Json::Number(JsonNumber::Signed(*code))),
                        member("message", json_str(message.as_str())),
                    ),
                ),
            ),
        }
    }
}

/// What waits to be sent, and the number of the next request.
#[derive(Debug)]
pub struct RpcOutbox {
    pub next_id: u64,
    pub messages: Vec<Outgoing>,
}

/// The mathematical form of the outbox.
#[verifier::ext_equal]
pub struct OutboxView {
    pub next_id: u64,
    pub messages: Seq<OutgoingView>,
}

impl View for RpcOutbox {
    type V = OutboxView;

    open spec fn view(&self) -> OutboxView {
        OutboxView { next_id: self.next_id, messages: views(self.messages@) }
    }
}

impl OutboxView {
    /// The outbox with one more request; its number is the next one.
    pub open spec fn request(self, method: Seq<char>, params: JsonView) -> OutboxView {
        OutboxView {
            next_id: if self.next_id < u64::MAX {
                (self.next_id + 1) as u64
            } else {
                self.next_id
            },
            messages: self.messages.push(
                OutgoingView::Request { number: self.next_id, method, params },
            ),
        }
    }

    /// The outbox with one more message.
    pub open spec fn send(self, message: OutgoingView) -> OutboxView {
        OutboxView { messages: self.messages.push(message), ..self }
    }
}

impl Default for RpcOutbox {
    fn default() -> (outbox: RpcOutbox)
        ensures
            outbox@ == (OutboxView { next_id: 1, messages: seq![] }),
    {
        RpcOutbox { next_id: 1, messages: Vec::new() }
    }
}

impl RpcOutbox {
    /// Adds a request. Gives its number.
    pub fn request(&mut self, method: &str, params: Json) -> (id: u64)
        ensures
            id == old(self)@.next_id,
            final(self)@ == old(self)@.request(method@, params@),
    {
        let id: u64 = self.next_id;
        self.next_id = self.next_id.saturating_add(1);
        self.messages.push(Outgoing::Request { number: id, method: method.to_owned(), params });
        id
    }

    /// Adds a notification.
    pub fn notify(&mut self, method: &str, params: Json)
        ensures
            final(self)@ == old(self)@.send(
                (OutgoingView::Notification { method: method@, params: params@ }),
            ),
    {
        self.messages.push(Outgoing::Notification { method: method.to_owned(), params });
    }

    /// Adds the answer to a request of the app-server.
    pub fn respond(&mut self, id: Json, result: Json)
        ensures
            final(self)@ == old(self)@.send(
                (OutgoingView::Response { id: id@, result: result@ }),
            ),
    {
        self.messages.push(Outgoing::Response { id, result });
    }

    /// Adds the refusal of a request of the app-server.
    pub fn respond_error(&mut self, id: Json, code: i64, message: &str)
        ensures
            final(self)@ == old(self)@.send(
                (OutgoingView::Error { id: id@, code, message: message@ }),
            ),
    {
        self.messages.push(Outgoing::Error { id, code, message: message.to_owned() });
    }

    /// Hands over what waits to be sent.
    pub fn drain(&mut self) -> (messages: Vec<Outgoing>)
        ensures
            views(messages@) == old(self)@.messages,
            final(self)@ == (OutboxView { messages: seq![], ..old(self)@ }),
    {
        let mut messages: Vec<Outgoing> = Vec::new();
        std::mem::swap(&mut messages, &mut self.messages);
        messages
    }
}

/// Every request in the outbox has a number below the next one, and no two have
/// the same.
pub open spec fn numbers_are_fresh(outbox: OutboxView) -> bool {
    &&& forall|i: int|
        0 <= i < outbox.messages.len() ==> ((#[trigger] outbox.messages[i]) matches OutgoingView::Request {
            number,
            ..
        } ==> number < outbox.next_id)
    &&& forall|i: int, j: int|
        0 <= i < j < outbox.messages.len() ==> ((#[trigger] outbox.messages[i]) matches OutgoingView::Request {
            number: a,
            ..
        } ==> ((#[trigger] outbox.messages[j]) matches OutgoingView::Request { number: b, .. } ==> a
            != b))
}

/// Requests are numbered apart, as long as numbers last.
pub proof fn law_requests_are_numbered_apart(
    outbox: OutboxView,
    method: Seq<char>,
    params: JsonView,
)
    requires
        numbers_are_fresh(outbox),
        outbox.next_id < u64::MAX,
    ensures
        numbers_are_fresh(outbox.request(method, params)),
{
    let after = outbox.request(method, params);
    assert forall|i: int| 0 <= i < outbox.messages.len() implies #[trigger] after.messages[i]
        == outbox.messages[i] by {}
}

} // verus!
