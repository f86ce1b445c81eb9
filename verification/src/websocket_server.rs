//! The network transport: what is done with each frame of a connection.
//!
//! Sockets, the handshake and the reading of JSON are the caller's part. The
//! caller says what arrived, and is told what to queue, what to send back, and
//! whether the connection goes on.

use crate::tracker::text_of;
use vstd::prelude::*;
use vstd::string::StringExecFns;

verus! {

/// One report of browsing activity, whatever transport brought it.
#[derive(Debug, Clone, PartialEq, Eq)]
pub struct TabUpdateMessage {
    pub url: String,
    pub title: String,
    pub domain: Option<String>,
    /// For instance "productivity", "social" or "entertainment".
    pub category: Option<String>,
}

/// A report of browsing activity, as a mathematical value.
pub struct ActivityMessage {
    pub url: Seq<char>,
    pub title: Seq<char>,
    pub domain: Option<Seq<char>>,
    pub category: Option<Seq<char>>,
}

impl View for TabUpdateMessage {
    type V = ActivityMessage;

    open spec fn view(&self) -> ActivityMessage {
        ActivityMessage {
            url: self.url@,
            title: self.title@,
            domain: text_of(self.domain),
            category: text_of(self.category),
        }
    }
}

/// The answer to one message.
#[derive(Debug, Clone, PartialEq, Eq)]
pub struct WebSocketResponse {
    pub success: bool,
    pub message: Option<String>,
}

/// An answer, as a mathematical value.
pub struct Acknowledgment {
    pub success: bool,
    pub message: Option<Seq<char>>,
}

impl View for WebSocketResponse {
    type V = Acknowledgment;

    open spec fn view(&self) -> Acknowledgment {
        Acknowledgment { success: self.success, message: text_of(self.message) }
    }
}

/// What arrived on a connection.
#[derive(Debug, Clone, PartialEq, Eq)]
pub enum Incoming {
    /// A text frame that held a well-formed message.
    Update(TabUpdateMessage),
    /// A text frame that held no well-formed message, with the parser's complaint.
    Malformed(String),
    /// The peer closes the connection.
    Close,
    /// A ping, with its payload.
    Ping(Vec<u8>),
    /// A frame of any other kind.
    Other,
    /// The transport failed.
    Failed,
}

/// What arrived on a connection, as a mathematical value.
pub enum Arrival {
    Update(ActivityMessage),
    Malformed(Seq<char>),
    Close,
    Ping(Seq<u8>),
    Other,
    Failed,
}

impl View for Incoming {
    type V = Arrival;

    open spec fn view(&self) -> Arrival {
        match self {
            Incoming::Update(message) => Arrival::Update(message@),
            Incoming::Malformed(complaint) => Arrival::Malformed(complaint@),
            Incoming::Close => Arrival::Close,
            Incoming::Ping(payload) => Arrival::Ping(payload@),
            Incoming::Other => Arrival::Other,
            Incoming::Failed => Arrival::Failed,
        }
    }
}

/// What is sent back on the connection.
#[derive(Debug, Clone, PartialEq, Eq)]
pub enum Reply {
    /// An answer, to be sent as a text frame.
    Text(WebSocketResponse),
    /// A pong that carries the payload of the ping.
    Pong(Vec<u8>),
}

/// What is sent back, as a mathematical value.
pub enum Sent {
    Text(Acknowledgment),
    Pong(Seq<u8>),
}

impl View for Reply {
    type V = Sent;

    open spec fn view(&self) -> Sent {
        match self {
            Reply::Text(response) => Sent::Text(response@),
            Reply::Pong(payload) => Sent::Pong(payload@),
        }
    }
}

/// What is done for one arrival.
#[derive(Debug, Clone, PartialEq, Eq)]
pub struct Step {
    /// The message to hand to the tracker's queue.
    pub enqueue: Option<TabUpdateMessage>,
    /// What to send back.
    pub reply: Option<Reply>,
    /// Whether the connection ends where the reply cannot be sent.
    pub stop_if_unsent: bool,
    /// Whether the connection ends after this step.
    pub stop: bool,
}

/// What is done for one arrival, as a mathematical value.
pub struct Decision {
    pub enqueue: Option<ActivityMessage>,
    pub reply: Option<Sent>,
    pub stop_if_unsent: bool,
    pub stop: bool,
}

impl View for Step {
    type V = Decision;

    open spec fn view(&self) -> Decision {
        Decision {
            enqueue: match self.enqueue {
                Some(message) => Some(message@),
                None => None,
            },
            reply: match self.reply {
                Some(reply) => Some(reply@),
                None => None,
            },
            stop_if_unsent: self.stop_if_unsent,
            stop: self.stop,
        }
    }
}

/// The answer to a well-formed message.
pub open spec fn accepted() -> Acknowledgment {
    Acknowledgment { success: true, message: Some("Message received"@) }
}

/// The answer to a text frame that held no well-formed message.
pub open spec fn rejected(complaint: Seq<char>) -> Acknowledgment {
    Acknowledgment { success: false, message: Some("Parse error: "@ + complaint) }
}

/// What is done for `arrival`.
///
/// A well-formed message is queued and acknowledged. A malformed one is
/// answered with a failure and the connection goes on, even where the answer
/// cannot be sent. A ping is answered with a pong of the same payload. A
/// close or a failure of the transport ends the connection. Anything else is
/// passed over.
pub open spec fn decide(arrival: Arrival) -> Decision {
    match arrival {
        Arrival::Update(message) => Decision {
            enqueue: Some(message),
            reply: Some(Sent::Text(accepted())),
            stop_if_unsent: true,
            stop: false,
        },
        Arrival::Malformed(complaint) => Decision {
            enqueue: None,
            reply: Some(Sent::Text(rejected(complaint))),
            stop_if_unsent: false,
            stop: false,
        },
        Arrival::Close => Decision {
            enqueue: None,
            reply: None,
            stop_if_unsent: false,
            stop: true,
        },
        Arrival::Ping(payload) => Decision {
            enqueue: None,
            reply: Some(Sent::Pong(payload)),
            stop_if_unsent: true,
            stop: false,
        },
        Arrival::Other => Decision {
            enqueue: None,
            reply: None,
            stop_if_unsent: false,
            stop: false,
        },
        Arrival::Failed => Decision {
            enqueue: None,
            reply: None,
            stop_if_unsent: false,
            stop: true,
        },
    }
}

/// Whether the connection goes on after a step, given whether its reply, if
/// it has one, could be sent.
pub open spec fn goes_on(decision: Decision, sent: bool) -> bool {
    !decision.stop && !(decision.reply is Some && decision.stop_if_unsent && !sent)
}

impl WebSocketResponse {
    /// The answer to a well-formed message.
    pub fn received() -> (r: WebSocketResponse)
        ensures
            r@ == accepted(),
    {
        WebSocketResponse { success: true, message: Some("Message received".to_owned()) }
    }

    /// The answer to a text frame that held no well-formed message.
    pub fn parse_error(complaint: &str) -> (r: WebSocketResponse)
        ensures
            r@ == rejected(complaint@),
    {
        let mut text = "Parse error: ".to_owned();
        text.append(complaint);
        WebSocketResponse { success: false, message: Some(text) }
    }
}

/// What is done for one arrival on a connection.
pub fn handle_incoming(incoming: Incoming) -> (r: Step)
    ensures
        r@ == decide(incoming@),
{
    match incoming {
        Incoming::Update(message) => Step {
            enqueue: Some(message),
            reply: Some(Reply::Text(WebSocketResponse::received())),
            stop_if_unsent: true,
            stop: false,
        },
        Incoming::Malformed(complaint) => Step {
            enqueue: None,
            reply: Some(Reply::Text(WebSocketResponse::parse_error(complaint.as_str()))),
            stop_if_unsent: false,
            stop: false,
        },
        Incoming::Close => Step { enqueue: None, reply: None, stop_if_unsent: false, stop: true },
        Incoming::Ping(payload) => Step {
            enqueue: None,
            reply: Some(Reply::Pong(payload)),
            stop_if_unsent: true,
            stop: false,
        },
        Incoming::Other => Step { enqueue: None, reply: None, stop_if_unsent: false, stop: false },
        Incoming::Failed => Step { enqueue: None, reply: None, stop_if_unsent: false, stop: true },
    }
}

impl Step {
    /// Whether the connection goes on after this step. `sent` says whether
    /// the reply could be sent; it counts for nothing where there is none.
    pub fn continues(&self, sent: bool) -> (r: bool)
        ensures
            r == goes_on(self@, sent),
    {
        !self.stop && !(self.reply.is_some() && self.stop_if_unsent && !sent)
    }
}

/// A malformed message does not end the connection, whether or not its
/// answer can be sent, and is answered with a failure; a well-formed message
/// that comes after it is queued and acknowledged as any other.
pub proof fn lemma_malformed_is_survived(complaint: Seq<char>, sent: bool, next: ActivityMessage)
    ensures
        goes_on(decide(Arrival::Malformed(complaint)), sent),
        decide(Arrival::Malformed(complaint)).enqueue is None,
        decide(Arrival::Malformed(complaint)).reply matches Some(Sent::Text(answer))
            && !answer.success,
        decide(Arrival::Update(next)).enqueue == Some(next),
        decide(Arrival::Update(next)).reply == Some(Sent::Text(accepted())),
        accepted().success,
{
}

} // verus!
