//! The decisions of a room socket on the server: answering a connection
//! attempt, framing the messages that travel on the socket, and the steps
//! of the tasks that forward room updates to a client.
use vstd::prelude::*;
use vstd::utf8::encode_utf8;
use crate::messages::ServerMsg;
use crate::registry::ConnectDecision;
use crate::text::owned;

verus! {

/// Seconds a socket may stay silent before the server pings the client.
pub const HEARTBEAT_SECS: u64 = 55;

/// Room updates a slow client may fall behind before it misses some.
pub const BROADCAST_CAPACITY: usize = 16;

/// Client messages waiting for the room to handle them.
pub const CLIENT_MESSAGE_CAPACITY: usize = 16;

/// Server messages waiting to be written to one client's socket.
pub const OUTBOX_CAPACITY: usize = 10;

/// The answer to a refused connection attempt.
pub open spec fn refusal(d: ConnectDecision) -> Option<(u16, Seq<char>)> {
    match d {
        ConnectDecision::RoomEnded => Some((403, "Room has ended"@)),
        ConnectDecision::InvalidToken => Some((403, "Invalid token"@)),
        ConnectDecision::Accept => None,
    }
}

impl ConnectDecision {
    /// The status and body the attempt is answered with, or `None` when
    /// the connection is upgraded to a socket.
    pub fn answer(&self) -> (r: Option<(u16, String)>)
        ensures
            match (r, refusal(*self)) {
                (Some((s, m)), Some((t, n))) => s == t && m@ == n,
                (None, None) => true,
                _ => false,
            },
    {
        match self {
            ConnectDecision::RoomEnded => Some((403, owned("Room has ended"))),
            ConnectDecision::InvalidToken => Some((403, owned("Invalid token"))),
            ConnectDecision::Accept => None,
        }
    }
}

/// Why a socket is to be closed.
#[derive(Debug)]
pub struct CloseFrame {
    pub code: u16,
    pub reason: String,
}

/// A message as it travels on a web socket.
#[derive(Debug)]
pub enum WireMessage {
    Text(String),
    Binary(Vec<u8>),
    Ping(Vec<u8>),
    Pong(Vec<u8>),
    Close(Option<CloseFrame>),
}

/// A socket message carrying a value of a known type.
#[derive(Debug)]
pub enum Message<T> {
    /// An item of type `T`.
    Item(T),
    /// A ping with the given payload (less than 125 bytes).
    Ping(Vec<u8>),
    /// A pong with the given payload (less than 125 bytes).
    Pong(Vec<u8>),
    /// A close message with an optional close frame.
    Close(Option<CloseFrame>),
}

/// What became of an incoming socket message: the bytes of an item to
/// decode, or a control message passed on as it came.
#[derive(Debug)]
pub enum Inbound {
    Decode(Vec<u8>),
    Ping(Vec<u8>),
    Pong(Vec<u8>),
    Close(Option<CloseFrame>),
}

/// Sorts an incoming socket message: text and binary messages both carry
/// an item, text ones as their UTF-8 bytes; pings, pongs and closes pass.
pub fn inbound(msg: WireMessage) -> (r: Inbound)
    ensures
        match msg {
            WireMessage::Text(s) => r matches Inbound::Decode(b) && b@ == encode_utf8(s@),
            WireMessage::Binary(b) => r matches Inbound::Decode(c) && c@ == b@,
            WireMessage::Ping(b) => r matches Inbound::Ping(c) && c@ == b@,
            WireMessage::Pong(b) => r matches Inbound::Pong(c) && c@ == b@,
            WireMessage::Close(f) => r == Inbound::Close(f),
        },
{
    match msg {
        WireMessage::Text(s) => Inbound::Decode(vstd::slice::slice_to_vec(s.as_str().as_bytes())),
        WireMessage::Binary(b) => Inbound::Decode(b),
        WireMessage::Ping(b) => Inbound::Ping(b),
        WireMessage::Pong(b) => Inbound::Pong(b),
        WireMessage::Close(f) => Inbound::Close(f),
    }
}

/// Frames an outgoing socket message: an item, already encoded as JSON
/// bytes, goes as a binary message; pings, pongs and closes pass.
pub fn outbound(msg: Message<Vec<u8>>) -> (r: WireMessage)
    ensures
        match msg {
            Message::Item(b) => r matches WireMessage::Binary(c) && c@ == b@,
            Message::Ping(b) => r matches WireMessage::Ping(c) && c@ == b@,
            Message::Pong(b) => r matches WireMessage::Pong(c) && c@ == b@,
            Message::Close(f) => r == WireMessage::Close(f),
        },
{
    match msg {
        Message::Item(b) => WireMessage::Binary(b),
        Message::Ping(b) => WireMessage::Ping(b),
        Message::Pong(b) => WireMessage::Pong(b),
        Message::Close(f) => WireMessage::Close(f),
    }
}

/// The item a decoded socket message carries, if it is one; everything
/// else a client sends (control messages, undecodable ones) is skipped.
pub fn item_of<T>(msg: Result<Message<T>, ()>) -> (r: Option<T>)
    ensures
        match msg {
            Ok(Message::Item(t)) => r == Some(t),
            _ => r is None,
        },
{
    match msg {
        Ok(Message::Item(t)) => Some(t),
        _ => None,
    }
}

/// What the room's update channel yields to one client's forwarder.
#[derive(Debug)]
pub enum BroadcastEvent {
    Update(ServerMsg),
    /// The client fell behind and missed this many updates.
    Lagged(u64),
    Closed,
}

/// What the forwarder does next.
#[derive(Debug)]
pub enum ForwardStep {
    /// Pass the update on to the client's outbox.
    Forward(ServerMsg),
    /// Carry on without forwarding anything.
    Skip,
    /// The room's channel is gone: stop forwarding.
    Stop,
}

/// Forwards updates, carries on past missed ones, and stops when the
/// room's channel closes.
pub fn forward_step(e: BroadcastEvent) -> (s: ForwardStep)
    ensures
        match e {
            BroadcastEvent::Update(m) => s == ForwardStep::Forward(m),
            BroadcastEvent::Lagged(_) => s is Skip,
            BroadcastEvent::Closed => s is Stop,
        },
{
    match e {
        BroadcastEvent::Update(m) => ForwardStep::Forward(m),
        BroadcastEvent::Lagged(_) => ForwardStep::Skip,
        BroadcastEvent::Closed => ForwardStep::Stop,
    }
}

/// What the task that writes to one client's socket waits for.
#[derive(Debug)]
pub enum OutboxEvent {
    Message(ServerMsg),
    /// Every sender of the outbox is gone.
    Closed,
    /// Nothing was sent for `HEARTBEAT_SECS` seconds.
    Idle,
}

/// What the socket writer does next.
#[derive(Debug)]
pub enum SendStep {
    SendItem(ServerMsg),
    /// Send a ping with an empty payload to keep the connection alive.
    SendPing,
    Stop,
}

/// Writes messages as items, pings a silent socket, and stops once the
/// outbox closes.
pub fn send_step(e: OutboxEvent) -> (s: SendStep)
    ensures
        match e {
            OutboxEvent::Message(m) => s == SendStep::SendItem(m),
            OutboxEvent::Closed => s is Stop,
            OutboxEvent::Idle => s is SendPing,
        },
{
    match e {
        OutboxEvent::Message(m) => SendStep::SendItem(m),
        OutboxEvent::Closed => SendStep::Stop,
        OutboxEvent::Idle => SendStep::SendPing,
    }
}

} // verus!
