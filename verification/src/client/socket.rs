//! What the client does with what arrives on its room socket.
use vstd::prelude::*;
use crate::client::reducer::RoomAction;
use crate::messages::ServerMsg;

verus! {

/// The action a server message dispatches to the room page.
pub fn handle_msg(msg: ServerMsg) -> (a: RoomAction)
    ensures
        match msg {
            ServerMsg::RoomUpdate(room) => a == RoomAction::UpdateRoom(room),
        },
{
    match msg {
        ServerMsg::RoomUpdate(room) => RoomAction::UpdateRoom(room),
    }
}

/// One thing read from the socket, after the client tried to decode it.
#[derive(Debug)]
pub enum Frame {
    /// A text or binary message that held a server message.
    Decoded(ServerMsg),
    /// A message that did not hold one.
    Undecodable,
    /// Reading the socket failed.
    Failed,
}

/// What the socket reader does next.
#[derive(Debug)]
pub enum SocketStep {
    Dispatch(RoomAction),
    Continue,
    Stop,
}

/// Dispatches what decodes, skips what does not, and stops reading once
/// the socket fails.
pub fn socket_step(frame: Frame) -> (s: SocketStep)
    ensures
        match frame {
            Frame::Decoded(ServerMsg::RoomUpdate(room)) => s == SocketStep::Dispatch(
                RoomAction::UpdateRoom(room),
            ),
            Frame::Undecodable => s is Continue,
            Frame::Failed => s is Stop,
        },
{
    match frame {
        Frame::Decoded(msg) => SocketStep::Dispatch(handle_msg(msg)),
        Frame::Undecodable => SocketStep::Continue,
        Frame::Failed => SocketStep::Stop,
    }
}

/// What ends a socket: nothing to do on teardown, or a signal to send to
/// the reader so it stops.
#[derive(Debug, PartialEq, Eq, Structural)]
pub enum SocketTearDown {
    Nop,
    CloseSocket,
}

impl SocketTearDown {
    /// Whether tearing down sends the reader its close signal.
    pub fn sends_close(&self) -> (b: bool)
        ensures
            b == (*self is CloseSocket),
    {
        match self {
            SocketTearDown::Nop => false,
            SocketTearDown::CloseSocket => true,
        }
    }
}

} // verus!
