//! The values that travel between the browser client and the server: the
//! bodies of the room requests, the claims of a room token, and the
//! messages of a room's socket.
use vstd::prelude::*;
use crate::game::GameKind;
use crate::ids::{ClientId, RoomId};
use crate::room::Room;

verus! {

/// A message a client sends on its room socket. (The wire format also has
/// a variant for moves of the Gecko game, of which none exist yet, so no
/// such message can be received.)
#[derive(Debug)]
pub enum ClientMsg {
    SetNickname(String),
}

/// A message the server sends on a room socket.
#[derive(Debug)]
pub enum ServerMsg {
    RoomUpdate(Room),
}

/// Body of a request to create a room.
#[derive(Debug)]
pub struct CreateRoomInput {
    pub game_kind: GameKind,
    pub nickname: String,
}

/// Body of a request to join a room.
#[derive(Debug)]
pub struct JoinRoomInput {
    pub room_id: RoomId,
    pub nickname: String,
}

/// Answer to a successful create or join request.
#[derive(Debug)]
pub struct JoinRoomOutput {
    pub room_id: RoomId,
    pub room: Room,
}

/// What a room token says: which client it was given to, for which room.
#[derive(Debug, Clone)]
pub struct Claims {
    pub sub: ClientId,
    pub room_id: RoomId,
}

impl Claims {
    /// A copy of these claims.
    pub fn duplicate(&self) -> (c: Claims)
        ensures
            c.sub@ == self.sub@,
            c.room_id@ == self.room_id@,
    {
        Claims { sub: self.sub.duplicate(), room_id: self.room_id.duplicate() }
    }
}

} // verus!
