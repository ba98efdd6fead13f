//! The state of a lobby that knows its room code, and what the lobby
//! shows of a room.
use vstd::prelude::*;
use vstd::string::StringExecFns;
use crate::game::game_name;
use crate::ids::RoomId;
use crate::room::{Room, RoomView};
use crate::text::owned;

verus! {

/// A lobby: its room code and the room as last heard of.
#[derive(Debug)]
pub struct RoomState {
    pub room_id: RoomId,
    pub room: Room,
}

/// The lobby's state as a value.
pub struct RoomStateView {
    pub room_id: Seq<char>,
    pub room: RoomView,
}

impl View for RoomState {
    type V = RoomStateView;

    open spec fn view(&self) -> RoomStateView {
        RoomStateView { room_id: self.room_id@, room: self.room@ }
    }
}

/// What happens to a lobby.
#[derive(Debug)]
pub enum RoomAction {
    UpdateRoom(Room),
}

impl RoomState {
    /// Applies `action`: an update replaces the room and keeps the code.
    pub fn reduce(self, action: RoomAction) -> (st: RoomState)
        ensures
            match action {
                RoomAction::UpdateRoom(room) => st@ == RoomStateView {
                    room_id: self@.room_id,
                    room: room@,
                },
            },
    {
        match action {
            RoomAction::UpdateRoom(room) => RoomState { room, room_id: self.room_id },
        }
    }
}

/// The heading lines of a lobby: the room code and the game.
pub open spec fn lobby_heading(room: RoomView) -> Seq<Seq<char>> {
    seq!["Room ID: "@ + room.id, "Game Kind: "@ + game_name(room.game), "Members:"@]
}

/// The heading lines the lobby page shows for `room`; each member is then
/// listed by its name plate.
pub fn lobby_lines(room: &Room) -> (lines: Vec<String>)
    ensures
        lines@.map_values(|s: String| s@) == lobby_heading(room@),
{
    let mut id_line = owned("Room ID: ");
    id_line.append(room.id.0.as_str());
    let mut game_line = owned("Game Kind: ");
    let game = room.game.to_string();
    game_line.append(game.as_str());
    let mut lines: Vec<String> = Vec::new();
    lines.push(id_line);
    lines.push(game_line);
    lines.push(owned("Members:"));
    assert(lines@.map_values(|s: String| s@) =~= lobby_heading(room@));
    lines
}

} // verus!
