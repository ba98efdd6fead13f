//! A lobby that learns its room code and game from the socket.
use vstd::prelude::*;
use vstd::string::StringExecFns;
use crate::game::{game_name, GameKind};
use crate::ids::RoomId;
use crate::text::owned;

verus! {

/// What the lobby knows so far.
#[derive(Debug)]
pub struct RoomState {
    pub room_id: Option<RoomId>,
    pub game_kind: Option<GameKind>,
}

/// What happens to the lobby.
#[derive(Debug)]
pub enum RoomAction {
    /// The server said which room was joined and which game it hosts.
    Join(RoomId, GameKind),
}

impl RoomState {
    /// A lobby that knows nothing yet.
    pub fn new() -> (st: RoomState)
        ensures
            st.room_id is None,
            st.game_kind is None,
    {
        RoomState { room_id: None, game_kind: None }
    }

    /// Applies `action`: joining sets both the code and the game.
    pub fn reduce(self, action: RoomAction) -> (st: RoomState)
        ensures
            match action {
                RoomAction::Join(id, game) => st.room_id matches Some(i) && i@ == id@ && st.game_kind
                    == Some(game),
            },
    {
        match action {
            RoomAction::Join(room_id, game_kind) => RoomState {
                room_id: Some(room_id),
                game_kind: Some(game_kind),
            },
        }
    }
}

impl Default for RoomState {
    fn default() -> (st: RoomState)
        ensures
            st.room_id is None,
            st.game_kind is None,
    {
        RoomState::new()
    }
}

/// What the lobby shows: the code and the game once both are known, else
/// that it is still connecting.
pub open spec fn lobby_body(room_id: Option<Seq<char>>, game: Option<GameKind>) -> Seq<Seq<char>> {
    match (room_id, game) {
        (Some(id), Some(g)) => seq!["Room ID: "@ + id, "Game Kind: "@ + game_name(g)],
        _ => seq!["Connecting..."@],
    }
}

/// The lines the lobby shows for `st`.
pub fn lobby_body_lines(st: &RoomState) -> (lines: Vec<String>)
    ensures
        lines@.map_values(|s: String| s@) == lobby_body(
            match st.room_id {
                Some(i) => Some(i@),
                None => None,
            },
            st.game_kind,
        ),
{
    let mut lines: Vec<String> = Vec::new();
    match (&st.room_id, &st.game_kind) {
        (Some(room_id), Some(game_kind)) => {
            let mut a = owned("Room ID: ");
            a.append(room_id.0.as_str());
            let mut b = owned("Game Kind: ");
            let g = game_kind.to_string();
            b.append(g.as_str());
            lines.push(a);
            lines.push(b);
        },
        _ => {
            lines.push(owned("Connecting..."));
        },
    }
    assert(lines@.map_values(|s: String| s@) =~= lobby_body(
        match st.room_id {
            Some(i) => Some(i@),
            None => None,
        },
        st.game_kind,
    ));
    lines
}

} // verus!
