//! The state of the room page and how actions change it.
use vstd::prelude::*;
use vstd::string::StringExecFns;
use crate::room::{Room, RoomView};
use crate::text::owned;

verus! {

/// Why the server closed a room.
#[derive(Debug, PartialEq, Eq, Clone, Copy, Structural)]
pub enum CloseReason {
    RoomEnded,
}

/// How a close reason is written.
pub open spec fn close_reason_text(r: CloseReason) -> Seq<char> {
    match r {
        CloseReason::RoomEnded => "Room ended"@,
    }
}

impl CloseReason {
    /// The reason as text (what `Display` writes).
    pub fn to_string(&self) -> (s: String)
        ensures
            s@ == close_reason_text(*self),
    {
        match self {
            CloseReason::RoomEnded => owned("Room ended"),
        }
    }
}

/// What happens to the room page.
#[derive(Debug)]
pub enum RoomAction {
    /// The server sent what the room now is.
    UpdateRoom(Room),
    /// The server closed the room.
    RoomClosed(CloseReason),
}

/// The room page: the room as last heard of, and the error to show.
#[derive(Debug)]
pub struct RoomState {
    pub room: Option<Room>,
    pub error: Option<String>,
}

/// What the room page state is as a value.
pub struct RoomStateView {
    pub room: Option<RoomView>,
    pub error: Option<Seq<char>>,
}

impl View for RoomState {
    type V = RoomStateView;

    open spec fn view(&self) -> RoomStateView {
        RoomStateView {
            room: match self.room {
                Some(r) => Some(r@),
                None => None,
            },
            error: match self.error {
                Some(e) => Some(e@),
                None => None,
            },
        }
    }
}

/// The error shown once the room was closed for `reason`.
pub open spec fn closed_message(reason: CloseReason) -> Seq<char> {
    "Room closed. Reason: "@ + close_reason_text(reason) + "."@
}

/// The state after `action`: an update replaces the room and keeps the
/// error; a close sets the error and keeps the room.
pub open spec fn reduced(st: RoomStateView, action: RoomAction) -> RoomStateView {
    match action {
        RoomAction::UpdateRoom(room) => RoomStateView { room: Some(room@), error: st.error },
        RoomAction::RoomClosed(reason) => RoomStateView {
            room: st.room,
            error: Some(closed_message(reason)),
        },
    }
}

impl RoomState {
    /// The page before anything was heard of a room.
    pub fn new() -> (st: RoomState)
        ensures
            st@.room is None,
            st@.error is None,
    {
        RoomState { room: None, error: None }
    }

    /// Applies `action`.
    pub fn reduce(self, action: RoomAction) -> (st: RoomState)
        ensures
            st@ == reduced(self@, action),
            action matches RoomAction::UpdateRoom(room) ==> st@.room == Some(room@),
    {
        match action {
            RoomAction::UpdateRoom(room) => RoomState { room: Some(room), error: self.error },
            RoomAction::RoomClosed(reason) => {
                let mut msg = owned("Room closed. Reason: ");
                let text = reason.to_string();
                msg.append(text.as_str());
                msg.append(".");
                RoomState { error: Some(msg), room: self.room }
            },
        }
    }
}

impl Default for RoomState {
    fn default() -> (st: RoomState)
        ensures
            st@.room is None,
            st@.error is None,
    {
        RoomState::new()
    }
}

/// An update followed by another leaves the page as the second alone
/// would, whatever came before.
pub proof fn lemma_last_update_wins(st: RoomStateView, a: Room, b: Room)
    ensures
        reduced(reduced(st, RoomAction::UpdateRoom(a)), RoomAction::UpdateRoom(b)) == reduced(
            st,
            RoomAction::UpdateRoom(b),
        ),
{
}

/// After an update the page shows the room exactly as the server sent it:
/// its id, game, leader and every member with its nickname.
pub proof fn lemma_update_shows_room(st: RoomStateView, room: Room)
    ensures
        reduced(st, RoomAction::UpdateRoom(room)).room == Some(room@),
        reduced(st, RoomAction::UpdateRoom(room)).room.unwrap().members == room@.members,
{
}

/// Once an error is shown, room updates never clear it.
pub proof fn lemma_error_stays(st: RoomStateView, room: Room)
    ensures
        reduced(st, RoomAction::UpdateRoom(room)).error == st.error,
{
}

/// Closing the room keeps the last room known, so the page can still say
/// which room it was.
pub proof fn lemma_close_keeps_room(st: RoomStateView, reason: CloseReason)
    ensures
        reduced(st, RoomAction::RoomClosed(reason)).room == st.room,
        reduced(st, RoomAction::RoomClosed(reason)).error == Some(closed_message(reason)),
{
}

} // verus!
