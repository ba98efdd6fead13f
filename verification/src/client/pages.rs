//! The decisions of the client's pages: which screen the room page shows,
//! what the create and join forms send, what a name plate says, and what
//! the Gecko page makes of the server's answer.
use vstd::prelude::*;
use vstd::string::StringExecFns;
use crate::client::reducer::{RoomAction, RoomState};
use crate::game::{GameKind, Topic};
use crate::ids::{ClientId, RoomId};
use crate::messages::{CreateRoomInput, JoinRoomInput, JoinRoomOutput};
use crate::room::{duplicate_opt, has_member, opt_view, Room};
use crate::text::{decimal, owned, push_decimal};

verus! {

/// How the player chose to enter a room.
#[derive(Debug, Clone, Copy, PartialEq, Eq, Structural)]
pub enum JoinKind {
    /// Create a new room.
    Create,
    /// Join an existing room.
    Join,
}

/// What the room page shows.
#[derive(Debug)]
pub enum RoomScreen {
    /// An alert with the error and a button back home.
    Error(String),
    /// The lobby of the room.
    Lobby(Room),
    /// The buttons to create or to join a room.
    Chooser,
    /// The form that creates a room.
    CreateForm,
    /// The form that joins a room.
    JoinForm,
}

/// An error wins over a room; without either, the player's choice decides.
pub fn room_page(state: &RoomState, join_kind: Option<JoinKind>) -> (s: RoomScreen)
    ensures
        match (state@.error, state@.room) {
            (Some(e), _) => s matches RoomScreen::Error(m) && m@ == e,
            (None, Some(r)) => s matches RoomScreen::Lobby(l) && l@ == r,
            (None, None) => match join_kind {
                None => s is Chooser,
                Some(JoinKind::Create) => s is CreateForm,
                Some(JoinKind::Join) => s is JoinForm,
            },
        },
{
    match &state.error {
        Some(e) => RoomScreen::Error(e.clone()),
        None => match &state.room {
            Some(room) => RoomScreen::Lobby(room.duplicate()),
            None => match join_kind {
                None => RoomScreen::Chooser,
                Some(JoinKind::Create) => RoomScreen::CreateForm,
                Some(JoinKind::Join) => RoomScreen::JoinForm,
            },
        },
    }
}

/// The room socket is opened only once a room was loaded, since only then
/// does the client hold a room token.
pub fn should_connect(state: &RoomState) -> (b: bool)
    ensures
        b == state@.room is Some,
{
    state.room.is_some()
}

/// What the create form sends: nothing until a game is chosen.
pub fn create_room_input(selected: Option<GameKind>, nickname: &str) -> (r: Option<CreateRoomInput>)
    ensures
        match selected {
            None => r is None,
            Some(g) => r matches Some(i) && i.game_kind == g && i.nickname@ == nickname@,
        },
{
    match selected {
        None => None,
        Some(game_kind) => Some(CreateRoomInput { game_kind, nickname: owned(nickname) }),
    }
}

/// What the join form sends: nothing while the room code is empty.
pub fn join_room_input(room_code: &str, nickname: &str) -> (r: Option<JoinRoomInput>)
    ensures
        room_code@.len() == 0 ==> r is None,
        room_code@.len() > 0 ==> (r matches Some(i) && i.room_id@ == room_code@ && i.nickname@ == nickname@),
{
    if room_code.is_empty() {
        None
    } else {
        Some(JoinRoomInput { room_id: RoomId(owned(room_code)), nickname: owned(nickname) })
    }
}

/// What a create or join answer does to the room page: a room to show, or
/// nothing (the failure is only logged).
pub fn after_join<E>(r: Result<JoinRoomOutput, E>) -> (a: Option<RoomAction>)
    ensures
        match r {
            Ok(o) => a == Some(RoomAction::UpdateRoom(o.room)),
            Err(_) => a is None,
        },
{
    match r {
        Ok(output) => Some(RoomAction::UpdateRoom(output.room)),
        Err(_) => None,
    }
}

/// The nickname a name plate has for `client_id`: `None` when the room has
/// no such member or the member has no nickname.
pub fn name_plate(room: &Room, client_id: &ClientId) -> (name: Option<String>)
    requires
        room.wf(),
    ensures
        !has_member(room@.members, client_id@) ==> name is None,
        forall|i: int| 0 <= i < room@.members.len() && #[trigger] room@.members[i].0 == client_id@ ==> opt_view(name)
            == room@.members[i].1,
{
    match room.find_member(client_id) {
        Some(i) => duplicate_opt(&room.members[i].nickname),
        None => None,
    }
}

/// What a name plate says: the nickname, or "Unknown".
pub fn name_plate_label(name: Option<String>) -> (label: String)
    ensures
        label@ == match name {
            Some(n) => n@,
            None => "Unknown"@,
        },
{
    match name {
        Some(n) => n,
        None => owned("Unknown"),
    }
}

/// The parts of the server's answer to a topic request that the page
/// looks at.
#[derive(Debug)]
pub struct TopicReply {
    pub ok: bool,
    pub status: u16,
    pub status_text: String,
    /// The body read as a topic, or why it could not be.
    pub topic: Result<Topic, String>,
}

/// The message shown when the server answered with an error status.
pub open spec fn fetch_error_message(status: u16, status_text: Seq<char>) -> Seq<char> {
    "Error fetching data "@ + decimal(status as nat) + " ("@ + status_text + ")"@
}

/// The topic of a successful answer; the answer's error status, or the
/// reason the request or the reading failed, otherwise.
pub fn fetch_topic_outcome(reply: Result<TopicReply, String>) -> (r: Result<Topic, String>)
    ensures
        match reply {
            Err(e) => r matches Err(m) && m@ == e@,
            Ok(rep) => if rep.ok {
                r == rep.topic
            } else {
                r matches Err(m) && m@ == fetch_error_message(rep.status, rep.status_text@)
            },
        },
{
    match reply {
        Err(e) => Err(e),
        Ok(rep) => {
            if rep.ok {
                rep.topic
            } else {
                let mut m = owned("Error fetching data ");
                push_decimal(&mut m, rep.status as u64);
                m.append(" (");
                m.append(rep.status_text.as_str());
                m.append(")");
                Err(m)
            }
        },
    }
}

/// The text the Gecko page shows when fetching a topic failed.
pub fn topic_error_text(err: &str) -> (t: String)
    ensures
        t@ == "An error occurred fetching topic from server"@ + err@,
{
    let mut t = owned("An error occurred fetching topic from server");
    t.append(err);
    t
}

/// What the Gecko page shows in place of its card.
#[derive(Debug)]
pub enum GeckoCard {
    /// No topic was asked for yet.
    Nothing,
    /// The card of the topic that came.
    Card(Topic),
    /// Why no topic came.
    Error(String),
}

/// The card the Gecko page shows for the outcome of its last topic
/// request, if it made one.
pub fn gecko_card(outcome: Option<Result<Topic, String>>) -> (c: GeckoCard)
    ensures
        match outcome {
            None => c is Nothing,
            Some(Ok(t)) => c == GeckoCard::Card(t),
            Some(Err(e)) => c matches GeckoCard::Error(m) && m@ == "An error occurred fetching topic from server"@ + e@,
        },
{
    match outcome {
        None => GeckoCard::Nothing,
        Some(Ok(t)) => GeckoCard::Card(t),
        Some(Err(e)) => GeckoCard::Error(topic_error_text(e.as_str())),
    }
}

} // verus!
