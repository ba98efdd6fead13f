//! The rooms a server holds: creating and joining them, handing out room
//! tokens, letting socket connections in, and applying what clients send.
use vstd::prelude::*;
use crate::auth::{create_token, jwt_hs256, room_not_found, room_not_found_message, AuthError, TOKEN_SECRET};
use crate::game::GameKind;
use crate::ids::{is_client_code, is_room_code, ClientId, RoomId};
use crate::messages::{Claims, ClientMsg, CreateRoomInput, JoinRoomInput, JoinRoomOutput, ServerMsg};
use crate::room::{
    has_member, lemma_add_member_map, lemma_member_map, member_map, unique_ids, MemberView, Room,
    RoomMember, RoomView,
};

verus! {

/// A client that holds a token for a room, and the socket connection it
/// currently has open, if any.
#[derive(Debug)]
pub struct ClientSlot {
    pub client_id: ClientId,
    pub connection: Option<u64>,
}

/// What a client slot is as a value.
pub type SlotView = (Seq<char>, Option<u64>);

impl View for ClientSlot {
    type V = SlotView;

    open spec fn view(&self) -> SlotView {
        (self.client_id@, self.connection)
    }
}

/// The slots as values, in the order the clients got their tokens.
pub open spec fn slots_view(s: Seq<ClientSlot>) -> Seq<SlotView> {
    s.map_values(|c: ClientSlot| c@)
}

/// What the server keeps of one room: the room itself and the clients that
/// hold a token for it.
#[derive(Debug)]
pub struct RoomState {
    pub room: Room,
    pub clients: Vec<ClientSlot>,
}

/// What a room's state is as a value.
pub struct RoomStateView {
    pub room: RoomView,
    pub clients: Seq<SlotView>,
}

impl View for RoomState {
    type V = RoomStateView;

    open spec fn view(&self) -> RoomStateView {
        RoomStateView { room: self.room@, clients: slots_view(self.clients@) }
    }
}

/// A room's state after client `client_id` joined it under `nickname`: the
/// client gets a slot without a connection, and becomes a member with that
/// nickname unless it already is one.
pub open spec fn joined(st: RoomStateView, client_id: Seq<char>, nickname: Seq<char>) -> RoomStateView {
    RoomStateView {
        room: RoomView {
            members: if has_member(st.room.members, client_id) {
                st.room.members
            } else {
                st.room.members.push((client_id, Some(nickname)))
            },
            ..st.room
        },
        clients: st.clients.push((client_id, None)),
    }
}

/// A room's state after the member `client_id` (if there is one) took the
/// nickname `nickname`.
pub open spec fn renamed(st: RoomStateView, client_id: Seq<char>, nickname: Seq<char>) -> RoomStateView {
    RoomStateView {
        room: RoomView {
            members: Seq::new(
                st.room.members.len(),
                |i: int|
                    if st.room.members[i].0 == client_id {
                        (client_id, Some(nickname))
                    } else {
                        st.room.members[i]
                    },
            ),
            ..st.room
        },
        clients: st.clients,
    }
}

/// The position of client `client_id` among `slots`, when it holds one.
pub open spec fn slot_of(slots: Seq<SlotView>, client_id: Seq<char>, i: int) -> bool {
    0 <= i < slots.len() && slots[i].0 == client_id
}

impl RoomState {
    /// The state of a new room that no client holds a token for yet.
    pub fn new(room: Room) -> (st: RoomState)
        requires
            room.wf(),
        ensures
            st.wf(),
            st@.room == room@,
            st@.clients == Seq::<SlotView>::empty(),
    {
        let st = RoomState { room, clients: Vec::new() };
        assert(slots_view(st.clients@) =~= Seq::<SlotView>::empty());
        st
    }

    /// No client is a member twice and no client holds two slots.
    pub open spec fn wf(&self) -> bool {
        &&& self.room.wf()
        &&& unique_ids(self@.clients)
    }

    /// The position of the slot of client `client_id`, if it holds one.
    pub fn find_client(&self, client_id: &ClientId) -> (r: Option<usize>)
        ensures
            r matches Some(i) ==> slot_of(self@.clients, client_id@, i as int),
            r is None <==> !has_member(self@.clients, client_id@),
    {
        let mut i: usize = 0;
        while i < self.clients.len()
            invariant
                i <= self.clients.len(),
                forall|k: int| 0 <= k < i ==> #[trigger] self@.clients[k].0 != client_id@,
            decreases self.clients.len() - i,
        {
            if self.clients[i].client_id.same_as(client_id) {
                assert(self@.clients[i as int].0 == client_id@);
                return Some(i);
            }
            i = i + 1;
        }
        assert(!has_member(self@.clients, client_id@)) by {
            if has_member(self@.clients, client_id@) {
                let k = choose|k: int| 0 <= k < self@.clients.len() && #[trigger] self@.clients[k].0 == client_id@;
                assert(self@.clients[k].0 != client_id@);
            }
        }
        None
    }

    /// Gives client `client_id` a slot and makes it a member under
    /// `nickname`, unless it already holds a slot; returns whether it did.
    fn enroll(&mut self, client_id: &ClientId, nickname: String) -> (enrolled: bool)
        requires
            old(self).wf(),
        ensures
            final(self).wf(),
            enrolled == !has_member(old(self)@.clients, client_id@),
            enrolled ==> final(self)@ == joined(old(self)@, client_id@, nickname@),
            !enrolled ==> final(self)@ == old(self)@,
    {
        if self.find_client(client_id).is_some() {
            return false;
        }
        let ghost before = self@;
        self.clients.push(ClientSlot { client_id: client_id.duplicate(), connection: None });
        assert(self@.clients =~= before.clients.push((client_id@, None)));
        assert(unique_ids(self@.clients)) by {
            assert forall|a: int, b: int|
                0 <= a < self@.clients.len() && 0 <= b < self@.clients.len() && a != b implies #[trigger] self@.clients[a].0
                != #[trigger] self@.clients[b].0 by {
                if a == before.clients.len() {
                    assert(before.clients[b].0 != client_id@);
                } else if b == before.clients.len() {
                    assert(before.clients[a].0 != client_id@);
                }
            }
        }
        let member = RoomMember { client_id: client_id.duplicate(), nickname: Some(nickname) };
        let _ = self.room.add_member(member);
        assert(self@.room =~= joined(before, client_id@, nickname@).room);
        true
    }

    /// Records `connection` as the open connection of client `client_id`,
    /// replacing the one it had; a client without a slot gets one. Returns
    /// the connection that was replaced.
    fn attach(&mut self, client_id: &ClientId, connection: u64) -> (previous: Option<u64>)
        requires
            old(self).wf(),
        ensures
            final(self).wf(),
            final(self)@.room == old(self)@.room,
            has_member(old(self)@.clients, client_id@) ==> exists|i: int|
                #[trigger] slot_of(old(self)@.clients, client_id@, i) && previous == old(self)@.clients[i].1
                    && final(self)@.clients == old(self)@.clients.update(
                    i,
                    (client_id@, Some(connection)),
                ),
            !has_member(old(self)@.clients, client_id@) ==> previous is None && final(self)@.clients
                == old(self)@.clients.push((client_id@, Some(connection))),
    {
        let ghost before = self@;
        match self.find_client(client_id) {
            Some(i) => {
                let previous = self.clients[i].connection;
                let slot = ClientSlot {
                    client_id: self.clients[i].client_id.duplicate(),
                    connection: Some(connection),
                };
                self.clients.set(i, slot);
                assert(self@.clients =~= before.clients.update(i as int, (client_id@, Some(connection))));
                assert(unique_ids(self@.clients)) by {
                    assert forall|a: int, b: int|
                        0 <= a < self@.clients.len() && 0 <= b < self@.clients.len() && a != b implies #[trigger] self@.clients[a].0
                        != #[trigger] self@.clients[b].0 by {
                        assert(self@.clients[a].0 == before.clients[a].0);
                        assert(self@.clients[b].0 == before.clients[b].0);
                    }
                }
                assert(slot_of(before.clients, client_id@, i as int));
                previous
            },
            None => {
                self.clients.push(
                    ClientSlot { client_id: client_id.duplicate(), connection: Some(connection) },
                );
                assert(self@.clients =~= before.clients.push((client_id@, Some(connection))));
                assert(unique_ids(self@.clients)) by {
                    assert forall|a: int, b: int|
                        0 <= a < self@.clients.len() && 0 <= b < self@.clients.len() && a != b implies #[trigger] self@.clients[a].0
                        != #[trigger] self@.clients[b].0 by {
                        if a == before.clients.len() {
                            assert(before.clients[b].0 != client_id@);
                        } else if b == before.clients.len() {
                            assert(before.clients[a].0 != client_id@);
                        }
                    }
                }
                None
            },
        }
    }
}

/// The ids of the rooms, in the order they were created.
pub open spec fn room_ids(rooms: Seq<RoomStateView>) -> Seq<Seq<char>> {
    rooms.map_values(|st: RoomStateView| st.room.id)
}

/// The position of room `room_id` among `rooms`.
pub open spec fn room_at(rooms: Seq<RoomStateView>, room_id: Seq<char>, k: int) -> bool {
    0 <= k < rooms.len() && rooms[k].room.id == room_id
}

/// Some room has id `room_id`.
pub open spec fn has_room(rooms: Seq<RoomStateView>, room_id: Seq<char>) -> bool {
    exists|k: int| #[trigger] room_at(rooms, room_id, k)
}

/// No room's id has the shape of a generated room code, so a fresh code
/// cannot be taken.
pub open spec fn holds_no_room_code(rooms: Seq<RoomStateView>) -> bool {
    forall|k: int| 0 <= k < rooms.len() ==> !is_room_code(#[trigger] rooms[k].room.id)
}

/// All rooms the server holds.
#[derive(Debug)]
pub struct RoomApiState {
    pub rooms: Vec<RoomState>,
}

/// The rooms as values.
pub open spec fn rooms_view(rooms: Seq<RoomState>) -> Seq<RoomStateView> {
    rooms.map_values(|st: RoomState| st@)
}

/// The state of a room just created with id `room_id` for `game`, led by
/// `leader`: the leader is its only member, without a nickname, and no
/// client holds a token yet.
pub open spec fn fresh_room(room_id: Seq<char>, game: GameKind, leader: Seq<char>) -> RoomStateView {
    RoomStateView {
        room: RoomView {
            id: room_id,
            game,
            members: seq![(leader, None::<Seq<char>>)],
            leader,
        },
        clients: Seq::empty(),
    }
}

/// What a successful join hands back: the room token and the answer body.
#[derive(Debug)]
pub struct JoinGrant {
    pub token: String,
    pub output: JoinRoomOutput,
}

/// Whether a socket connection is let in.
#[derive(Debug, PartialEq, Eq, Structural)]
pub enum ConnectDecision {
    /// The room of the token no longer exists: refused with 403 "Room has ended".
    RoomEnded,
    /// The token's client holds no slot in the room: answered 403 "Invalid token".
    InvalidToken,
    /// The connection may be upgraded to a socket.
    Accept,
}

/// What joining room `room_id` (at position `k` of `before`) as client
/// `client_id` under `nickname` does: a client that already holds a token
/// for the room is refused with `TokenCreation` and nothing changes; any
/// other client gets a slot and, unless already a member, becomes one with
/// that nickname, and receives its signed room token with the room as it
/// now is.
pub open spec fn join_outcome(
    before: Seq<RoomStateView>,
    after: Seq<RoomStateView>,
    k: int,
    client_id: Seq<char>,
    nickname: Seq<char>,
    room_id: Seq<char>,
    r: Result<JoinGrant, AuthError>,
) -> bool {
    if has_member(before[k].clients, client_id) {
        &&& r matches Err(e) && e is TokenCreation
        &&& after == before
    } else {
        &&& after == before.update(k, joined(before[k], client_id, nickname))
        &&& r matches Ok(g) && g.token@ == jwt_hs256(TOKEN_SECRET@, client_id, room_id)
            && g.output.room_id@ == room_id && g.output.room@ == after[k].room
    }
}

impl View for RoomApiState {
    type V = Seq<RoomStateView>;

    /// The rooms as values.
    open spec fn view(&self) -> Seq<RoomStateView> {
        rooms_view(self.rooms@)
    }
}

impl RoomApiState {
    /// A server without rooms.
    pub fn new() -> (s: RoomApiState)
        ensures
            s.wf(),
            s@ == Seq::<RoomStateView>::empty(),
    {
        let s = RoomApiState { rooms: Vec::new() };
        assert(rooms_view(s.rooms@) =~= Seq::<RoomStateView>::empty());
        s
    }

    /// Every room is well formed, and no two rooms have the same id.
    pub open spec fn wf(&self) -> bool {
        &&& forall|k: int| 0 <= k < self.rooms.len() ==> #[trigger] self.rooms[k].wf()
        &&& room_ids(self.view()).no_duplicates()
    }

    /// The position of room `room_id`, if the server holds it.
    pub fn find_room(&self, room_id: &RoomId) -> (r: Option<usize>)
        ensures
            r matches Some(k) ==> room_at(self.view(), room_id@, k as int),
            r is None <==> !has_room(self.view(), room_id@),
    {
        let mut k: usize = 0;
        while k < self.rooms.len()
            invariant
                k <= self.rooms.len(),
                forall|j: int| 0 <= j < k ==> #[trigger] self.view()[j].room.id != room_id@,
            decreases self.rooms.len() - k,
        {
            if self.rooms[k].room.id.same_as(room_id) {
                assert(room_at(self.view(), room_id@, k as int));
                return Some(k);
            }
            k = k + 1;
        }
        assert(!has_room(self.view(), room_id@)) by {
            if has_room(self.view(), room_id@) {
                let j = choose|j: int| #[trigger] room_at(self.view(), room_id@, j);
                assert(self.view()[j].room.id != room_id@);
            }
        }
        None
    }

    /// Creates a room with id `room_id` for `game_kind`, led by `leader`;
    /// fails with `TokenCreation`, changing nothing, when a room with that
    /// id exists: a taken id ends the request at once.
    pub fn create_room_with(&mut self, game_kind: GameKind, leader: ClientId, room_id: RoomId) -> (r: Result<RoomId, AuthError>)
        requires
            old(self).wf(),
        ensures
            final(self).wf(),
            has_room(old(self).view(), room_id@) ==> (r matches Err(e) && e is TokenCreation && final(self).view() == old(self).view()),
            !has_room(old(self).view(), room_id@) ==> (r matches Ok(id) && id@ == room_id@ && final(self).view() == old(self).view().push(
                fresh_room(room_id@, game_kind, leader@),
            )),
    {
        if self.find_room(&room_id).is_some() {
            return Err(AuthError::TokenCreation);
        }
        let ghost before = self.view();
        let id = room_id.duplicate();
        let room = Room::new(room_id, game_kind, leader);
        let st = RoomState::new(room);
        self.rooms.push(st);
        assert(self.view() =~= before.push(fresh_room(id@, game_kind, st@.room.leader)));
        proof {
            let ids = room_ids(self.view());
            assert(ids =~= room_ids(before).push(id@));
            assert forall|a: int, b: int| 0 <= a < ids.len() && 0 <= b < ids.len() && a != b implies ids[a] != ids[b] by {
                if a == before.len() {
                    assert(!room_at(before, id@, b));
                } else if b == before.len() {
                    assert(!room_at(before, id@, a));
                } else {
                    assert(room_ids(before)[a] != room_ids(before)[b]);
                }
            }
            assert forall|k: int| 0 <= k < self.rooms.len() implies #[trigger] self.rooms[k].wf() by {
                if k < before.len() {
                    assert(self.rooms[k] == old(self).rooms[k]);
                }
            }
        }
        Ok(id)
    }

    /// Creates a room for `game_kind` with a random leader and a random
    /// room code. Fails with `TokenCreation`, changing nothing, when the
    /// code drawn is taken; a taken code is not drawn again.
    pub fn create_room(&mut self, game_kind: GameKind) -> (r: Result<(RoomId, ClientId), AuthError>)
        requires
            old(self).wf(),
        ensures
            final(self).wf(),
            r matches Ok((id, leader)) ==> {
                &&& is_room_code(id@)
                &&& is_client_code(leader@)
                &&& !has_room(old(self).view(), id@)
                &&& final(self).view() == old(self).view().push(fresh_room(id@, game_kind, leader@))
            },
            r matches Err(e) ==> e is TokenCreation && final(self).view() == old(self).view(),
            holds_no_room_code(old(self).view()) ==> r is Ok,
    {
        let leader = ClientId::random();
        let leader_copy = leader.duplicate();
        let room_id = RoomId::random();
        match self.create_room_with(game_kind, leader, room_id) {
            Ok(id) => Ok((id, leader_copy)),
            Err(e) => Err(e),
        }
    }


    /// Lets client `client_id` into room `input.room_id` under
    /// `input.nickname` and signs its room token. `NotFound` when there is
    /// no such room and `TokenCreation` when the client already holds a
    /// token for it; in both cases nothing changes. Otherwise the client
    /// gets a slot and, unless it already is a member, becomes one with
    /// that nickname, and receives its signed room token.
    pub fn join_as(&mut self, client_id: ClientId, input: JoinRoomInput) -> (r: Result<JoinGrant, AuthError>)
        requires
            old(self).wf(),
        ensures
            final(self).wf(),
            !has_room(old(self).view(), input.room_id@) ==> (r matches Err(e) && e matches AuthError::NotFound(m) && m@ == room_not_found_message(
                input.room_id@,
            ) && final(self).view() == old(self).view()),
            forall|k: int| #[trigger] room_at(old(self).view(), input.room_id@, k) ==> join_outcome(
                old(self).view(),
                final(self).view(),
                k,
                client_id@,
                input.nickname@,
                input.room_id@,
                r,
            ),
            forall|k: int|
                #[trigger] room_at(old(self).view(), input.room_id@, k) && !has_member(old(self).view()[k].clients, client_id@)
                    && !has_member(old(self).view()[k].room.members, client_id@) ==> member_map(
                    final(self).view()[k].room.members,
                )[client_id@] == Some(input.nickname@),
    {
        let k = match self.find_room(&input.room_id) {
            None => {
                return Err(AuthError::NotFound(room_not_found(&input.room_id)));
            },
            Some(k) => k,
        };
        let ghost before = self.view();
        proof {
            lemma_room_position_unique(before, input.room_id@, k as int);
        }
        let JoinRoomInput { room_id, nickname } = input;
        let mut st = self.rooms.remove(k);
        let enrolled = st.enroll(&client_id, nickname);
        let room = st.room.duplicate();
        self.rooms.insert(k, st);
        proof {
            lemma_put_back(old(self).rooms@, self.rooms@, k as int, self.rooms[k as int]);
        }
        if !enrolled {
            assert(self.view() =~= before);
            return Err(AuthError::TokenCreation);
        }
        proof {
            lemma_join_sets_nickname(before[k as int], client_id@, input.nickname@);
        }
        let claims = Claims { sub: client_id, room_id: room_id.duplicate() };
        let token = match create_token(&claims) {
            Ok(t) => t,
            Err(e) => {
                return Err(e);
            },
        };
        Ok(JoinGrant { token, output: JoinRoomOutput { room_id, room } })
    }

    /// The decision on a socket connection that presents `claims`.
    pub fn connect_decision(&self, claims: &Claims) -> (d: ConnectDecision)
        requires
            self.wf(),
        ensures
            !has_room(self.view(), claims.room_id@) ==> d == ConnectDecision::RoomEnded,
            forall|k: int| #[trigger] room_at(self.view(), claims.room_id@, k) ==> d == (if has_member(
                self.view()[k].clients,
                claims.sub@,
            ) {
                ConnectDecision::Accept
            } else {
                ConnectDecision::InvalidToken
            }),
    {
        match self.find_room(&claims.room_id) {
            None => ConnectDecision::RoomEnded,
            Some(k) => {
                proof {
                    lemma_room_position_unique(self.view(), claims.room_id@, k as int);
                }
                if self.rooms[k].find_client(&claims.sub).is_some() {
                    ConnectDecision::Accept
                } else {
                    ConnectDecision::InvalidToken
                }
            },
        }
    }

    /// Records that client `client_id` of room `room_id` opened socket
    /// connection `connection`; returns the connection it replaces, which
    /// is to be closed. Nothing changes when the room does not exist.
    pub fn attach_connection(&mut self, room_id: &RoomId, client_id: &ClientId, connection: u64) -> (previous: Option<u64>)
        requires
            old(self).wf(),
        ensures
            final(self).wf(),
            !has_room(old(self).view(), room_id@) ==> previous is None && final(self).view() == old(self).view(),
            forall|k: int| #[trigger] room_at(old(self).view(), room_id@, k) ==> {
                &&& final(self).view().len() == old(self).view().len()
                &&& forall|j: int| 0 <= j < old(self).view().len() && j != k ==> #[trigger] final(self).view()[j] == old(self).view()[j]
                &&& final(self).view()[k].room == old(self).view()[k].room
                &&& has_member(old(self).view()[k].clients, client_id@) ==> exists|i: int|
                    #[trigger] slot_of(old(self).view()[k].clients, client_id@, i) && previous == old(self).view()[k].clients[i].1
                        && final(self).view()[k].clients == old(self).view()[k].clients.update(
                        i,
                        (client_id@, Some(connection)),
                    )
                &&& !has_member(old(self).view()[k].clients, client_id@) ==> previous is None
                    && final(self).view()[k].clients == old(self).view()[k].clients.push(
                    (client_id@, Some(connection)),
                )
            },
    {
        let k = match self.find_room(room_id) {
            None => {
                return None;
            },
            Some(k) => k,
        };
        let ghost before = self.view();
        proof {
            lemma_room_position_unique(before, room_id@, k as int);
        }
        let mut st = self.rooms.remove(k);
        let previous = st.attach(client_id, connection);
        self.rooms.insert(k, st);
        proof {
            lemma_put_back(old(self).rooms@, self.rooms@, k as int, self.rooms[k as int]);
        }
        previous
    }

    /// The update that tells every client of room `room_id` what the room
    /// now is; `None` when the room does not exist.
    pub fn room_update(&self, room_id: &RoomId) -> (m: Option<ServerMsg>)
        requires
            self.wf(),
        ensures
            !has_room(self.view(), room_id@) ==> m is None,
            forall|k: int| #[trigger] room_at(self.view(), room_id@, k) ==> (m matches Some(ServerMsg::RoomUpdate(room)) && room@ == self.view()[k].room),
    {
        match self.find_room(room_id) {
            None => None,
            Some(k) => {
                proof {
                    lemma_room_position_unique(self.view(), room_id@, k as int);
                }
                Some(ServerMsg::RoomUpdate(self.rooms[k].room.duplicate()))
            },
        }
    }

    /// Applies what client `client_id` sent on its socket to room
    /// `room_id`. A new nickname renames that member (nothing changes for a
    /// client that is not a member) and marks the room changed, so the
    /// update to broadcast is returned. `None` when the room does not exist.
    pub fn apply_client_msg(&mut self, room_id: &RoomId, client_id: &ClientId, msg: ClientMsg) -> (update: Option<ServerMsg>)
        requires
            old(self).wf(),
        ensures
            final(self).wf(),
            !has_room(old(self).view(), room_id@) ==> update is None && final(self).view() == old(self).view(),
            forall|k: int| #[trigger] room_at(old(self).view(), room_id@, k) ==> {
                match msg {
                    ClientMsg::SetNickname(name) => {
                        &&& final(self).view() == old(self).view().update(
                            k,
                            renamed(old(self).view()[k], client_id@, name@),
                        )
                        &&& update matches Some(ServerMsg::RoomUpdate(room)) && room@ == final(self).view()[k].room
                        &&& has_member(old(self).view()[k].room.members, client_id@) ==> member_map(
                            final(self).view()[k].room.members,
                        )[client_id@] == Some(name@)
                    },
                }
            },
    {
        let k = match self.find_room(room_id) {
            None => {
                return None;
            },
            Some(k) => k,
        };
        let ghost before = self.view();
        proof {
            lemma_room_position_unique(before, room_id@, k as int);
        }
        match msg {
            ClientMsg::SetNickname(name) => {
                let ghost nick = name@;
                assert(self.rooms[k as int].wf());
                let mut st = self.rooms.remove(k);
                let ghost st0 = st@;
                let _ = st.room.set_nickname(client_id, name);
                proof {
                    lemma_rename_unique(st0.room.members, st@.room.members, client_id@, nick);
                }
                let room = st.room.duplicate();
                self.rooms.insert(k, st);
                proof {
                    lemma_put_back(old(self).rooms@, self.rooms@, k as int, self.rooms[k as int]);
                    let want = renamed(before[k as int], client_id@, nick);
                    assert(before[k as int] == st0);
                    assert(self.rooms[k as int]@.room.members =~= want.room.members);
                    assert(self.rooms[k as int]@.room == want.room);
                    assert(self.rooms[k as int]@.clients == want.clients);
                    assert(self.rooms[k as int]@ == want);
                    lemma_rename_sets_nickname(st0, client_id@, nick);
                }
                Some(ServerMsg::RoomUpdate(room))
            },
        }
    }
}

/// A room id occurs at one position at most.
proof fn lemma_room_position_unique(rooms: Seq<RoomStateView>, room_id: Seq<char>, k: int)
    requires
        room_ids(rooms).no_duplicates(),
        room_at(rooms, room_id, k),
    ensures
        forall|j: int| #[trigger] room_at(rooms, room_id, j) ==> j == k,
{
    assert forall|j: int| #[trigger] room_at(rooms, room_id, j) implies j == k by {
        if j != k {
            assert(room_ids(rooms)[j] == room_ids(rooms)[k]);
        }
    }
}

/// Taking the room at `k` out and putting back a well-formed room with the
/// same id replaces it there, and keeps the rooms well formed.
proof fn lemma_put_back(before: Seq<RoomState>, after: Seq<RoomState>, k: int, st: RoomState)
    requires
        0 <= k < before.len(),
        after == before.remove(k).insert(k, st),
        st@.room.id == before[k]@.room.id,
        st.wf(),
        forall|j: int| 0 <= j < before.len() ==> #[trigger] before[j].wf(),
        room_ids(rooms_view(before)).no_duplicates(),
    ensures
        after == before.update(k, st),
        rooms_view(after) == rooms_view(before).update(k, st@),
        room_ids(rooms_view(after)).no_duplicates(),
        forall|j: int| 0 <= j < after.len() ==> #[trigger] after[j].wf(),
{
    assert(after =~= before.update(k, st));
    assert(rooms_view(after) =~= rooms_view(before).update(k, st@));
    assert(room_ids(rooms_view(after)) =~= room_ids(rooms_view(before)));
    assert forall|j: int| 0 <= j < after.len() implies #[trigger] after[j].wf() by {
        if j != k {
            assert(after[j] == before[j]);
        }
    }
}

/// Setting the nickname of the member with id `k` (when there is one) in a
/// list without repeated ids is the pointwise renaming.
proof fn lemma_rename_unique(before: Seq<MemberView>, after: Seq<MemberView>, k: Seq<char>, nick: Seq<char>)
    requires
        unique_ids(before),
        has_member(before, k) ==> exists|i: int|
            0 <= i < before.len() && before[i].0 == k && after == #[trigger] before.update(i, (k, Some(nick))),
        !has_member(before, k) ==> after == before,
    ensures
        after =~= Seq::new(
            before.len(),
            |i: int|
                if before[i].0 == k {
                    (k, Some(nick))
                } else {
                    before[i]
                },
        ),
{
    if has_member(before, k) {
        let i = choose|i: int| 0 <= i < before.len() && before[i].0 == k && after == #[trigger] before.update(i, (k, Some(nick)));
        assert forall|j: int| 0 <= j < before.len() && j != i implies before[j].0 != k by {
            assert(before[j].0 != before[i].0);
        }
    } else {
        assert forall|j: int| 0 <= j < before.len() implies before[j].0 != k by {
            if before[j].0 == k {
                assert(has_member(before, k));
            }
        }
    }
}

/// After a client joined a room it holds a slot there and is a member;
/// the members it found there keep their nicknames.
pub proof fn lemma_joined_is_member(st: RoomStateView, client_id: Seq<char>, nickname: Seq<char>)
    ensures
        has_member(joined(st, client_id, nickname).clients, client_id),
        has_member(joined(st, client_id, nickname).room.members, client_id),
        forall|i: int| 0 <= i < st.room.members.len() ==> #[trigger] joined(st, client_id, nickname).room.members[i]
            == st.room.members[i],
{
    let after = joined(st, client_id, nickname);
    assert(after.clients[st.clients.len() as int].0 == client_id);
    if !has_member(st.room.members, client_id) {
        assert(after.room.members[st.room.members.len() as int].0 == client_id);
    }
}

/// Renaming touches no member but the one renamed, and leaves the slots,
/// the room's id, game and leader as they were.
pub proof fn lemma_rename_touches_one(st: RoomStateView, client_id: Seq<char>, nickname: Seq<char>)
    ensures
        renamed(st, client_id, nickname).clients == st.clients,
        renamed(st, client_id, nickname).room.id == st.room.id,
        renamed(st, client_id, nickname).room.leader == st.room.leader,
        renamed(st, client_id, nickname).room.members.len() == st.room.members.len(),
        forall|i: int|
            0 <= i < st.room.members.len() && st.room.members[i].0 != client_id ==> #[trigger] renamed(
                st,
                client_id,
                nickname,
            ).room.members[i] == st.room.members[i],
        has_member(st.room.members, client_id) ==> has_member(renamed(st, client_id, nickname).room.members, client_id),
{
    if has_member(st.room.members, client_id) {
        let i = choose|i: int| 0 <= i < st.room.members.len() && #[trigger] st.room.members[i].0 == client_id;
        assert(renamed(st, client_id, nickname).room.members[i].0 == client_id);
    }
}

/// Renaming sets the nickname of the renamed member to the new name,
/// whatever nickname it had before (none or another one): in the member
/// list, and so in the map from member to nickname.
pub proof fn lemma_rename_sets_nickname(st: RoomStateView, client_id: Seq<char>, nickname: Seq<char>)
    ensures
        forall|i: int|
            0 <= i < st.room.members.len() && st.room.members[i].0 == client_id ==> #[trigger] renamed(
                st,
                client_id,
                nickname,
            ).room.members[i] == (client_id, Some(nickname)),
        unique_ids(st.room.members) ==> unique_ids(renamed(st, client_id, nickname).room.members),
        unique_ids(st.room.members) && has_member(st.room.members, client_id) ==> member_map(
            renamed(st, client_id, nickname).room.members,
        )[client_id] == Some(nickname),
{
    let ms = st.room.members;
    let after = renamed(st, client_id, nickname).room.members;
    assert forall|i: int| 0 <= i < ms.len() implies #[trigger] after[i].0 == ms[i].0 by {}
    if unique_ids(ms) {
        assert forall|a: int, b: int| 0 <= a < after.len() && 0 <= b < after.len() && a != b implies #[trigger] after[a].0
            != #[trigger] after[b].0 by {
            assert(after[a].0 == ms[a].0);
            assert(after[b].0 == ms[b].0);
        }
        if has_member(ms, client_id) {
            let i = choose|i: int| 0 <= i < ms.len() && #[trigger] ms[i].0 == client_id;
            lemma_member_map(after);
            assert(after[i] == (client_id, Some(nickname)));
            assert(member_map(after)[after[i].0] == after[i].1);
        }
    }
}

/// A client that joins a room it was not a member of becomes a member
/// under the nickname it joined with, whatever slots the room already
/// holds: every entry with its id carries that nickname, and the map from
/// member to nickname gains exactly that entry.
pub proof fn lemma_join_sets_nickname(st: RoomStateView, client_id: Seq<char>, nickname: Seq<char>)
    ensures
        !has_member(st.room.members, client_id) ==> forall|i: int|
            0 <= i < joined(st, client_id, nickname).room.members.len() && #[trigger] joined(
                st,
                client_id,
                nickname,
            ).room.members[i].0 == client_id ==> joined(st, client_id, nickname).room.members[i].1 == Some(nickname),
        !has_member(st.room.members, client_id) ==> member_map(joined(st, client_id, nickname).room.members)
            == member_map(st.room.members).insert(client_id, Some(nickname)),
{
    let ms = st.room.members;
    if !has_member(ms, client_id) {
        let after = joined(st, client_id, nickname).room.members;
        assert(after == ms.push((client_id, Some(nickname))));
        assert forall|i: int| 0 <= i < after.len() && #[trigger] after[i].0 == client_id implies after[i].1 == Some(nickname) by {
            if i < ms.len() {
                assert(ms[i].0 == client_id);
                assert(has_member(ms, client_id));
            }
        }
        lemma_add_member_map(ms, (client_id, Some(nickname)));
    }
}

/// Answers a request to create a room: creates it for `input.game_kind`,
/// then lets its leader in under `input.nickname`, as a join would.
/// (The leader is already a member, without a nickname, so it keeps none.)
pub fn create_room(state: &mut RoomApiState, input: CreateRoomInput) -> (r: Result<JoinGrant, AuthError>)
    requires
        old(state).wf(),
    ensures
        final(state).wf(),
        r matches Err(e) ==> e is TokenCreation && final(state).view() == old(state).view(),
        holds_no_room_code(old(state).view()) ==> r is Ok,
        r matches Ok(g) ==> {
            &&& is_room_code(g.output.room_id@)
            &&& is_client_code(g.output.room@.leader)
            &&& !has_room(old(state).view(), g.output.room_id@)
            &&& final(state).view() == old(state).view().push(
                joined(fresh_room(g.output.room_id@, input.game_kind, g.output.room@.leader), g.output.room@.leader, input.nickname@),
            )
            &&& g.token@ == jwt_hs256(TOKEN_SECRET@, g.output.room@.leader, g.output.room_id@)
            &&& g.output.room@ == final(state).view().last().room
        },
{
    let CreateRoomInput { game_kind, nickname } = input;
    let ghost before = state.view();
    let (room_id, leader) = match state.create_room(game_kind) {
        Ok(p) => p,
        Err(e) => {
            return Err(e);
        },
    };
    let ghost mid = state.view();
    let ghost lid = leader@;
    let ghost nick = nickname@;
    assert(room_at(mid, room_id@, before.len() as int));
    let join_input = JoinRoomInput { room_id, nickname };
    let r = join_room_impl(state, Some(leader), join_input);
    proof {
        assert(has_member(fresh_room(room_id@, game_kind, lid).room.members, lid)) by {
            assert(fresh_room(room_id@, game_kind, lid).room.members[0].0 == lid);
        }
        assert(!has_member(fresh_room(room_id@, game_kind, lid).clients, lid));
        assert(join_outcome(mid, state.view(), before.len() as int, lid, nick, room_id@, r));
    }
    r
}

/// Answers a request to join room `input.room_id` as a new client with a
/// random id.
pub fn join_room(state: &mut RoomApiState, input: JoinRoomInput) -> (r: Result<JoinGrant, AuthError>)
    requires
        old(state).wf(),
    ensures
        final(state).wf(),
        !has_room(old(state).view(), input.room_id@) ==> (r matches Err(e) && e matches AuthError::NotFound(m) && m@ == room_not_found_message(
            input.room_id@,
        ) && final(state).view() == old(state).view()),
        has_room(old(state).view(), input.room_id@) ==> exists|k: int, cid: Seq<char>|
            room_at(old(state).view(), input.room_id@, k) && is_client_code(cid) && #[trigger] join_outcome(
                old(state).view(),
                final(state).view(),
                k,
                cid,
                input.nickname@,
                input.room_id@,
                r,
            ),
        r matches Err(e) ==> (e is TokenCreation || e is NotFound),
{
    if state.find_room(&input.room_id).is_none() {
        return Err(AuthError::NotFound(room_not_found(&input.room_id)));
    }
    join_room_impl(state, None, input)
}

/// Lets a client into a room: the given client, or a new one with a
/// random id. See [`RoomApiState::join_as`].
pub fn join_room_impl(state: &mut RoomApiState, given_client_id: Option<ClientId>, input: JoinRoomInput) -> (r: Result<JoinGrant, AuthError>)
    requires
        old(state).wf(),
    ensures
        final(state).wf(),
        !has_room(old(state).view(), input.room_id@) ==> (r matches Err(e) && e matches AuthError::NotFound(m) && m@ == room_not_found_message(
            input.room_id@,
        ) && final(state).view() == old(state).view()),
        given_client_id matches Some(c) ==> forall|k: int| #[trigger] room_at(old(state).view(), input.room_id@, k) ==> join_outcome(
            old(state).view(),
            final(state).view(),
            k,
            c@,
            input.nickname@,
            input.room_id@,
            r,
        ),
        has_room(old(state).view(), input.room_id@) ==> exists|k: int, cid: Seq<char>|
            room_at(old(state).view(), input.room_id@, k) && (given_client_id is None ==> is_client_code(cid)) && #[trigger] join_outcome(
                old(state).view(),
                final(state).view(),
                k,
                cid,
                input.nickname@,
                input.room_id@,
                r,
            ),
        r matches Err(e) ==> (e is TokenCreation || e is NotFound),
{
    let client_id = match given_client_id {
        Some(c) => c,
        None => ClientId::random(),
    };
    let ghost cid = client_id@;
    let ghost rid = input.room_id@;
    let ghost nick = input.nickname@;
    let ghost before = state.view();
    let r = state.join_as(client_id, input);
    proof {
        if has_room(before, rid) {
            let k = choose|k: int| #[trigger] room_at(before, rid, k);
            assert(room_at(before, rid, k));
            assert(join_outcome(before, state.view(), k, cid, nick, rid, r));
        }
    }
    r
}

} // verus!
