//! A room and its members.
use vstd::prelude::*;
use crate::game::GameKind;
use crate::ids::{ClientId, RoomId};

verus! {

/// What a member is as a value: its client id and its nickname.
pub type MemberView = (Seq<char>, Option<Seq<char>>);

/// The characters of an optional string.
pub open spec fn opt_view(o: Option<String>) -> Option<Seq<char>> {
    match o {
        Some(s) => Some(s@),
        None => None,
    }
}

/// A copy of an optional string.
pub fn duplicate_opt(o: &Option<String>) -> (r: Option<String>)
    ensures
        opt_view(r) == opt_view(*o),
{
    match o {
        Some(s) => Some(s.clone()),
        None => None,
    }
}

/// A player in a room.
#[derive(Debug)]
pub struct RoomMember {
    pub client_id: ClientId,
    pub nickname: Option<String>,
}

impl View for RoomMember {
    type V = MemberView;

    open spec fn view(&self) -> MemberView {
        (self.client_id@, opt_view(self.nickname))
    }
}

impl RoomMember {
    /// A member without a nickname.
    pub fn new(client_id: ClientId) -> (m: RoomMember)
        ensures
            m@ == (client_id@, None::<Seq<char>>),
    {
        RoomMember { client_id, nickname: None }
    }

    /// A copy of this member.
    pub fn duplicate(&self) -> (m: RoomMember)
        ensures
            m@ == self@,
    {
        RoomMember { client_id: self.client_id.duplicate(), nickname: duplicate_opt(&self.nickname) }
    }
}

/// The members as values, in the order they joined.
pub open spec fn members_view(ms: Seq<RoomMember>) -> Seq<MemberView> {
    ms.map_values(|m: RoomMember| m@)
}

/// No client id occurs twice.
pub open spec fn unique_ids<V>(ms: Seq<(Seq<char>, V)>) -> bool {
    forall|i: int, j: int| 0 <= i < ms.len() && 0 <= j < ms.len() && i != j ==> #[trigger] ms[i].0 != #[trigger] ms[j].0
}

/// Some entry has client id `k`.
pub open spec fn has_member<V>(ms: Seq<(Seq<char>, V)>, k: Seq<char>) -> bool {
    exists|i: int| 0 <= i < ms.len() && #[trigger] ms[i].0 == k
}

/// The members as a map from client id to nickname.
pub open spec fn member_map(ms: Seq<MemberView>) -> Map<Seq<char>, Option<Seq<char>>>
    decreases ms.len(),
{
    if ms.len() == 0 {
        Map::empty()
    } else {
        member_map(ms.drop_last()).insert(ms.last().0, ms.last().1)
    }
}

/// The member map knows exactly the members, and for unique ids gives each
/// member's nickname.
pub proof fn lemma_member_map(ms: Seq<MemberView>)
    ensures
        forall|k: Seq<char>| #[trigger] member_map(ms).contains_key(k) <==> has_member(ms, k),
        unique_ids(ms) ==> forall|i: int| 0 <= i < ms.len() ==> #[trigger] member_map(ms)[ms[i].0] == ms[i].1,
    decreases ms.len(),
{
    if ms.len() > 0 {
        let init = ms.drop_last();
        let last = ms[ms.len() - 1];
        assert(ms.last() == last);
        lemma_member_map(init);
        assert(member_map(ms) == member_map(init).insert(last.0, last.1));
        assert forall|k: Seq<char>| #[trigger] member_map(ms).contains_key(k) <==> has_member(ms, k) by {
            if has_member(ms, k) {
                let i = choose|i: int| 0 <= i < ms.len() && #[trigger] ms[i].0 == k;
                if i < ms.len() - 1 {
                    assert(init[i].0 == k);
                    assert(has_member(init, k));
                } else {
                    assert(k == last.0);
                }
            }
            if member_map(ms).contains_key(k) {
                if k == last.0 {
                    assert(ms[ms.len() - 1].0 == k);
                } else {
                    assert(member_map(init).contains_key(k));
                    assert(has_member(init, k));
                    let i = choose|i: int| 0 <= i < init.len() && #[trigger] init[i].0 == k;
                    assert(ms[i].0 == k);
                }
            }
        }
        if unique_ids(ms) {
            assert(unique_ids(init)) by {
                assert forall|i: int, j: int| 0 <= i < init.len() && 0 <= j < init.len() && i != j implies #[trigger] init[i].0 != #[trigger] init[j].0 by {
                    assert(ms[i].0 != ms[j].0);
                }
            }
            assert forall|i: int| 0 <= i < ms.len() implies #[trigger] member_map(ms)[ms[i].0] == ms[i].1 by {
                if i < ms.len() - 1 {
                    assert(init[i] == ms[i]);
                    assert(ms[i].0 != ms[ms.len() - 1].0);
                    assert(member_map(init)[init[i].0] == init[i].1);
                }
            }
        }
    }
}

/// A room: which game it hosts, who is in it, and who leads it.
#[derive(Debug)]
pub struct Room {
    pub id: RoomId,
    pub game: GameKind,
    pub members: Vec<RoomMember>,
    pub leader: ClientId,
}

/// What a room is as a value.
pub struct RoomView {
    pub id: Seq<char>,
    pub game: GameKind,
    pub members: Seq<MemberView>,
    pub leader: Seq<char>,
}

impl View for Room {
    type V = RoomView;

    open spec fn view(&self) -> RoomView {
        RoomView {
            id: self.id@,
            game: self.game,
            members: members_view(self.members@),
            leader: self.leader@,
        }
    }
}

impl Room {
    /// The room is well formed: no client is a member twice.
    pub open spec fn wf(&self) -> bool {
        unique_ids(self@.members)
    }

    /// A room whose only member is its leader, without a nickname.
    pub fn new(id: RoomId, game: GameKind, leader: ClientId) -> (room: Room)
        ensures
            room.wf(),
            room@.id == id@,
            room@.game == game,
            room@.leader == leader@,
            room@.members == seq![(leader@, None::<Seq<char>>)],
    {
        let mut members: Vec<RoomMember> = Vec::new();
        members.push(RoomMember::new(leader.duplicate()));
        let room = Room { id, game, members, leader };
        assert(members_view(room.members@) =~= seq![(room.leader@, None::<Seq<char>>)]);
        room
    }

    /// The position of the member with client id `client_id`, if any.
    pub fn find_member(&self, client_id: &ClientId) -> (r: Option<usize>)
        ensures
            r matches Some(i) ==> i < self.members.len() && self@.members[i as int].0 == client_id@,
            r is None <==> !has_member(self@.members, client_id@),
    {
        let mut i: usize = 0;
        while i < self.members.len()
            invariant
                i <= self.members.len(),
                forall|k: int| 0 <= k < i ==> #[trigger] self@.members[k].0 != client_id@,
            decreases self.members.len() - i,
        {
            if self.members[i].client_id.same_as(client_id) {
                assert(self@.members[i as int].0 == client_id@);
                return Some(i);
            }
            i = i + 1;
        }
        assert(!has_member(self@.members, client_id@)) by {
            if has_member(self@.members, client_id@) {
                let k = choose|k: int| 0 <= k < self@.members.len() && #[trigger] self@.members[k].0 == client_id@;
                assert(self@.members[k].0 != client_id@);
            }
        }
        None
    }

    /// Adds `member` unless a member with its client id is already in the
    /// room, in which case nothing changes. Returns whether it was added.
    pub fn add_member(&mut self, member: RoomMember) -> (added: bool)
        requires
            old(self).wf(),
        ensures
            final(self).wf(),
            added == !has_member(old(self)@.members, member@.0),
            final(self)@.id == old(self)@.id,
            final(self)@.game == old(self)@.game,
            final(self)@.leader == old(self)@.leader,
            final(self)@.members == if added {
                old(self)@.members.push(member@)
            } else {
                old(self)@.members
            },
    {
        match self.find_member(&member.client_id) {
            Some(_) => false,
            None => {
                let ghost before = self@.members;
                self.members.push(member);
                assert(self@.members =~= before.push(member@));
                true
            },
        }
    }

    /// Sets the nickname of the member with client id `client_id`; nothing
    /// changes when no member has it. Returns whether one had.
    pub fn set_nickname(&mut self, client_id: &ClientId, nickname: String) -> (found: bool)
        requires
            old(self).wf(),
        ensures
            final(self).wf(),
            found == has_member(old(self)@.members, client_id@),
            final(self)@.id == old(self)@.id,
            final(self)@.game == old(self)@.game,
            final(self)@.leader == old(self)@.leader,
            found ==> exists|i: int|
                0 <= i < old(self)@.members.len() && old(self)@.members[i].0 == client_id@
                    && #[trigger] final(self)@.members == old(self)@.members.update(
                    i,
                    (client_id@, Some(nickname@)),
                ),
            !found ==> final(self)@.members == old(self)@.members,
    {
        match self.find_member(client_id) {
            Some(i) => {
                let ghost before = self@.members;
                let updated = RoomMember {
                    client_id: self.members[i].client_id.duplicate(),
                    nickname: Some(nickname),
                };
                self.members.set(i, updated);
                assert(self@.members =~= before.update(i as int, (client_id@, Some(nickname@))));
                assert(unique_ids(self@.members)) by {
                    assert forall|a: int, b: int|
                        0 <= a < self@.members.len() && 0 <= b < self@.members.len() && a != b implies #[trigger] self@.members[a].0
                        != #[trigger] self@.members[b].0 by {
                        assert(self@.members[a].0 == before[a].0);
                        assert(self@.members[b].0 == before[b].0);
                    }
                }
                true
            },
            None => false,
        }
    }

    /// The nickname of the member with client id `client_id`: `None` when
    /// no member has it, `Some(None)` when that member has no nickname.
    pub fn member_nickname(&self, client_id: &ClientId) -> (r: Option<Option<String>>)
        requires
            self.wf(),
        ensures
            r is None <==> !has_member(self@.members, client_id@),
            r matches Some(n) ==> exists|i: int|
                0 <= i < self@.members.len() && #[trigger] self@.members[i].0 == client_id@
                    && self@.members[i].1 == opt_view(n),
    {
        match self.find_member(client_id) {
            Some(i) => Some(duplicate_opt(&self.members[i].nickname)),
            None => None,
        }
    }

    /// A copy of this room.
    pub fn duplicate(&self) -> (r: Room)
        ensures
            r@ == self@,
    {
        let mut members: Vec<RoomMember> = Vec::new();
        let mut i: usize = 0;
        while i < self.members.len()
            invariant
                i <= self.members.len(),
                members_view(members@) == members_view(self.members@).take(i as int),
            decreases self.members.len() - i,
        {
            members.push(self.members[i].duplicate());
            assert(members_view(self.members@).take(i + 1) =~= members_view(self.members@).take(
                i as int,
            ).push(self.members[i as int]@));
            assert(members_view(members@) =~= members_view(self.members@).take(i + 1));
            i = i + 1;
        }
        assert(members_view(self.members@).take(self.members.len() as int) =~= members_view(
            self.members@,
        ));
        Room {
            id: self.id.duplicate(),
            game: self.game,
            members,
            leader: self.leader.duplicate(),
        }
    }
}

/// Adding a member that is not yet in the room adds its id with its
/// nickname to the member map; adding one that is leaves the map unchanged.
pub proof fn lemma_add_member_map(ms: Seq<MemberView>, m: MemberView)
    ensures
        !has_member(ms, m.0) ==> member_map(ms.push(m)) == member_map(ms).insert(m.0, m.1),
{
    assert(ms.push(m).drop_last() =~= ms);
}

} // verus!
