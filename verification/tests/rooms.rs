use gecko::auth::{create_token, AuthError, RoomToken, RoomTokenHeader};
use gecko::game::GameKind;
use gecko::ids::{sanitize_room_code, ClientId, RoomId};
use gecko::messages::{Claims, ClientMsg, CreateRoomInput, JoinRoomInput, ServerMsg};
use gecko::registry::{create_room, join_room, join_room_impl, ConnectDecision, RoomApiState};
use gecko::room::{Room, RoomMember};

fn cid(s: &str) -> ClientId {
    ClientId::from_string(s.to_string())
}

fn rid(s: &str) -> RoomId {
    RoomId(s.to_string())
}

fn nick_of(room: &Room, client: &str) -> Option<Option<String>> {
    room.member_nickname(&cid(client))
}

#[test]
fn room_code_is_four_lowercase_letters() {
    for _ in 0..50 {
        let id = RoomId::random();
        assert_eq!(id.0.len(), 4);
        assert!(id.0.chars().all(|c| c.is_ascii_lowercase()));
    }
}

#[test]
fn generated_code_survives_the_code_field() {
    for _ in 0..20 {
        let id = RoomId::random();
        assert_eq!(sanitize_room_code(&id.0), id.0);
    }
}

#[test]
fn room_code_from_letters() {
    let id = RoomId::from_letters(&b"qzab".to_vec());
    assert_eq!(id.0, "qzab");
}

#[test]
fn room_token_from_decoded_results() {
    let ok = RoomToken::from_decoded(Ok((Some("s".to_string()), Some("r".to_string())))).unwrap();
    assert_eq!(ok.0.sub.as_str(), "s");
    assert_eq!(ok.0.room_id.0, "r");
    assert!(matches!(
        RoomToken::from_decoded(Ok((None, Some("r".to_string())))),
        Err(AuthError::InvalidToken)
    ));
    assert!(matches!(
        RoomToken::from_decoded(Ok((Some("s".to_string()), None))),
        Err(AuthError::InvalidToken)
    ));
    let err: jsonwebtoken::errors::Error = jsonwebtoken::errors::ErrorKind::InvalidSignature.into();
    assert!(matches!(RoomToken::from_decoded(Err(err)), Err(AuthError::InvalidToken)));
}

#[test]
fn token_signed_with_another_key_is_refused() {
    let mut claims = serde_json::Map::new();
    claims.insert("sub".to_string(), serde_json::Value::String("a".to_string()));
    claims.insert("room_id".to_string(), serde_json::Value::String("b".to_string()));
    let forged = jsonwebtoken::encode(
        &jsonwebtoken::Header::default(),
        &claims,
        &jsonwebtoken::EncodingKey::from_secret(b"other"),
    )
    .unwrap();
    assert!(matches!(RoomToken::from_cookie(Some(&forged)), Err(AuthError::InvalidToken)));
}

#[test]
fn client_id_is_twelve_alphanumerics() {
    let a = ClientId::random();
    let b = ClientId::random();
    assert_eq!(a.as_str().len(), 12);
    assert!(a.as_str().chars().all(|c| c.is_ascii_alphanumeric()));
    assert_ne!(a.as_str(), b.as_str());
}

#[test]
fn sanitize_truncates_lowers_and_filters() {
    assert_eq!(sanitize_room_code("AbC1dEF"), "abc");
    assert_eq!(sanitize_room_code("wxyz"), "wxyz");
    assert_eq!(sanitize_room_code("ab"), "ab");
    assert_eq!(sanitize_room_code(""), "");
    assert_eq!(sanitize_room_code("a-b!cd"), "ab");
    assert_eq!(sanitize_room_code("abcdé"), "abcd");
}

#[test]
fn sanitize_is_idempotent() {
    for s in ["AbC1dEF", "zz9Z", "", "Q", "héllo"] {
        if s.len() <= 4 || s.is_char_boundary(4) {
            let once = sanitize_room_code(s);
            assert_eq!(sanitize_room_code(&once), once);
        }
    }
}

#[test]
fn create_room_makes_leader_sole_member() {
    let mut state = RoomApiState::new();
    let id = state.create_room_with(GameKind::Gecko, cid("leader"), rid("abcd")).unwrap();
    assert_eq!(id.0, "abcd");
    let room = &state.rooms[0].room;
    assert_eq!(room.members.len(), 1);
    assert_eq!(room.leader.as_str(), "leader");
    assert_eq!(nick_of(room, "leader"), Some(None));
    assert!(state.rooms[0].clients.is_empty());
}

#[test]
fn create_room_with_taken_code_fails_at_once() {
    let mut state = RoomApiState::new();
    state.create_room_with(GameKind::Gecko, cid("a"), rid("abcd")).unwrap();
    let r = state.create_room_with(GameKind::Gecko, cid("b"), rid("abcd"));
    assert!(matches!(r, Err(AuthError::TokenCreation)));
    assert_eq!(state.rooms.len(), 1);
    assert_eq!(state.rooms[0].room.leader.as_str(), "a");
}

#[test]
fn create_room_handler_joins_the_leader() {
    let mut state = RoomApiState::new();
    let grant = create_room(
        &mut state,
        CreateRoomInput { game_kind: GameKind::Gecko, nickname: "Ann".to_string() },
    )
    .unwrap();
    assert_eq!(state.rooms.len(), 1);
    let st = &state.rooms[0];
    assert_eq!(st.room.id.0, grant.output.room_id.0);
    assert_eq!(st.clients.len(), 1);
    assert_eq!(st.clients[0].client_id.as_str(), st.room.leader.as_str());
    // the leader was a member already, so the nickname is not recorded
    assert_eq!(st.room.members.len(), 1);
    assert_eq!(st.room.members[0].nickname, None);
    let token = RoomToken::from_cookie(Some(&grant.token)).unwrap();
    assert_eq!(token.0.sub.as_str(), st.room.leader.as_str());
    assert_eq!(token.0.room_id.0, grant.output.room_id.0);
}

#[test]
fn join_unknown_room_is_not_found() {
    let mut state = RoomApiState::new();
    let r = join_room(&mut state, JoinRoomInput { room_id: rid("wxyz"), nickname: "Bo".to_string() });
    match r {
        Err(AuthError::NotFound(msg)) => assert_eq!(msg, "Room wxyz not found"),
        other => panic!("unexpected {:?}", other),
    }
}

#[test]
fn join_adds_member_with_nickname_and_token() {
    let mut state = RoomApiState::new();
    state.create_room_with(GameKind::Gecko, cid("lead"), rid("abcd")).unwrap();
    let grant = join_room_impl(
        &mut state,
        Some(cid("bob")),
        JoinRoomInput { room_id: rid("abcd"), nickname: "Bob".to_string() },
    )
    .unwrap();
    assert_eq!(grant.output.room_id.0, "abcd");
    assert_eq!(nick_of(&grant.output.room, "bob"), Some(Some("Bob".to_string())));
    assert_eq!(nick_of(&state.rooms[0].room, "bob"), Some(Some("Bob".to_string())));
    let token = RoomToken::from_cookie(Some(&grant.token)).unwrap();
    assert_eq!(token.0.sub.as_str(), "bob");
    assert_eq!(token.0.room_id.0, "abcd");
}

#[test]
fn join_twice_with_same_client_is_refused() {
    let mut state = RoomApiState::new();
    state.create_room_with(GameKind::Gecko, cid("lead"), rid("abcd")).unwrap();
    let input = || JoinRoomInput { room_id: rid("abcd"), nickname: "Bob".to_string() };
    join_room_impl(&mut state, Some(cid("bob")), input()).unwrap();
    let r = join_room_impl(&mut state, Some(cid("bob")), input());
    assert!(matches!(r, Err(AuthError::TokenCreation)));
    assert_eq!(state.rooms[0].clients.len(), 1);
    assert_eq!(state.rooms[0].room.members.len(), 2);
}

#[test]
fn join_with_random_client() {
    let mut state = RoomApiState::new();
    state.create_room_with(GameKind::Gecko, cid("lead"), rid("abcd")).unwrap();
    let grant =
        join_room(&mut state, JoinRoomInput { room_id: rid("abcd"), nickname: "Cy".to_string() })
            .unwrap();
    let token = RoomToken::from_cookie(Some(&grant.token)).unwrap();
    assert_eq!(token.0.sub.as_str().len(), 12);
    assert_eq!(nick_of(&state.rooms[0].room, token.0.sub.as_str()), Some(Some("Cy".to_string())));
}

#[test]
fn token_round_trip() {
    let claims = Claims { sub: cid("someone"), room_id: rid("room") };
    let token = create_token(&claims).unwrap();
    assert_eq!(token.split('.').count(), 3);
    let back = RoomToken::from_cookie(Some(&token)).unwrap();
    assert_eq!(back.0.sub.as_str(), "someone");
    assert_eq!(back.0.room_id.0, "room");
}

#[test]
fn token_with_odd_characters_round_trips() {
    let claims = Claims { sub: cid("quo\"te\\ é\n"), room_id: rid("r\u{1}") };
    let token = create_token(&claims).unwrap();
    let back = RoomToken::from_cookie(Some(&token)).unwrap();
    assert_eq!(back.0.sub.as_str(), "quo\"te\\ é\n");
    assert_eq!(back.0.room_id.0, "r\u{1}");
}

#[test]
fn missing_and_invalid_tokens() {
    assert!(matches!(RoomToken::from_cookie(None), Err(AuthError::MissingToken)));
    assert!(matches!(RoomToken::from_cookie(Some("not.a.token")), Err(AuthError::InvalidToken)));
    let token = create_token(&Claims { sub: cid("a"), room_id: rid("b") }).unwrap();
    let mut tampered = token.clone();
    tampered.push('x');
    assert!(matches!(RoomToken::from_cookie(Some(&tampered)), Err(AuthError::InvalidToken)));
}

#[test]
fn auth_error_answers() {
    assert_eq!(AuthError::TokenCreation.status_and_message(), (500, "Token creation error".to_string()));
    assert_eq!(AuthError::InvalidToken.status_and_message(), (400, "Invalid token".to_string()));
    assert_eq!(AuthError::MissingToken.status_and_message(), (401, "Missing token".to_string()));
    assert_eq!(
        AuthError::NotFound("gone".to_string()).status_and_message(),
        (404, "gone".to_string())
    );
}

#[test]
fn connect_decisions() {
    let mut state = RoomApiState::new();
    state.create_room_with(GameKind::Gecko, cid("lead"), rid("abcd")).unwrap();
    join_room_impl(&mut state, Some(cid("bob")), JoinRoomInput { room_id: rid("abcd"), nickname: "B".into() })
        .unwrap();
    let d = state.connect_decision(&Claims { sub: cid("bob"), room_id: rid("abcd") });
    assert_eq!(d, ConnectDecision::Accept);
    assert_eq!(d.answer(), None);
    let d = state.connect_decision(&Claims { sub: cid("eve"), room_id: rid("abcd") });
    assert_eq!(d, ConnectDecision::InvalidToken);
    assert_eq!(d.answer(), Some((403, "Invalid token".to_string())));
    let d = state.connect_decision(&Claims { sub: cid("bob"), room_id: rid("zzzz") });
    assert_eq!(d, ConnectDecision::RoomEnded);
    assert_eq!(d.answer(), Some((403, "Room has ended".to_string())));
}

#[test]
fn reconnect_replaces_connection() {
    let mut state = RoomApiState::new();
    state.create_room_with(GameKind::Gecko, cid("lead"), rid("abcd")).unwrap();
    join_room_impl(&mut state, Some(cid("bob")), JoinRoomInput { room_id: rid("abcd"), nickname: "B".into() })
        .unwrap();
    assert_eq!(state.attach_connection(&rid("abcd"), &cid("bob"), 7), None);
    assert_eq!(state.attach_connection(&rid("abcd"), &cid("bob"), 8), Some(7));
    assert_eq!(state.rooms[0].clients.len(), 1);
    assert_eq!(state.rooms[0].clients[0].connection, Some(8));
    assert_eq!(state.attach_connection(&rid("nope"), &cid("bob"), 9), None);
}

#[test]
fn set_nickname_broadcasts_update() {
    let mut state = RoomApiState::new();
    state.create_room_with(GameKind::Gecko, cid("lead"), rid("abcd")).unwrap();
    let update = state
        .apply_client_msg(&rid("abcd"), &cid("lead"), ClientMsg::SetNickname("Boss".into()))
        .unwrap();
    let ServerMsg::RoomUpdate(room) = update;
    assert_eq!(nick_of(&room, "lead"), Some(Some("Boss".to_string())));
    assert_eq!(nick_of(&state.rooms[0].room, "lead"), Some(Some("Boss".to_string())));
    // a client that is no member changes nothing, but the room still is sent
    let update = state
        .apply_client_msg(&rid("abcd"), &cid("ghost"), ClientMsg::SetNickname("G".into()))
        .unwrap();
    let ServerMsg::RoomUpdate(room) = update;
    assert_eq!(room.members.len(), 1);
    assert!(state
        .apply_client_msg(&rid("none"), &cid("lead"), ClientMsg::SetNickname("x".into()))
        .is_none());
}

#[test]
fn room_update_of_missing_room() {
    let mut state = RoomApiState::new();
    assert!(state.room_update(&rid("abcd")).is_none());
    state.create_room_with(GameKind::Gecko, cid("lead"), rid("abcd")).unwrap();
    let ServerMsg::RoomUpdate(room) = state.room_update(&rid("abcd")).unwrap();
    assert_eq!(room.id.0, "abcd");
}

#[test]
fn add_member_keeps_existing_nickname() {
    let mut room = Room::new(rid("abcd"), GameKind::Gecko, cid("lead"));
    let added = room.add_member(RoomMember { client_id: cid("lead"), nickname: Some("X".into()) });
    assert!(!added);
    assert_eq!(nick_of(&room, "lead"), Some(None));
    let added = room.add_member(RoomMember { client_id: cid("bo"), nickname: Some("Bo".into()) });
    assert!(added);
    assert_eq!(room.members.len(), 2);
    assert!(room.set_nickname(&cid("bo"), "Bob".into()));
    assert!(!room.set_nickname(&cid("nobody"), "N".into()));
    assert_eq!(nick_of(&room, "bo"), Some(Some("Bob".to_string())));
    assert_eq!(nick_of(&room, "nobody"), None);
}

#[test]
fn member_new_has_no_nickname() {
    let m = RoomMember::new(cid("x"));
    assert_eq!(m.client_id.as_str(), "x");
    assert_eq!(m.nickname, None);
}

#[test]
fn client_id_conversions() {
    let id = ClientId::from_str("abc").unwrap();
    assert_eq!(id.to_string(), "abc");
    assert_eq!(rid("wxyz").to_string(), "wxyz");
    assert!(cid("a").same_as(&cid("a")));
    assert!(!cid("a").same_as(&cid("b")));
}

#[test]
fn room_token_header() {
    assert_eq!(RoomTokenHeader::decode(Some(Some("tok"))), Some(RoomTokenHeader("tok".into())));
    assert_eq!(RoomTokenHeader::decode(Some(None)), None);
    assert_eq!(RoomTokenHeader::decode(None), None);
}

#[test]
fn create_room_succeeds_without_generated_codes() {
    let mut state = RoomApiState::new();
    let (id, leader) = state.create_room(GameKind::Gecko).unwrap();
    assert_eq!(id.0.len(), 4);
    assert_eq!(leader.as_str().len(), 12);
    assert!(leader.as_str().chars().all(|c| c.is_ascii_alphanumeric()));
    let mut other = RoomApiState::new();
    other.create_room_with(GameKind::Gecko, cid("x"), rid("ABC")).unwrap();
    assert!(create_room(
        &mut other,
        CreateRoomInput { game_kind: GameKind::Gecko, nickname: "N".to_string() }
    )
    .is_ok());
}
