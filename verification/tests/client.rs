use gecko::client::api::ApiClientImpl;
use gecko::client::lobby;
use gecko::client::lobby_socket;
use gecko::client::pages::{
    after_join, create_room_input, gecko_card, GeckoCard, fetch_topic_outcome, join_room_input, name_plate,
    name_plate_label, room_page, should_connect, topic_error_text, JoinKind, RoomScreen,
    TopicReply,
};
use gecko::client::reducer::{CloseReason, RoomAction, RoomState};
use gecko::client::routes::{path, switch, Page, Route};
use gecko::client::socket::{handle_msg, socket_step, Frame, SocketStep};
use gecko::game::{
    choose_random_card, get_topic, topic_names, topic_rows, GameKind, Topic, TOPIC_GRID_COLS,
    TOPIC_GRID_ROWS,
};
use gecko::ids::{ClientId, RoomId};
use gecko::messages::{JoinRoomOutput, ServerMsg};
use gecko::room::{Room, RoomMember};

fn room(id: &str, leader: &str) -> Room {
    Room::new(RoomId(id.to_string()), GameKind::Gecko, ClientId::from_string(leader.to_string()))
}

fn topic(name: &str) -> Topic {
    Topic {
        name: name.to_string(),
        words: (0..16).map(|i| format!("w{}", i)).collect(),
    }
}

#[test]
fn game_kind_values_and_name() {
    assert_eq!(GameKind::values(), &[GameKind::Gecko]);
    assert_eq!(GameKind::Gecko.to_string(), "Gecko");
}

#[test]
fn topic_grid_rows() {
    let t = topic("Animals");
    let rows = topic_rows(&t);
    assert_eq!(rows.len(), TOPIC_GRID_ROWS);
    assert_eq!(rows[0].number, 1);
    assert_eq!(rows[0].words, vec!["w0", "w1", "w2", "w3"]);
    assert_eq!(rows[3].number, 4);
    assert_eq!(rows[3].words, vec!["w12", "w13", "w14", "w15"]);
    assert!(rows.iter().all(|r| r.words.len() == TOPIC_GRID_COLS));
}

#[test]
fn topics_names_and_lookup() {
    let topics = vec![topic("A"), topic("B")];
    assert_eq!(topic_names(&topics), vec!["A", "B"]);
    assert_eq!(get_topic(&topics, 1).unwrap().name, "B");
    assert_eq!(get_topic(&topics, 2).unwrap_err(), "Unkonwn topic: 2");
    assert_eq!(get_topic(&topics, 1234).unwrap_err(), "Unkonwn topic: 1234");
    assert_eq!(get_topic(&vec![], 0).unwrap_err(), "Unkonwn topic: 0");
}

#[test]
fn random_card_is_one_of_the_topics() {
    let topics = vec![topic("A"), topic("B"), topic("C")];
    for _ in 0..30 {
        let t = choose_random_card(&topics);
        assert!(["A", "B", "C"].contains(&t.name.as_str()));
    }
    let one = vec![topic("Only")];
    assert_eq!(choose_random_card(&one).name, "Only");
}

#[test]
fn reducer_update_and_close() {
    let st = RoomState::default();
    assert!(st.room.is_none() && st.error.is_none());
    let st = st.reduce(RoomAction::UpdateRoom(room("abcd", "l")));
    assert_eq!(st.room.as_ref().unwrap().id.0, "abcd");
    assert!(st.error.is_none());
    let st = st.reduce(RoomAction::RoomClosed(CloseReason::RoomEnded));
    assert_eq!(st.error.as_deref(), Some("Room closed. Reason: Room ended."));
    assert_eq!(st.room.as_ref().unwrap().id.0, "abcd");
    let st = st.reduce(RoomAction::UpdateRoom(room("wxyz", "l")));
    assert_eq!(st.room.as_ref().unwrap().id.0, "wxyz");
    assert_eq!(st.error.as_deref(), Some("Room closed. Reason: Room ended."));
    assert_eq!(CloseReason::RoomEnded.to_string(), "Room ended");
}

#[test]
fn last_update_wins() {
    let st = RoomState::new()
        .reduce(RoomAction::UpdateRoom(room("aaaa", "x")))
        .reduce(RoomAction::UpdateRoom(room("bbbb", "y")));
    assert_eq!(st.room.unwrap().id.0, "bbbb");
}

#[test]
fn lobby_reducers() {
    let st = lobby::RoomState { room_id: RoomId("abcd".into()), room: room("abcd", "l") };
    let st = st.reduce(lobby::RoomAction::UpdateRoom(room("zzzz", "m")));
    assert_eq!(st.room_id.0, "abcd");
    assert_eq!(st.room.id.0, "zzzz");
    assert_eq!(lobby::lobby_lines(&st.room), vec!["Room ID: zzzz", "Game Kind: Gecko", "Members:"]);

    let s = lobby_socket::RoomState::default();
    assert_eq!(lobby_socket::lobby_body_lines(&s), vec!["Connecting..."]);
    let s = s.reduce(lobby_socket::RoomAction::Join(RoomId("qrst".into()), GameKind::Gecko));
    assert_eq!(s.room_id.as_ref().unwrap().0, "qrst");
    assert_eq!(s.game_kind, Some(GameKind::Gecko));
    assert_eq!(lobby_socket::lobby_body_lines(&s), vec!["Room ID: qrst", "Game Kind: Gecko"]);
}

#[test]
fn room_page_screens() {
    let empty = RoomState::new();
    assert!(matches!(room_page(&empty, None), RoomScreen::Chooser));
    assert!(matches!(room_page(&empty, Some(JoinKind::Create)), RoomScreen::CreateForm));
    assert!(matches!(room_page(&empty, Some(JoinKind::Join)), RoomScreen::JoinForm));
    assert!(!should_connect(&empty));
    let with_room = RoomState::new().reduce(RoomAction::UpdateRoom(room("abcd", "l")));
    assert!(should_connect(&with_room));
    match room_page(&with_room, Some(JoinKind::Join)) {
        RoomScreen::Lobby(r) => assert_eq!(r.id.0, "abcd"),
        other => panic!("unexpected {:?}", other),
    }
    let closed = with_room.reduce(RoomAction::RoomClosed(CloseReason::RoomEnded));
    match room_page(&closed, None) {
        RoomScreen::Error(e) => assert_eq!(e, "Room closed. Reason: Room ended."),
        other => panic!("unexpected {:?}", other),
    }
}

#[test]
fn forms() {
    assert!(create_room_input(None, "Ann").is_none());
    let i = create_room_input(Some(GameKind::Gecko), "Ann").unwrap();
    assert_eq!(i.game_kind, GameKind::Gecko);
    assert_eq!(i.nickname, "Ann");
    assert!(join_room_input("", "Bo").is_none());
    let j = join_room_input("abcd", "Bo").unwrap();
    assert_eq!(j.room_id.0, "abcd");
    assert_eq!(j.nickname, "Bo");
}

#[test]
fn join_answers() {
    let ok: Result<JoinRoomOutput, String> =
        Ok(JoinRoomOutput { room_id: RoomId("abcd".into()), room: room("abcd", "l") });
    match after_join(ok) {
        Some(RoomAction::UpdateRoom(r)) => assert_eq!(r.id.0, "abcd"),
        other => panic!("unexpected {:?}", other),
    }
    let err: Result<JoinRoomOutput, String> = Err("boom".into());
    assert!(after_join(err).is_none());
}

#[test]
fn name_plates() {
    let mut r = room("abcd", "lead");
    r.add_member(RoomMember { client_id: ClientId::from_string("bo".into()), nickname: Some("Bo".into()) });
    assert_eq!(name_plate(&r, &ClientId::from_string("bo".into())), Some("Bo".to_string()));
    assert_eq!(name_plate(&r, &ClientId::from_string("lead".into())), None);
    assert_eq!(name_plate(&r, &ClientId::from_string("x".into())), None);
    assert_eq!(name_plate_label(Some("Bo".into())), "Bo");
    assert_eq!(name_plate_label(None), "Unknown");
}

#[test]
fn fetch_topic_outcomes() {
    let ok = TopicReply { ok: true, status: 200, status_text: "OK".into(), topic: Ok(topic("T")) };
    assert_eq!(fetch_topic_outcome(Ok(ok)).unwrap().name, "T");
    let bad = TopicReply {
        ok: false,
        status: 404,
        status_text: "Not Found".into(),
        topic: Err("x".into()),
    };
    assert_eq!(fetch_topic_outcome(Ok(bad)).unwrap_err(), "Error fetching data 404 (Not Found)");
    assert_eq!(fetch_topic_outcome(Err("net".into())).unwrap_err(), "net");
    let unreadable =
        TopicReply { ok: true, status: 200, status_text: "OK".into(), topic: Err("bad json".into()) };
    assert_eq!(fetch_topic_outcome(Ok(unreadable)).unwrap_err(), "bad json");
    assert_eq!(topic_error_text("x"), "An error occurred fetching topic from serverx");
}

#[test]
fn socket_steps() {
    match socket_step(Frame::Decoded(ServerMsg::RoomUpdate(room("abcd", "l")))) {
        SocketStep::Dispatch(RoomAction::UpdateRoom(r)) => assert_eq!(r.id.0, "abcd"),
        other => panic!("unexpected {:?}", other),
    }
    assert!(matches!(socket_step(Frame::Undecodable), SocketStep::Continue));
    assert!(matches!(socket_step(Frame::Failed), SocketStep::Stop));
    match handle_msg(ServerMsg::RoomUpdate(room("wxyz", "l"))) {
        RoomAction::UpdateRoom(r) => assert_eq!(r.id.0, "wxyz"),
        other => panic!("unexpected {:?}", other),
    }
}

#[test]
fn api_client_host() {
    let c = ApiClientImpl::new_from_window::<String>(None).unwrap();
    assert_eq!(c.host, "localhost:8080");
    let c = ApiClientImpl::new_from_window::<String>(Some(Ok("example.org:81".into()))).unwrap();
    assert_eq!(c.host, "example.org:81");
    assert_eq!(c.connect_url(), "ws://example.org:81/api/room/connect");
    let e = ApiClientImpl::new_from_window::<String>(Some(Err("no location".into())));
    assert_eq!(e.unwrap_err(), "no location");
}

#[test]
fn routes() {
    assert_eq!(switch(Route::Home), Page::Redirect(Route::Room));
    assert_eq!(switch(Route::Gecko), Page::GeckoPage);
    assert_eq!(switch(Route::Room), Page::RoomPage);
    assert_eq!(switch(Route::NotFound), Page::NotFoundPage);
    assert_eq!(path(Route::Home), "/");
    assert_eq!(path(Route::NotFound), "/404");
}

#[test]
fn build_post_request() {
    let c = ApiClientImpl { host: "h".into() };
    let r = c.build_request(gecko::client::api::CREATE_ROOM_PATH, "{}".into());
    assert_eq!(r.url, "/api/room/create");
    assert_eq!(r.content_type, "application/json");
    assert_eq!(r.body, "{}");
}

#[test]
fn teardown_signals() {
    assert!(gecko::client::socket::SocketTearDown::CloseSocket.sends_close());
    assert!(!gecko::client::socket::SocketTearDown::Nop.sends_close());
}

#[test]
fn gecko_cards() {
    assert!(matches!(gecko_card(None), GeckoCard::Nothing));
    match gecko_card(Some(Ok(topic("T")))) {
        GeckoCard::Card(t) => assert_eq!(t.name, "T"),
        other => panic!("unexpected {:?}", other),
    }
    match gecko_card(Some(Err("down".into()))) {
        GeckoCard::Error(m) => assert_eq!(m, "An error occurred fetching topic from serverdown"),
        other => panic!("unexpected {:?}", other),
    }
}
