use gecko::messages::ServerMsg;
use gecko::room::Room;
use gecko::ids::{ClientId, RoomId};
use gecko::game::GameKind;
use gecko::session::{
    forward_step, inbound, item_of, outbound, send_step, BroadcastEvent, CloseFrame, ForwardStep,
    Inbound, Message, OutboxEvent, SendStep, WireMessage, HEARTBEAT_SECS,
};

fn update() -> ServerMsg {
    ServerMsg::RoomUpdate(Room::new(RoomId("abcd".into()), GameKind::Gecko, ClientId::from_string("l".into())))
}

#[test]
fn inbound_frames() {
    match inbound(WireMessage::Text("{\"a\":1}".into())) {
        Inbound::Decode(b) => assert_eq!(b, b"{\"a\":1}".to_vec()),
        other => panic!("unexpected {:?}", other),
    }
    match inbound(WireMessage::Text("é".into())) {
        Inbound::Decode(b) => assert_eq!(b, vec![0xC3, 0xA9]),
        other => panic!("unexpected {:?}", other),
    }
    assert!(matches!(inbound(WireMessage::Binary(vec![1, 2])), Inbound::Decode(b) if b == vec![1, 2]));
    assert!(matches!(inbound(WireMessage::Ping(vec![3])), Inbound::Ping(b) if b == vec![3]));
    assert!(matches!(inbound(WireMessage::Pong(vec![4])), Inbound::Pong(b) if b == vec![4]));
    match inbound(WireMessage::Close(Some(CloseFrame { code: 1000, reason: "bye".into() }))) {
        Inbound::Close(Some(f)) => assert_eq!((f.code, f.reason.as_str()), (1000, "bye")),
        other => panic!("unexpected {:?}", other),
    }
}

#[test]
fn outbound_frames() {
    assert!(matches!(outbound(Message::Item(vec![9])), WireMessage::Binary(b) if b == vec![9]));
    assert!(matches!(outbound(Message::Ping(vec![])), WireMessage::Ping(b) if b.is_empty()));
    assert!(matches!(outbound(Message::Pong(vec![1])), WireMessage::Pong(b) if b == vec![1]));
    assert!(matches!(outbound(Message::Close(None)), WireMessage::Close(None)));
}

#[test]
fn items_of_messages() {
    assert_eq!(item_of(Ok(Message::Item(5))), Some(5));
    assert_eq!(item_of::<i32>(Ok(Message::Ping(vec![]))), None);
    assert_eq!(item_of::<i32>(Err(())), None);
}

#[test]
fn forwarder_steps() {
    assert!(matches!(forward_step(BroadcastEvent::Update(update())), ForwardStep::Forward(_)));
    assert!(matches!(forward_step(BroadcastEvent::Lagged(3)), ForwardStep::Skip));
    assert!(matches!(forward_step(BroadcastEvent::Closed), ForwardStep::Stop));
}

#[test]
fn writer_steps() {
    assert!(matches!(send_step(OutboxEvent::Message(update())), SendStep::SendItem(_)));
    assert!(matches!(send_step(OutboxEvent::Idle), SendStep::SendPing));
    assert!(matches!(send_step(OutboxEvent::Closed), SendStep::Stop));
    assert_eq!(HEARTBEAT_SECS, 55);
}
