use mrpc::net::websocket::{CloseFrame, Inbound, Message, WsRpcMessage};
use mrpc::transport::message::TranportMesssage;

#[test]
fn binary_frame_gives_its_bytes() {
    assert_eq!(Message::Binary(vec![1, 2, 3]).into_data(), vec![1, 2, 3]);
    assert_eq!(Message::Binary(Vec::new()).into_data(), Vec::<u8>::new());
}

#[test]
fn text_frame_gives_its_utf8_bytes() {
    assert_eq!(Message::Text("abc".to_string()).into_data(), vec![97, 98, 99]);
    assert_eq!(Message::Text("é€".to_string()).into_data(), vec![0xC3, 0xA9, 0xE2, 0x82, 0xAC]);
    assert_eq!(Message::Text(String::new()).into_data(), Vec::<u8>::new());
}

#[test]
fn ping_and_pong_give_their_bytes() {
    assert_eq!(Message::Ping(vec![9]).into_data(), vec![9]);
    assert_eq!(Message::Pong(vec![8, 7]).into_data(), vec![8, 7]);
}

#[test]
fn close_frame_gives_its_reason() {
    assert_eq!(Message::Close(None).into_data(), Vec::<u8>::new());
    let frame = CloseFrame { code: 1000, reason: "bye".into() };
    assert_eq!(Message::Close(Some(frame)).into_data(), vec![98, 121, 101]);
}

#[test]
fn owned_close_reason_gives_its_bytes() {
    let frame = CloseFrame { code: 1011, reason: String::from("é").into() };
    assert_eq!(Message::Close(Some(frame)).into_data(), vec![0xC3, 0xA9]);
}

#[test]
fn data_frames_are_binary_and_text() {
    assert!(Message::Binary(vec![1]).is_data());
    assert!(Message::Text("x".to_string()).is_data());
    assert!(!Message::Ping(vec![1]).is_data());
    assert!(!Message::Pong(vec![1]).is_data());
    assert!(!Message::Close(None).is_data());
}

#[test]
fn heartbeats_are_ping_and_pong() {
    assert!(Message::Ping(Vec::new()).is_heartbeat());
    assert!(Message::Pong(Vec::new()).is_heartbeat());
    assert!(!Message::Binary(Vec::new()).is_heartbeat());
    assert!(!Message::Text(String::new()).is_heartbeat());
    assert!(!Message::Close(None).is_heartbeat());
}

#[test]
fn inbound_payloads() {
    match Message::Binary(vec![5, 6]).into_inbound() {
        Inbound::Payload(bytes) => assert_eq!(bytes, vec![5, 6]),
        _ => panic!("a binary frame is a payload"),
    }
    match Message::Text("{}".to_string()).into_inbound() {
        Inbound::Payload(bytes) => assert_eq!(bytes, vec![123, 125]),
        _ => panic!("a text frame is a payload"),
    }
}

#[test]
fn inbound_heartbeats_are_skipped() {
    assert!(matches!(Message::Ping(vec![1]).into_inbound(), Inbound::Skip));
    assert!(matches!(Message::Pong(vec![1]).into_inbound(), Inbound::Skip));
}

#[test]
fn inbound_close_ends_the_connection() {
    assert!(matches!(Message::Close(None).into_inbound(), Inbound::Closed(None)));
    let frame = CloseFrame { code: 1001, reason: String::from("going away").into() };
    match Message::Close(Some(frame)).into_inbound() {
        Inbound::Closed(Some(frame)) => {
            assert_eq!(frame.code, 1001);
            assert_eq!(frame.reason, "going away");
        }
        _ => panic!("a close frame ends the connection"),
    }
}

#[test]
fn envelope_to_wire_and_back() {
    let wire = WsRpcMessage::from_envelope(TranportMesssage { id: 17, message: "x" }).unwrap();
    assert_eq!(wire.id, 17);
    assert_eq!(wire.value, "x");
    let envelope = wire.into_envelope().unwrap();
    assert_eq!(envelope.id, 17);
    assert_eq!(envelope.message, "x");
}

#[test]
fn largest_wire_id() {
    let largest = i64::MAX as usize;
    let wire = WsRpcMessage::from_envelope(TranportMesssage { id: largest, message: () }).unwrap();
    assert_eq!(wire.id, i64::MAX);
    assert_eq!(wire.into_envelope().unwrap().id, largest);
}

#[test]
fn id_too_large_for_the_wire() {
    let too_large = i64::MAX as usize + 1;
    match WsRpcMessage::from_envelope(TranportMesssage { id: too_large, message: "x" }) {
        Ok(_) => panic!("the id does not fit"),
        Err(envelope) => {
            assert_eq!(envelope.id, too_large);
            assert_eq!(envelope.message, "x");
        }
    }
    assert!(WsRpcMessage::from_envelope(TranportMesssage { id: usize::MAX, message: "x" }).is_err());
}

#[test]
fn negative_wire_id_is_no_call() {
    match (WsRpcMessage { id: -1, value: "x" }).into_envelope() {
        Ok(_) => panic!("no call has a negative id"),
        Err(wire) => {
            assert_eq!(wire.id, -1);
            assert_eq!(wire.value, "x");
        }
    }
    assert!((WsRpcMessage { id: i64::MIN, value: () }).into_envelope().is_err());
    assert_eq!((WsRpcMessage { id: 0, value: () }).into_envelope().unwrap().id, 0);
}
