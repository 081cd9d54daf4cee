use rust_server::codec::{decode, encode, DecodeError, ErrorCode, SignalingMessage, WireFrame};
use rust_server::connections::ConnectionRegistry;
use rust_server::ids::mint_id;
use rust_server::rooms::{RoomRegistry, SignalingServerError};
use rust_server::server::{Delivery, SignalingServerState, StreamChange};
use rust_server::session::{step, SessionAction, SessionEvent, SessionPhase};

const A: u128 = 0x1111_0000_0000_0000_0000_0000_0000_0001;
const B: u128 = 0x2222_0000_0000_0000_0000_0000_0000_0002;
const C: u128 = 0x3333_0000_0000_0000_0000_0000_0000_0003;

fn empty_frame(kind: &str) -> WireFrame {
    WireFrame {
        kind: kind.to_string(),
        username: None,
        user_id: None,
        room_name: None,
        room_id: None,
        stream_key: None,
        sender_id: None,
        receiver_id: None,
        sdp: None,
        candidate: None,
        code: None,
        message: None,
    }
}

fn connection_error(to: u128, text: &str) -> Delivery {
    Delivery {
        to,
        message: SignalingMessage::Error { code: ErrorCode::ConnectionError, message: text.to_string() },
    }
}

/// Creates a room by message and returns its identifier from the acknowledgment.
fn create_by_message(server: &mut SignalingServerState, from: u128, name: &str) -> u128 {
    let out = server.handle(from, SignalingMessage::CreateRoom { room_name: name.to_string() });
    assert_eq!(out.len(), 1);
    assert_eq!(out[0].to, from);
    match out[0].message {
        SignalingMessage::JoinRoom { room_id } => room_id,
        ref other => panic!("unexpected reply {:?}", other),
    }
}

#[test]
fn mint_id_keeps_serial_and_random_half() {
    let id = mint_id(0xabcd_ef01_2345_6789_ffff_ffff_ffff_ffff, 7);
    assert_eq!(id, 0xabcd_ef01_2345_6789_0000_0000_0000_0007);
}

#[test]
fn created_room_ids_are_distinct() {
    let mut rooms = RoomRegistry::new();
    let mut ids = Vec::new();
    for k in 0..50u128 {
        // the same random half every time: only the serial tells them apart
        ids.push(rooms.create_room(format!("room{}", k), A, 42));
    }
    for i in 0..ids.len() {
        for j in 0..ids.len() {
            if i != j {
                assert_ne!(ids[i], ids[j]);
            }
        }
    }
    assert_eq!(rooms.room_count(), 50);
}

#[test]
fn created_room_ids_distinct_through_router() {
    let mut server = SignalingServerState::new();
    let a = server.accept().unwrap();
    let r1 = create_by_message(&mut server, a, "one");
    let r2 = create_by_message(&mut server, a, "two");
    let r3 = create_by_message(&mut server, a, "three");
    assert_ne!(r1, r2);
    assert_ne!(r2, r3);
    assert_ne!(r1, r3);
}

#[test]
fn creator_is_only_member() {
    let mut rooms = RoomRegistry::new();
    let r = rooms.create_room("lobby".to_string(), A, 9);
    assert_eq!(rooms.members_of(r), Ok(vec![A]));
    assert_eq!(rooms.creator_of(r), Ok(A));
    assert_eq!(rooms.stream_key_of(r), Ok(None));
}

#[test]
fn join_then_leave_until_room_is_gone() {
    let mut rooms = RoomRegistry::new();
    let r = rooms.create_room("lobby".to_string(), A, 9);
    assert_eq!(rooms.join(r, B), Ok(()));
    assert_eq!(rooms.members_of(r), Ok(vec![A, B]));
    rooms.leave(r, A);
    assert_eq!(rooms.members_of(r), Ok(vec![B]));
    rooms.leave(r, B);
    assert_eq!(rooms.members_of(r), Err(SignalingServerError::RoomNotFound));
    assert_eq!(rooms.room_count(), 0);
}

#[test]
fn joining_twice_keeps_one_entry() {
    let mut rooms = RoomRegistry::new();
    let r = rooms.create_room("lobby".to_string(), A, 9);
    assert_eq!(rooms.join(r, B), Ok(()));
    assert_eq!(rooms.join(r, B), Ok(()));
    assert_eq!(rooms.join(r, A), Ok(()));
    assert_eq!(rooms.members_of(r), Ok(vec![A, B]));
}

#[test]
fn leaving_as_non_member_changes_nothing() {
    let mut rooms = RoomRegistry::new();
    let r = rooms.create_room("lobby".to_string(), A, 9);
    rooms.leave(r, C);
    rooms.leave(r.wrapping_add(1), A);
    assert_eq!(rooms.members_of(r), Ok(vec![A]));
}

#[test]
fn start_stream_only_by_creator() {
    let mut rooms = RoomRegistry::new();
    let r = rooms.create_room("stage".to_string(), A, 9);
    rooms.join(r, B).unwrap();
    assert_eq!(rooms.start_stream(r, B, "key-b".to_string()), Err(SignalingServerError::Unauthorized));
    assert_eq!(rooms.stream_key_of(r), Ok(None));
    assert_eq!(rooms.start_stream(r, A, "key-a".to_string()), Ok(()));
    assert_eq!(rooms.stream_key_of(r), Ok(Some("key-a".to_string())));
    assert_eq!(rooms.stop_stream(r, B), Err(SignalingServerError::Unauthorized));
    assert_eq!(rooms.stream_key_of(r), Ok(Some("key-a".to_string())));
    assert_eq!(rooms.stop_stream(r, A), Ok(()));
    assert_eq!(rooms.stream_key_of(r), Ok(None));
}

#[test]
fn stream_control_on_missing_room() {
    let mut rooms = RoomRegistry::new();
    assert_eq!(rooms.start_stream(5, A, "k".to_string()), Err(SignalingServerError::RoomNotFound));
    assert_eq!(rooms.stop_stream(5, A), Err(SignalingServerError::RoomNotFound));
}

#[test]
fn join_missing_room_has_no_effect() {
    let mut rooms = RoomRegistry::new();
    let r = rooms.create_room("lobby".to_string(), A, 9);
    let missing = r ^ 0xff;
    assert_eq!(rooms.join(missing, B), Err(SignalingServerError::RoomNotFound));
    assert_eq!(rooms.room_count(), 1);
    assert_eq!(rooms.members_of(r), Ok(vec![A]));
    assert_eq!(rooms.members_of(missing), Err(SignalingServerError::RoomNotFound));
}

#[test]
fn many_joins_give_creator_plus_joiners() {
    let mut rooms = RoomRegistry::new();
    let r = rooms.create_room("crowd".to_string(), A, 9);
    let n: u128 = 40;
    for k in 0..n {
        rooms.join(r, 1000 + k).unwrap();
    }
    let members = rooms.members_of(r).unwrap();
    assert_eq!(members.len() as u128, n + 1);
    assert_eq!(members[0], A);
    for k in 0..n {
        assert_eq!(members[(k + 1) as usize], 1000 + k);
    }
}

#[test]
fn every_message_survives_encoding() {
    let all = vec![
        SignalingMessage::Connect { user_id: None, username: "ann".to_string() },
        SignalingMessage::Connect { user_id: Some(A), username: "ann".to_string() },
        SignalingMessage::Connected { user_id: A },
        SignalingMessage::Disconnected { user_id: B },
        SignalingMessage::CreateRoom { room_name: "lobby".to_string() },
        SignalingMessage::JoinRoom { room_id: C },
        SignalingMessage::LeaveRoom { room_id: C },
        SignalingMessage::StartStream { room_id: C, stream_key: "k1".to_string() },
        SignalingMessage::StopStream { room_id: C },
        SignalingMessage::Offer { room_id: C, sender_id: A, receiver_id: B, sdp: "sdp-1".to_string() },
        SignalingMessage::Answer { room_id: C, sender_id: B, receiver_id: A, sdp: "sdp-2".to_string() },
        SignalingMessage::IceCandidate { room_id: C, sender_id: A, receiver_id: B, candidate: "cand".to_string() },
        SignalingMessage::Error { code: ErrorCode::Unauthorized, message: "no".to_string() },
        SignalingMessage::Error { code: ErrorCode::RoomNotFound, message: "".to_string() },
        SignalingMessage::Error { code: ErrorCode::StreamingError, message: "x".to_string() },
        SignalingMessage::Error { code: ErrorCode::ConnectionError, message: "y".to_string() },
    ];
    for m in all {
        assert_eq!(decode(encode(&m)), Ok(m.clone()));
    }
}

#[test]
fn encode_offer_fields() {
    let f = encode(&SignalingMessage::Offer { room_id: C, sender_id: A, receiver_id: B, sdp: "sdp-1".to_string() });
    let mut expected = empty_frame("Offer");
    expected.room_id = Some(C);
    expected.sender_id = Some(A);
    expected.receiver_id = Some(B);
    expected.sdp = Some("sdp-1".to_string());
    assert_eq!(f, expected);
    let e = encode(&SignalingMessage::Error { code: ErrorCode::RoomNotFound, message: "m".to_string() });
    assert_eq!(e.code, Some("RoomNotFound".to_string()));
}

#[test]
fn decode_errors() {
    assert_eq!(decode(empty_frame("Bogus")), Err(DecodeError::UnknownKind));
    assert_eq!(decode(empty_frame("JoinRoom")), Err(DecodeError::MissingField));
    let mut offer = empty_frame("Offer");
    offer.room_id = Some(C);
    offer.sender_id = Some(A);
    offer.sdp = Some("s".to_string());
    assert_eq!(decode(offer), Err(DecodeError::MissingField));
    let mut err = empty_frame("Error");
    err.code = Some("Nope".to_string());
    err.message = Some("m".to_string());
    assert_eq!(decode(err), Err(DecodeError::UnknownCode));
    assert_eq!(DecodeError::UnknownKind.reason(), "unknown message type");
    assert_eq!(DecodeError::Malformed.reason(), "malformed frame");
}

#[test]
fn decode_ignores_unused_fields() {
    let mut f = empty_frame("JoinRoom");
    f.room_id = Some(C);
    f.sdp = Some("extra".to_string());
    assert_eq!(decode(f), Ok(SignalingMessage::JoinRoom { room_id: C }));
}

#[test]
fn connect_is_answered_with_server_identity() {
    let mut server = SignalingServerState::new();
    let a = server.accept().unwrap();
    let out = server.handle(a, SignalingMessage::Connect { user_id: Some(B), username: "ann".to_string() });
    assert_eq!(out, vec![Delivery { to: a, message: SignalingMessage::Connected { user_id: a } }]);
}

#[test]
fn accepted_sessions_are_live_and_distinct() {
    let mut server = SignalingServerState::new();
    let a = server.accept().unwrap();
    let b = server.accept().unwrap();
    assert_ne!(a, b);
    assert!(server.connections.is_live(a));
    assert!(server.connections.is_live(b));
    let mut snap = server.connections.snapshot();
    snap.sort();
    let mut expected = vec![a, b];
    expected.sort();
    assert_eq!(snap, expected);
}

#[test]
fn unregister_is_idempotent() {
    let mut conns = ConnectionRegistry::new();
    let a = conns.register(1);
    let b = conns.register(1);
    conns.unregister(a);
    conns.unregister(a);
    assert!(!conns.is_live(a));
    assert!(conns.is_live(b));
    assert_eq!(conns.snapshot(), vec![b]);
}

#[test]
fn offer_reaches_only_receiver() {
    let mut server = SignalingServerState::new();
    let a = server.accept().unwrap();
    let b = server.accept().unwrap();
    let c = server.accept().unwrap();
    let r = create_by_message(&mut server, a, "call");
    assert_eq!(server.handle(b, SignalingMessage::JoinRoom { room_id: r }), vec![]);
    assert_eq!(server.handle(c, SignalingMessage::JoinRoom { room_id: r }), vec![]);
    let offer = SignalingMessage::Offer { room_id: r, sender_id: a, receiver_id: b, sdp: "sdp-1".to_string() };
    let out = server.handle(a, offer.clone());
    assert_eq!(out, vec![Delivery { to: b, message: offer }]);
}

#[test]
fn relay_errors() {
    let mut server = SignalingServerState::new();
    let a = server.accept().unwrap();
    let b = server.accept().unwrap();
    let r = create_by_message(&mut server, a, "call");
    // b is live but not a member
    let answer = SignalingMessage::Answer { room_id: r, sender_id: a, receiver_id: b, sdp: "s".to_string() };
    assert_eq!(
        server.handle(a, answer),
        vec![Delivery {
            to: a,
            message: SignalingMessage::Error { code: ErrorCode::ConnectionError, message: "ConnectionError".to_string() },
        }]
    );
    // no such room
    let cand = SignalingMessage::IceCandidate { room_id: r ^ 1, sender_id: a, receiver_id: b, candidate: "c".to_string() };
    assert_eq!(
        server.handle(a, cand),
        vec![Delivery {
            to: a,
            message: SignalingMessage::Error { code: ErrorCode::RoomNotFound, message: "RoomNotFound".to_string() },
        }]
    );
    // b is a member but gone
    server.handle(b, SignalingMessage::JoinRoom { room_id: r });
    server.connections.unregister(b);
    let offer = SignalingMessage::Offer { room_id: r, sender_id: a, receiver_id: b, sdp: "s".to_string() };
    assert_eq!(server.handle(a, offer)[0].message, SignalingMessage::Error { code: ErrorCode::ConnectionError, message: "ConnectionError".to_string() });
}

#[test]
fn router_stream_control() {
    let mut server = SignalingServerState::new();
    let a = server.accept().unwrap();
    let b = server.accept().unwrap();
    let r = create_by_message(&mut server, a, "stage");
    server.handle(b, SignalingMessage::JoinRoom { room_id: r });
    let out = server.handle(b, SignalingMessage::StartStream { room_id: r, stream_key: "kb".to_string() });
    assert_eq!(
        out,
        vec![Delivery {
            to: b,
            message: SignalingMessage::Error { code: ErrorCode::Unauthorized, message: "Unauthorized".to_string() },
        }]
    );
    assert_eq!(server.rooms.stream_key_of(r), Ok(None));
    assert_eq!(server.handle(a, SignalingMessage::StartStream { room_id: r, stream_key: "ka".to_string() }), vec![]);
    assert_eq!(server.rooms.stream_key_of(r), Ok(Some("ka".to_string())));
    assert_eq!(server.handle(a, SignalingMessage::StopStream { room_id: r }), vec![]);
    assert_eq!(server.rooms.stream_key_of(r), Ok(None));
}

#[test]
fn router_join_missing_room() {
    let mut server = SignalingServerState::new();
    let a = server.accept().unwrap();
    let out = server.handle(a, SignalingMessage::JoinRoom { room_id: 77 });
    assert_eq!(
        out,
        vec![Delivery {
            to: a,
            message: SignalingMessage::Error { code: ErrorCode::RoomNotFound, message: "RoomNotFound".to_string() },
        }]
    );
    assert_eq!(server.rooms.room_count(), 0);
}

#[test]
fn inbound_server_messages_are_protocol_errors() {
    let mut server = SignalingServerState::new();
    let a = server.accept().unwrap();
    let expected = vec![Delivery {
        to: a,
        message: SignalingMessage::Error { code: ErrorCode::ConnectionError, message: "ConnectionError".to_string() },
    }];
    let err = SignalingMessage::Error { code: ErrorCode::Unauthorized, message: "x".to_string() };
    assert_eq!(server.handle(a, err), expected);
    assert_eq!(server.handle(a, SignalingMessage::Connected { user_id: a }), expected);
    assert_eq!(server.handle(a, SignalingMessage::Disconnected { user_id: a }), expected);
}

#[test]
fn disconnect_leaves_every_room() {
    let mut server = SignalingServerState::new();
    let a = server.accept().unwrap();
    let b = server.accept().unwrap();
    let r1 = create_by_message(&mut server, a, "one");
    let r2 = create_by_message(&mut server, b, "two");
    server.handle(a, SignalingMessage::JoinRoom { room_id: r2 });
    server.disconnect(a);
    assert_eq!(server.rooms.members_of(r1), Err(SignalingServerError::RoomNotFound));
    assert_eq!(server.rooms.members_of(r2), Ok(vec![b]));
    assert!(!server.connections.is_live(a));
    assert!(server.connections.is_live(b));
}

#[test]
fn bogus_frame_answered_and_session_stays_open() {
    let mut server = SignalingServerState::new();
    let a = server.accept().unwrap();
    let out = server.handle_frame(a, Ok(empty_frame("Bogus")));
    assert_eq!(out.deliveries, vec![connection_error(a, "unknown message type")]);
    assert_eq!(out.stream_change, None);
    let out = server.handle_frame(a, Err(DecodeError::Malformed));
    assert_eq!(out.deliveries, vec![connection_error(a, "malformed frame")]);
    assert_eq!(step(SessionPhase::Active, SessionEvent::Frame), (SessionPhase::Active, SessionAction::RouteFrame));
    // the next frame is still handled
    let mut connect = empty_frame("Connect");
    connect.username = Some("ann".to_string());
    assert_eq!(
        server.handle_frame(a, Ok(connect)).deliveries,
        vec![Delivery { to: a, message: SignalingMessage::Connected { user_id: a } }]
    );
}

#[test]
fn session_phases_move_forward() {
    assert_eq!(step(SessionPhase::Connecting, SessionEvent::Registered), (SessionPhase::Active, SessionAction::ReadNext));
    assert_eq!(step(SessionPhase::Active, SessionEvent::PeerClosed), (SessionPhase::Closing, SessionAction::CleanUp));
    assert_eq!(step(SessionPhase::Active, SessionEvent::TransportError), (SessionPhase::Closing, SessionAction::CleanUp));
    assert_eq!(step(SessionPhase::Active, SessionEvent::Shutdown), (SessionPhase::Closing, SessionAction::CleanUp));
    assert_eq!(step(SessionPhase::Closing, SessionEvent::Frame), (SessionPhase::Closing, SessionAction::CleanUp));
    assert_eq!(step(SessionPhase::Closing, SessionEvent::CleanedUp), (SessionPhase::Closed, SessionAction::Close));
    assert_eq!(step(SessionPhase::Closed, SessionEvent::Registered), (SessionPhase::Closed, SessionAction::Stop));
}

#[test]
fn stream_changes_are_reported() {
    let mut server = SignalingServerState::new();
    let a = server.accept().unwrap();
    let b = server.accept().unwrap();
    let r = create_by_message(&mut server, a, "stage");
    server.handle(b, SignalingMessage::JoinRoom { room_id: r });
    let start = encode(&SignalingMessage::StartStream { room_id: r, stream_key: "k9".to_string() });
    assert_eq!(server.handle_frame(b, Ok(start.clone())).stream_change, None);
    let out = server.handle_frame(a, Ok(start));
    assert_eq!(out.deliveries, vec![]);
    assert_eq!(out.stream_change, Some(StreamChange { room_id: r, stream_key: "k9".to_string(), active: true }));
    let stop = encode(&SignalingMessage::StopStream { room_id: r });
    assert_eq!(server.handle_frame(b, Ok(stop.clone())).stream_change, None);
    let out = server.handle_frame(a, Ok(stop.clone()));
    assert_eq!(out.stream_change, Some(StreamChange { room_id: r, stream_key: "k9".to_string(), active: false }));
    // nothing live any more: stopping again changes nothing
    assert_eq!(server.handle_frame(a, Ok(stop)).stream_change, None);
}
