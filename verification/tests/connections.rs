use signaling::clock::{CLOCK_START, SECOND};
use signaling::config::Config;
use signaling::errors::{AppError, ErrorCode};
use signaling::models::{ClientMessage, Role, ServerMessage, VersionedServerMessage};
use signaling::state::{AppState, Peer};
use signaling::ws_handler::{
    answer, charge, check_admission, check_bad_messages, check_rate_limit, check_version,
    close_connection, handle_decoded, handle_frame, handle_frame_at, handle_text,
    has_room_to_count, increment_bad_messages, open_connection, Admission, Frame, Next, Outcome,
};
use tokio::sync::mpsc;
use uuid::{Uuid, Variant};

const PEER: u128 = 77;

fn connection_state() -> AppState {
    AppState::new(Config {
        host: "127.0.0.1".to_string(),
        port: 8000,
        environment: "production".to_string(),
        rust_log: "info".to_string(),
        session_timeout_minutes: 15,
        heartbeat_timeout_seconds: 180,
        max_message_size: 100,
        max_connections: 2,
        allowed_origins: vec!["https://a.example".to_string()],
        turn_url: None,
        turn_username: None,
        turn_password: None,
    })
}

fn with_peer() -> (AppState, mpsc::UnboundedReceiver<VersionedServerMessage>) {
    let mut state = connection_state();
    let (tx, rx) = mpsc::unbounded_channel();
    state.add_peer_at(PEER, tx, CLOCK_START).unwrap();
    (state, rx)
}

fn told_of(outcome: &Outcome, code: &str, message: &str) {
    let reply = outcome.reply.as_ref().unwrap();
    assert_eq!(reply.version, "1");
    assert_eq!(
        reply.payload,
        ServerMessage::Error { code: code.to_string(), message: message.to_string() }
    );
}

fn bad_count(state: &AppState) -> usize {
    state.peers.get(&PEER).unwrap().bad_message_count
}

fn text_frame(s: &str) -> Frame {
    Frame::Text(s.to_string())
}

#[test]
fn connections_are_let_in_by_cap_and_origin() {
    let mut state = connection_state();
    assert_eq!(check_admission(&state, "https://a.example"), Admission::Accepted);
    assert_eq!(check_admission(&state, "https://b.example"), Admission::ForbiddenOrigin);
    assert_eq!(check_admission(&state, ""), Admission::ForbiddenOrigin);
    state.config.environment = "development".to_string();
    assert_eq!(check_admission(&state, "https://b.example"), Admission::Accepted);
    state.config.environment = "production".to_string();
    state.config.allowed_origins = vec!["*".to_string()];
    assert_eq!(check_admission(&state, "https://b.example"), Admission::Accepted);
    state.config.allowed_origins = Vec::new();
    state.config.max_connections = 0;
    assert_eq!(check_admission(&state, "https://b.example"), Admission::CapReached);
}

#[test]
fn connections_open_under_random_ids() {
    let mut state = connection_state();
    let (tx, _a) = mpsc::unbounded_channel();
    let first = open_connection(&mut state, tx).unwrap();
    let (tx, _b) = mpsc::unbounded_channel();
    let second = open_connection(&mut state, tx).unwrap();
    assert_ne!(first, second);
    for id in [first, second] {
        assert_eq!(Uuid::from_u128(id).get_version_num(), 4);
        assert_eq!(Uuid::from_u128(id).get_variant(), Variant::RFC4122);
        assert!(state.peers.contains_key(&id));
    }
    let (tx, _c) = mpsc::unbounded_channel();
    let e = open_connection(&mut state, tx).unwrap_err();
    assert_eq!(e.code, ErrorCode::RateLimitExceeded);
    assert_eq!(e.message, "Server connection cap reached");
    assert_eq!(state.peers.len(), 2);
}

#[test]
fn connection_that_closes_is_told_to_the_partner() {
    let mut state = connection_state();
    let (tx, mut a) = mpsc::unbounded_channel();
    state.add_peer_at(1, tx, CLOCK_START).unwrap();
    let (tx, _b) = mpsc::unbounded_channel();
    state.add_peer_at(2, tx, CLOCK_START).unwrap();
    state.register_peer(1, Role::Sender).unwrap();
    state.register_peer(2, Role::Receiver).unwrap();
    let (transfer_id, token) = state.create_session(1).unwrap();
    state.request_join_session(2, &transfer_id).unwrap();
    state.approve_join_session(1, &transfer_id, &token, 2).unwrap();
    close_connection(&mut state, 2);
    assert!(!state.peers.contains_key(&2));
    assert_eq!(
        a.try_recv().unwrap().payload,
        ServerMessage::PeerDisconnected {
            peer_id: "00000000-0000-0000-0000-000000000002".to_string(),
            role: Role::Receiver,
        }
    );
    close_connection(&mut state, 2);
    assert!(a.try_recv().is_err());
}

#[test]
fn thirty_messages_may_come_at_once() {
    let (tx, _rx) = mpsc::unbounded_channel();
    let mut peer = Peer::new(1, tx, CLOCK_START);
    for n in 0..30 {
        assert_eq!(peer.rate_limit_tokens, 30 - n);
        assert!(check_rate_limit(&mut peer, CLOCK_START));
    }
    assert!(!check_rate_limit(&mut peer, CLOCK_START));
    assert_eq!(peer.rate_limit_tokens, 0);
    assert_eq!(peer.rate_limit_last_check, CLOCK_START);
}

#[test]
fn message_counts_for_a_minute() {
    let (tx, _rx) = mpsc::unbounded_channel();
    let mut peer = Peer::new(1, tx, CLOCK_START);
    for _ in 0..29 {
        assert!(check_rate_limit(&mut peer, CLOCK_START));
    }
    assert!(check_rate_limit(&mut peer, CLOCK_START + 1));
    assert!(!check_rate_limit(&mut peer, CLOCK_START + 60 * SECOND));
    assert!(check_rate_limit(&mut peer, CLOCK_START + 60 * SECOND + 1));
    assert_eq!(peer.rate_limit_tokens, 28);
    assert_eq!(
        peer.rate_limit_spent,
        vec![CLOCK_START + 1, CLOCK_START + 60 * SECOND + 1]
    );
    assert!(check_rate_limit(&mut peer, CLOCK_START + 60 * SECOND + 2));
    assert_eq!(peer.rate_limit_tokens, 28);
    assert_eq!(peer.rate_limit_last_check, CLOCK_START + 60 * SECOND + 2);
}

#[test]
fn minute_lets_thirty_messages_through_at_most() {
    let (tx, _rx) = mpsc::unbounded_channel();
    let mut peer = Peer::new(1, tx, CLOCK_START);
    let mut through: u64 = 0;
    for tenth in 0..601 {
        if check_rate_limit(&mut peer, CLOCK_START + tenth * SECOND / 10) {
            through += 1;
        }
    }
    assert_eq!(through, 30);
}

#[test]
fn any_minute_lets_thirty_messages_through_at_most() {
    let (tx, _rx) = mpsc::unbounded_channel();
    let mut peer = Peer::new(1, tx, CLOCK_START);
    let mut through: Vec<u64> = Vec::new();
    let mut step: u64 = 0;
    let mut now = CLOCK_START;
    while step < 5000 {
        now += step * step % 7 * SECOND / 20;
        if check_rate_limit(&mut peer, now) {
            through.push(now);
        }
        step += 1;
    }
    assert!(through.len() > 90);
    for first in &through {
        let n = through.iter().filter(|t| **t >= *first && **t - *first <= 60 * SECOND).count();
        assert!(n <= 30, "{}", n);
    }
}

#[test]
fn client_that_keeps_to_thirty_a_minute_is_never_refused() {
    let (tx, _rx) = mpsc::unbounded_channel();
    let mut peer = Peer::new(1, tx, CLOCK_START);
    for minute in 0..5 {
        for n in 0..30 {
            assert!(check_rate_limit(&mut peer, CLOCK_START + minute * (60 * SECOND + 30) + n));
        }
    }
    let (tx, _rx) = mpsc::unbounded_channel();
    let mut peer = Peer::new(1, tx, CLOCK_START);
    for n in 0..300 {
        assert!(check_rate_limit(&mut peer, CLOCK_START + n * (2 * SECOND + 1)));
    }
}

#[test]
fn clock_that_is_behind_gives_nothing_back() {
    let (tx, _rx) = mpsc::unbounded_channel();
    let mut peer = Peer::new(1, tx, CLOCK_START);
    for _ in 0..30 {
        assert!(check_rate_limit(&mut peer, CLOCK_START));
    }
    assert!(!check_rate_limit(&mut peer, 0));
    assert_eq!(peer.rate_limit_tokens, 0);
}

#[test]
fn charging_needs_a_peer() {
    let (mut state, _rx) = with_peer();
    assert!(charge(&mut state, PEER, CLOCK_START));
    assert_eq!(state.peers.get(&PEER).unwrap().rate_limit_tokens, 29);
    assert!(!charge(&mut state, 1, CLOCK_START));
    assert!(!state.peers.contains_key(&1));
}

#[test]
fn bad_messages_are_counted_to_three() {
    let (mut state, _rx) = with_peer();
    assert!(!check_bad_messages(&state, PEER));
    increment_bad_messages(&mut state, PEER);
    increment_bad_messages(&mut state, PEER);
    assert_eq!(bad_count(&state), 2);
    assert!(!check_bad_messages(&state, PEER));
    increment_bad_messages(&mut state, PEER);
    assert!(check_bad_messages(&state, PEER));
    assert!(check_bad_messages(&state, 1));
    increment_bad_messages(&mut state, 1);
    assert!(!state.peers.contains_key(&1));
    assert!(has_room_to_count(&state, PEER));
    assert!(has_room_to_count(&state, 1));
    state.peers.get_mut(&PEER).unwrap().bad_message_count = usize::MAX;
    assert!(!has_room_to_count(&state, PEER));
}

#[test]
fn control_frames_are_answered() {
    let (mut state, _rx) = with_peer();
    let r = handle_frame_at(&mut state, PEER, &Frame::Close, CLOCK_START);
    assert!(r.reply.is_none());
    assert_eq!(r.next, Next::Close);
    let r = handle_frame_at(&mut state, PEER, &Frame::Ping, CLOCK_START + 5);
    assert_eq!(r.reply.unwrap().payload, ServerMessage::HeartbeatAck);
    assert_eq!(r.next, Next::Read);
    assert_eq!(state.peers.get(&PEER).unwrap().last_heartbeat, CLOCK_START);
    let r = handle_frame_at(&mut state, PEER, &Frame::Pong, CLOCK_START + 5);
    assert!(r.reply.is_none());
    assert_eq!(r.next, Next::Read);
    assert_eq!(state.peers.get(&PEER).unwrap().last_heartbeat, CLOCK_START + 5);
}

#[test]
fn pong_at_present_reads_the_clock() {
    let (mut state, _rx) = with_peer();
    state.peers.get_mut(&PEER).unwrap().last_heartbeat = 0;
    handle_frame(&mut state, PEER, &Frame::Pong);
    assert!(state.peers.get(&PEER).unwrap().last_heartbeat >= CLOCK_START);
}

#[test]
fn binary_frames_end_the_connection() {
    let (mut state, _rx) = with_peer();
    let r = handle_frame_at(&mut state, PEER, &Frame::Binary, CLOCK_START);
    told_of(&r, "MALFORMED_MESSAGE", "Binary websocket frames are not allowed");
    assert_eq!(r.next, Next::CloseWith(1003));
    assert_eq!(bad_count(&state), 0);
}

#[test]
fn texts_of_the_protocol_version_are_decoded() {
    let (mut state, _rx) = with_peer();
    for s in [
        r#"{"version":"1","type":"heartbeat"}"#,
        r#" {"type": 7, "version" : "1"} "#,
        r#"{"version":"2","version":"1"}"#,
        "{\"version\":\"\\u0031\"}",
    ] {
        let r = handle_frame_at(&mut state, PEER, &text_frame(s), CLOCK_START);
        assert!(r.reply.is_none());
        assert_eq!(r.next, Next::Decode, "{}", s);
    }
    assert_eq!(state.peers.get(&PEER).unwrap().rate_limit_tokens, 26);
    assert_eq!(bad_count(&state), 0);
}

#[test]
fn texts_that_are_not_json_are_malformed() {
    for s in ["", "hello", "{", r#"{"version":"1",}"#, r#"{"version":'1'}"#, r#""1" x"#] {
        let (mut state, _rx) = with_peer();
        let r = handle_text(&mut state, PEER, s, CLOCK_START);
        told_of(&r, "MALFORMED_MESSAGE", "Invalid JSON");
        assert_eq!(r.next, Next::Read);
        assert_eq!(bad_count(&state), 1);
    }
}

#[test]
fn texts_of_another_version_are_malformed() {
    for s in [
        "{}",
        "[]",
        "\"1\"",
        "null",
        r#"{"version":1}"#,
        r#"{"version":"2"}"#,
        r#"{"version":"1 "}"#,
        r#"{"version":null}"#,
        r#"{"Version":"1"}"#,
        r#"{"a":{"version":"1"}}"#,
        r#"["version","1"]"#,
    ] {
        let (mut state, _rx) = with_peer();
        let r = handle_text(&mut state, PEER, s, CLOCK_START);
        told_of(&r, "MALFORMED_MESSAGE", "Unsupported protocol version");
        assert_eq!(r.next, Next::Read);
        assert_eq!(bad_count(&state), 1);
    }
}

#[test]
fn version_is_checked_by_itself() {
    let (mut state, _rx) = with_peer();
    let r = check_version(&mut state, PEER, Some(Some("1".to_string())));
    assert!(r.reply.is_none());
    assert_eq!(r.next, Next::Decode);
    let r = check_version(&mut state, PEER, None);
    told_of(&r, "MALFORMED_MESSAGE", "Invalid JSON");
    let r = check_version(&mut state, PEER, Some(None));
    told_of(&r, "MALFORMED_MESSAGE", "Unsupported protocol version");
    assert_eq!(r.next, Next::Read);
    let r = check_version(&mut state, PEER, Some(Some("11".to_string())));
    told_of(&r, "MALFORMED_MESSAGE", "Unsupported protocol version");
    assert_eq!(r.next, Next::Close);
}

#[test]
fn third_malformed_text_ends_the_connection() {
    let (mut state, _rx) = with_peer();
    assert_eq!(handle_text(&mut state, PEER, "{", CLOCK_START).next, Next::Read);
    assert_eq!(handle_text(&mut state, PEER, "{}", CLOCK_START).next, Next::Read);
    let r = handle_text(&mut state, PEER, "{", CLOCK_START);
    told_of(&r, "MALFORMED_MESSAGE", "Invalid JSON");
    assert_eq!(r.next, Next::Close);
}

#[test]
fn texts_are_measured_in_bytes() {
    let (mut state, _rx) = with_peer();
    let fits = format!("{{\"version\":\"1\",\"x\":\"{}\"}}", "\u{20ac}".repeat(25) + "abc");
    assert_eq!(fits.len(), 100);
    assert_eq!(handle_text(&mut state, PEER, &fits, CLOCK_START).next, Next::Decode);
    let over = format!("{} ", fits);
    let r = handle_text(&mut state, PEER, &over, CLOCK_START);
    told_of(&r, "RATE_LIMIT_EXCEEDED", "Message too large");
    assert_eq!(r.next, Next::Close);
    assert_eq!(state.peers.get(&PEER).unwrap().rate_limit_tokens, 29);
    assert_eq!(bad_count(&state), 0);
}

#[test]
fn flood_ends_the_connection() {
    let (mut state, _rx) = with_peer();
    let s = r#"{"version":"1","type":"heartbeat"}"#;
    for _ in 0..30 {
        assert_eq!(handle_text(&mut state, PEER, s, CLOCK_START).next, Next::Decode);
    }
    let r = handle_text(&mut state, PEER, s, CLOCK_START);
    told_of(&r, "RATE_LIMIT_EXCEEDED", "Rate limit exceeded");
    assert_eq!(r.next, Next::Close);
    assert_eq!(bad_count(&state), 0);
}

#[test]
fn text_of_a_peer_that_is_gone_ends_the_connection() {
    let (mut state, _rx) = with_peer();
    let r = handle_text(&mut state, 1, r#"{"version":"1"}"#, CLOCK_START);
    told_of(&r, "RATE_LIMIT_EXCEEDED", "Rate limit exceeded");
    assert_eq!(r.next, Next::Close);
}

#[test]
fn message_that_does_not_decode_is_malformed() {
    let (mut state, _rx) = with_peer();
    let r = handle_decoded(&mut state, PEER, None);
    told_of(&r, "MALFORMED_MESSAGE", "Invalid schema");
    assert_eq!(r.next, Next::Read);
    assert_eq!(bad_count(&state), 1);
}

#[test]
fn decoded_message_is_dealt_with() {
    let (mut state, mut rx) = with_peer();
    let r = handle_decoded(
        &mut state,
        PEER,
        Some(ClientMessage::Register { role: Role::Sender }),
    );
    assert!(r.reply.is_none());
    assert_eq!(r.next, Next::Read);
    assert!(r.log.is_none());
    assert!(matches!(rx.try_recv().unwrap().payload, ServerMessage::Registered { .. }));
    let r = handle_decoded(
        &mut state,
        PEER,
        Some(ClientMessage::Register { role: Role::Sender }),
    );
    told_of(&r, "ALREADY_REGISTERED", "Peer already registered");
    assert_eq!(r.next, Next::Read);
    assert_eq!(bad_count(&state), 0);
}

#[test]
fn third_unauthorized_message_ends_the_connection() {
    let (mut state, _rx) = with_peer();
    state.register_peer(PEER, Role::Receiver).unwrap();
    let (tx, _a) = mpsc::unbounded_channel();
    state.add_peer_at(1, tx, CLOCK_START).unwrap();
    state.register_peer(1, Role::Sender).unwrap();
    let (transfer_id, _token) = state.create_session(1).unwrap();
    for n in 1..4 {
        let r = handle_decoded(
            &mut state,
            PEER,
            Some(ClientMessage::Offer {
                transfer_id: transfer_id.clone(),
                sdp: "fake sdp".to_string(),
            }),
        );
        told_of(&r, "UNAUTHORIZED", "Not session member");
        assert_eq!(r.next, if n < 3 { Next::Read } else { Next::Close });
        assert_eq!(bad_count(&state), n);
    }
}

#[test]
fn good_texts_do_not_reset_the_count() {
    let (mut state, mut rx) = with_peer();
    assert_eq!(handle_text(&mut state, PEER, "{", CLOCK_START).next, Next::Read);
    assert_eq!(handle_decoded(&mut state, PEER, Some(ClientMessage::Heartbeat)).next, Next::Read);
    assert_eq!(handle_text(&mut state, PEER, "{}", CLOCK_START).next, Next::Read);
    assert_eq!(
        handle_text(&mut state, PEER, r#"{"version":"1"}"#, CLOCK_START).next,
        Next::Decode
    );
    assert_eq!(handle_frame_at(&mut state, PEER, &Frame::Pong, CLOCK_START).next, Next::Read);
    assert_eq!(bad_count(&state), 2);
    assert_eq!(handle_decoded(&mut state, PEER, None).next, Next::Close);
    assert_eq!(rx.try_recv().unwrap().payload, ServerMessage::HeartbeatAck);
    assert!(rx.try_recv().is_err());
}

#[test]
fn answers_tell_of_errors() {
    let (mut state, _rx) = with_peer();
    let r = answer(&mut state, PEER, Ok(()));
    assert!(r.reply.is_none());
    assert_eq!(r.next, Next::Read);
    let r = answer(&mut state, PEER, Err(AppError::new(ErrorCode::SessionFull, "full")));
    told_of(&r, "SESSION_FULL", "full");
    assert_eq!(r.next, Next::Read);
    assert_eq!(bad_count(&state), 0);
    let r = answer(&mut state, PEER, Err(AppError::new(ErrorCode::MalformedMessage, "bad")));
    told_of(&r, "MALFORMED_MESSAGE", "bad");
    assert_eq!(bad_count(&state), 1);
    let r = answer(&mut state, 1, Err(AppError::new(ErrorCode::Unauthorized, "no")));
    told_of(&r, "UNAUTHORIZED", "no");
    assert_eq!(r.next, Next::Close);
}

#[test]
fn disconnected_peer_is_not_counted() {
    let (mut state, _rx) = with_peer();
    let r = handle_decoded(&mut state, PEER, Some(ClientMessage::Disconnect));
    assert!(r.reply.is_none());
    assert_eq!(
        r.log.unwrap(),
        "Peer 00000000-0000-0000-0000-00000000004d disconnect requested"
    );
    assert_eq!(r.next, Next::Read);
    assert!(!state.peers.contains_key(&PEER));
}
