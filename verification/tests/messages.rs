use signaling::clock::{CLOCK_START, SECOND};
use signaling::config::Config;
use signaling::errors::{AppError, ErrorCode};
use signaling::models::{ClientMessage, Role, ServerMessage, VersionedServerMessage};
use signaling::signaling::{
    delivery_result, handle_message, handle_message_and_log, handle_message_with, notify,
    plan_message, relay_target, send_in_turn, send_to_peer,
};
use signaling::state::AppState;
use tokio::sync::mpsc;
use uuid::Uuid;

type Inbox = mpsc::UnboundedReceiver<VersionedServerMessage>;

const SENDER: u128 = 0x11111111_2222_4333_8444_555555555555;
const RECEIVER: u128 = 0x394c24a3_ecc6_4f74_bb2a_332ec76a99bd;

fn message_state() -> AppState {
    AppState::new(Config {
        host: "127.0.0.1".to_string(),
        port: 8000,
        environment: "development".to_string(),
        rust_log: "info".to_string(),
        session_timeout_minutes: 15,
        heartbeat_timeout_seconds: 180,
        max_message_size: 65536,
        max_connections: 8,
        allowed_origins: vec!["*".to_string()],
        turn_url: None,
        turn_username: None,
        turn_password: None,
    })
}

fn connect(state: &mut AppState, id: u128) -> Inbox {
    let (tx, rx) = mpsc::unbounded_channel();
    state.add_peer_at(id, tx, CLOCK_START).unwrap();
    rx
}

fn deal(state: &mut AppState, id: u128, msg: ClientMessage) -> Result<(), AppError> {
    handle_message_with(
        state,
        id,
        msg,
        CLOCK_START + SECOND,
        "TRANSFER22".to_string(),
        "secret".to_string(),
    )
}

fn next(inbox: &mut Inbox) -> ServerMessage {
    let m = inbox.try_recv().unwrap();
    assert_eq!(m.version, "1");
    m.payload
}

fn nothing_more(inbox: &mut Inbox) {
    assert!(inbox.try_recv().is_err());
}

fn refused_with(r: Result<(), AppError>, code: ErrorCode, message: &str) {
    let e = r.unwrap_err();
    assert_eq!(e.code, code);
    assert_eq!(e.message, message);
}

fn join(transfer_id: &str) -> ClientMessage {
    ClientMessage::JoinSession { transfer_id: transfer_id.to_string() }
}

fn approve(transfer_id: &str, token: &str, receiver_id: &str) -> ClientMessage {
    ClientMessage::ApproveJoin {
        transfer_id: transfer_id.to_string(),
        token: token.to_string(),
        receiver_id: receiver_id.to_string(),
    }
}

fn offer(sdp: &str) -> ClientMessage {
    ClientMessage::Offer { transfer_id: "TRANSFER22".to_string(), sdp: sdp.to_string() }
}

fn candidate(text: &str) -> ClientMessage {
    ClientMessage::IceCandidate {
        transfer_id: "TRANSFER22".to_string(),
        candidate: text.to_string(),
        sdp_mid: Some("0".to_string()),
        sdp_mline_index: Some(3),
    }
}

/// A server with a sender and a receiver who share a session, their inboxes
/// read empty.
fn arranged() -> (AppState, Inbox, Inbox) {
    let mut state = message_state();
    let mut a = connect(&mut state, SENDER);
    let mut b = connect(&mut state, RECEIVER);
    deal(&mut state, SENDER, ClientMessage::Register { role: Role::Sender }).unwrap();
    deal(&mut state, RECEIVER, ClientMessage::Register { role: Role::Receiver }).unwrap();
    deal(&mut state, SENDER, ClientMessage::CreateSession).unwrap();
    deal(&mut state, RECEIVER, join("TRANSFER22")).unwrap();
    let text = "394c24a3-ecc6-4f74-bb2a-332ec76a99bd";
    deal(&mut state, SENDER, approve("TRANSFER22", "secret", text)).unwrap();
    while a.try_recv().is_ok() {}
    while b.try_recv().is_ok() {}
    (state, a, b)
}

#[test]
fn transfer_is_arranged_step_by_step() {
    let mut state = message_state();
    let mut a = connect(&mut state, SENDER);
    let mut b = connect(&mut state, RECEIVER);

    deal(&mut state, SENDER, ClientMessage::Register { role: Role::Sender }).unwrap();
    assert_eq!(
        next(&mut a),
        ServerMessage::Registered { peer_id: "11111111-2222-4333-8444-555555555555".to_string() }
    );
    deal(&mut state, RECEIVER, ClientMessage::Register { role: Role::Receiver }).unwrap();
    assert_eq!(
        next(&mut b),
        ServerMessage::Registered { peer_id: "394c24a3-ecc6-4f74-bb2a-332ec76a99bd".to_string() }
    );

    deal(&mut state, SENDER, ClientMessage::CreateSession).unwrap();
    assert_eq!(
        next(&mut a),
        ServerMessage::SessionCreated {
            transfer_id: "TRANSFER22".to_string(),
            token: "secret".to_string(),
        }
    );

    deal(&mut state, RECEIVER, join("TRANSFER22")).unwrap();
    assert_eq!(
        next(&mut a),
        ServerMessage::JoinRequest {
            receiver_id: "394c24a3-ecc6-4f74-bb2a-332ec76a99bd".to_string(),
        }
    );
    nothing_more(&mut b);

    let text = "394C24A3ECC64F74BB2A332EC76A99BD";
    deal(&mut state, SENDER, approve("TRANSFER22", "secret", text)).unwrap();
    assert_eq!(
        next(&mut b),
        ServerMessage::SessionJoined { transfer_id: "TRANSFER22".to_string() }
    );
    assert_eq!(
        next(&mut a),
        ServerMessage::PeerJoined { peer_id: text.to_string(), role: Role::Receiver }
    );
    nothing_more(&mut a);
    nothing_more(&mut b);
}

#[test]
fn receiver_ids_are_read_in_every_form() {
    for text in [
        "394c24a3-ecc6-4f74-bb2a-332ec76a99bd",
        "394C24A3-ECC6-4F74-BB2A-332EC76A99BD",
        "394c24a3ecc64f74bb2a332ec76a99bd",
        "{394c24a3-ecc6-4f74-bb2a-332ec76a99bd}",
        "urn:uuid:394c24a3-ecc6-4f74-bb2a-332ec76a99bd",
        "URN:UUID:394C24A3-ecc6-4f74-bb2a-332ec76a99bd",
    ] {
        let (mut state, _a, mut b) = arranged();
        let r = deal(&mut state, SENDER, approve("TRANSFER22", "secret", text));
        assert!(r.is_ok(), "{}", text);
        assert_eq!(
            next(&mut b),
            ServerMessage::SessionJoined { transfer_id: "TRANSFER22".to_string() }
        );
    }
}

#[test]
fn texts_that_are_no_receiver_ids_are_malformed() {
    for text in [
        "",
        "receiver",
        "394c24a3-ecc6-4f74-bb2a-332ec76a99b",
        "394c24a3-ecc6-4f74-bb2a-332ec76a99bg",
        "394c24a3ecc6-4f74-bb2a-332ec76a99bd-",
        "394c24a3ecc64f74bb2a332ec76a99b\u{e9}",
        "{394c24a3-ecc6-4f74-bb2a-332ec76a99bd",
        "{394c24a3ecc64f74bb2a332ec76a99bd}",
        "urn:uuie:394c24a3-ecc6-4f74-bb2a-332ec76a99bd",
        "urn:uuid:394c24a3ecc64f74bb2a332ec76a99bd",
        " 394c24a3-ecc6-4f74-bb2a-332ec76a99bd",
    ] {
        let (mut state, _a, _b) = arranged();
        refused_with(
            deal(&mut state, SENDER, approve("TRANSFER22", "secret", text)),
            ErrorCode::MalformedMessage,
            "Invalid receiver UUID",
        );
    }
}

#[test]
fn refusals_leave_everything_as_it_was() {
    let (mut state, mut a, mut b) = arranged();
    refused_with(
        deal(&mut state, SENDER, ClientMessage::Register { role: Role::Receiver }),
        ErrorCode::AlreadyRegistered,
        "Peer already registered",
    );
    refused_with(
        deal(&mut state, SENDER, ClientMessage::CreateSession),
        ErrorCode::AlreadyRegistered,
        "Sender already has active session",
    );
    refused_with(
        deal(&mut state, RECEIVER, join("TRANSFER22")),
        ErrorCode::AlreadyRegistered,
        "Receiver already in session",
    );
    refused_with(
        deal(
            &mut state,
            SENDER,
            approve("TRANSFER22", "guess", "394c24a3-ecc6-4f74-bb2a-332ec76a99bd"),
        ),
        ErrorCode::Unauthorized,
        "Invalid token",
    );
    assert_eq!(state.peers.len(), 2);
    assert_eq!(state.sessions.len(), 1);
    assert_eq!(state.peers.get(&SENDER).unwrap().role, Some(Role::Sender));
    assert_eq!(state.sessions.get("TRANSFER22").unwrap().receiver_id, Some(RECEIVER));
    nothing_more(&mut a);
    nothing_more(&mut b);
}

#[test]
fn offers_answers_and_candidates_reach_the_partner() {
    let (mut state, mut a, mut b) = arranged();
    deal(&mut state, SENDER, offer("v=0")).unwrap();
    assert_eq!(next(&mut b), ServerMessage::RelayOffer { sdp: "v=0".to_string() });
    let reply = ClientMessage::Answer {
        transfer_id: "TRANSFER22".to_string(),
        sdp: "v=1".to_string(),
    };
    deal(&mut state, RECEIVER, reply).unwrap();
    assert_eq!(next(&mut a), ServerMessage::RelayAnswer { sdp: "v=1".to_string() });
    deal(&mut state, SENDER, candidate("candidate:1")).unwrap();
    assert_eq!(
        next(&mut b),
        ServerMessage::RelayIceCandidate {
            candidate: "candidate:1".to_string(),
            sdp_mid: Some("0".to_string()),
            sdp_mline_index: Some(3),
        }
    );
    deal(&mut state, RECEIVER, offer("v=2")).unwrap();
    assert_eq!(next(&mut a), ServerMessage::RelayOffer { sdp: "v=2".to_string() });
    nothing_more(&mut a);
    nothing_more(&mut b);
}

#[test]
fn blank_candidates_are_malformed() {
    let (mut state, _a, mut b) = arranged();
    for text in ["", "  ", "\t\n\u{3000}"] {
        refused_with(
            deal(&mut state, SENDER, candidate(text)),
            ErrorCode::MalformedMessage,
            "Empty ICE candidate",
        );
    }
    nothing_more(&mut b);
}

#[test]
fn relay_is_for_members_with_a_partner() {
    let (mut state, _a, _b) = arranged();
    assert_eq!(relay_target(&state, SENDER, "TRANSFER22").unwrap(), RECEIVER);
    assert_eq!(relay_target(&state, RECEIVER, "TRANSFER22").unwrap(), SENDER);
    let e = relay_target(&state, 7, "TRANSFER22").unwrap_err();
    assert_eq!((e.code, e.message.as_str()), (ErrorCode::Unauthorized, "Not session member"));
    let e = relay_target(&state, SENDER, "OTHER22222").unwrap_err();
    assert_eq!((e.code, e.message.as_str()), (ErrorCode::InvalidSession, "Session not found"));

    state.sessions.get_mut("TRANSFER22").unwrap().sender_id = None;
    let e = relay_target(&state, RECEIVER, "TRANSFER22").unwrap_err();
    assert_eq!((e.code, e.message.as_str()), (ErrorCode::PeerNotFound, "Sender missing"));

    {
        let mut s = state.sessions.get_mut("TRANSFER22").unwrap();
        s.sender_id = Some(SENDER);
        s.receiver_id = None;
    }
    refused_with(
        deal(&mut state, SENDER, offer("v=0")),
        ErrorCode::PeerNotFound,
        "Receiver missing",
    );
}

#[test]
fn receiver_that_is_not_approved_cannot_speak() {
    let mut state = message_state();
    let _a = connect(&mut state, SENDER);
    let _b = connect(&mut state, RECEIVER);
    deal(&mut state, SENDER, ClientMessage::Register { role: Role::Sender }).unwrap();
    deal(&mut state, RECEIVER, ClientMessage::Register { role: Role::Receiver }).unwrap();
    deal(&mut state, SENDER, ClientMessage::CreateSession).unwrap();
    deal(&mut state, RECEIVER, join("TRANSFER22")).unwrap();
    refused_with(
        deal(&mut state, RECEIVER, offer("v=0")),
        ErrorCode::Unauthorized,
        "Not session member",
    );
}

#[test]
fn heartbeat_is_noted_and_acknowledged() {
    let mut state = message_state();
    let mut a = connect(&mut state, SENDER);
    deal(&mut state, SENDER, ClientMessage::Heartbeat).unwrap();
    assert_eq!(state.peers.get(&SENDER).unwrap().last_heartbeat, CLOCK_START + SECOND);
    assert_eq!(next(&mut a), ServerMessage::HeartbeatAck);
    refused_with(
        deal(&mut state, 7, ClientMessage::Heartbeat),
        ErrorCode::PeerDisconnected,
        "Peer not found",
    );
}

#[test]
fn heartbeat_at_present_reads_the_clock() {
    let mut state = message_state();
    let mut a = connect(&mut state, SENDER);
    state.peers.get_mut(&SENDER).unwrap().last_heartbeat = 0;
    handle_message(&mut state, SENDER, ClientMessage::Heartbeat).unwrap();
    assert!(state.peers.get(&SENDER).unwrap().last_heartbeat >= CLOCK_START);
    assert_eq!(next(&mut a), ServerMessage::HeartbeatAck);
}

#[test]
fn session_created_at_present_is_told_as_it_is_kept() {
    let mut state = message_state();
    let mut a = connect(&mut state, SENDER);
    state.register_peer(SENDER, Role::Sender).unwrap();
    handle_message(&mut state, SENDER, ClientMessage::CreateSession).unwrap();
    match next(&mut a) {
        ServerMessage::SessionCreated { transfer_id, token } => {
            assert_eq!(transfer_id.len(), 10);
            assert_eq!(token.len(), 32);
            let s = state.sessions.get(&transfer_id).unwrap();
            assert_eq!(s.token, token);
            assert_eq!(s.sender_id, Some(SENDER));
        }
        other => panic!("unexpected {:?}", other),
    }
}

#[test]
fn disconnect_is_told_to_the_partner() {
    let (mut state, mut a, mut b) = arranged();
    deal(&mut state, RECEIVER, ClientMessage::Disconnect).unwrap();
    assert_eq!(
        next(&mut a),
        ServerMessage::PeerDisconnected {
            peer_id: "394c24a3-ecc6-4f74-bb2a-332ec76a99bd".to_string(),
            role: Role::Receiver,
        }
    );
    nothing_more(&mut b);
    assert!(!state.peers.contains_key(&RECEIVER));
    deal(&mut state, RECEIVER, ClientMessage::Disconnect).unwrap();
    nothing_more(&mut a);
}

#[test]
fn disconnect_succeeds_though_the_partner_is_deaf() {
    let (mut state, a, _b) = arranged();
    drop(a);
    assert!(deal(&mut state, RECEIVER, ClientMessage::Disconnect).is_ok());
    assert!(!state.peers.contains_key(&RECEIVER));
}

#[test]
fn relay_to_a_deaf_or_absent_partner_fails() {
    let (mut state, _a, b) = arranged();
    drop(b);
    refused_with(
        deal(&mut state, SENDER, offer("v=0")),
        ErrorCode::PeerDisconnected,
        "Peer connection closed",
    );
    let (mut state, _a, _b) = arranged();
    state.peers.remove(&RECEIVER);
    refused_with(
        deal(&mut state, SENDER, offer("v=0")),
        ErrorCode::PeerDisconnected,
        "Peer not found",
    );
}

#[test]
fn join_request_to_a_deaf_sender_fails_but_counts() {
    let mut state = message_state();
    let a = connect(&mut state, SENDER);
    let _b = connect(&mut state, RECEIVER);
    deal(&mut state, SENDER, ClientMessage::Register { role: Role::Sender }).unwrap();
    deal(&mut state, RECEIVER, ClientMessage::Register { role: Role::Receiver }).unwrap();
    deal(&mut state, SENDER, ClientMessage::CreateSession).unwrap();
    drop(a);
    refused_with(
        deal(&mut state, RECEIVER, join("TRANSFER22")),
        ErrorCode::PeerDisconnected,
        "Peer connection closed",
    );
    assert_eq!(
        state.peers.get(&RECEIVER).unwrap().session_id.as_deref(),
        Some("TRANSFER22")
    );
}

#[test]
fn approval_stops_at_a_deaf_receiver() {
    let mut state = message_state();
    let mut a = connect(&mut state, SENDER);
    let b = connect(&mut state, RECEIVER);
    state.register_peer(SENDER, Role::Sender).unwrap();
    state.register_peer(RECEIVER, Role::Receiver).unwrap();
    deal(&mut state, SENDER, ClientMessage::CreateSession).unwrap();
    let _ = next(&mut a);
    drop(b);
    refused_with(
        deal(
            &mut state,
            SENDER,
            approve("TRANSFER22", "secret", "394c24a3-ecc6-4f74-bb2a-332ec76a99bd"),
        ),
        ErrorCode::PeerDisconnected,
        "Peer connection closed",
    );
    nothing_more(&mut a);
    assert_eq!(state.sessions.get("TRANSFER22").unwrap().receiver_id, Some(RECEIVER));
}

#[test]
fn plans_name_what_is_to_go_out() {
    let (mut state, mut a, mut b) = arranged();
    let leave = ClientMessage::Disconnect;
    let nobody = plan_message(&mut state, 7, &leave, CLOCK_START, String::new(), String::new());
    assert!(nobody.unwrap().is_empty());
    let plan = plan_message(
        &mut state,
        SENDER,
        &offer("v=0"),
        CLOCK_START,
        String::new(),
        String::new(),
    )
    .unwrap();
    assert_eq!(plan.len(), 1);
    assert_eq!(plan[0].0, RECEIVER);
    assert_eq!(plan[0].1, ServerMessage::RelayOffer { sdp: "v=0".to_string() });
    nothing_more(&mut a);
    nothing_more(&mut b);
}

#[test]
fn plan_of_a_farewell_tells_the_partner() {
    let (mut state, mut a, _b) = arranged();
    let leave = ClientMessage::Disconnect;
    let plan =
        plan_message(&mut state, RECEIVER, &leave, CLOCK_START, String::new(), String::new())
            .unwrap();
    assert_eq!(plan.len(), 1);
    assert_eq!(plan[0].0, SENDER);
    assert_eq!(
        plan[0].1,
        ServerMessage::PeerDisconnected {
            peer_id: "394c24a3-ecc6-4f74-bb2a-332ec76a99bd".to_string(),
            role: Role::Receiver,
        }
    );
    assert!(!state.peers.contains_key(&RECEIVER));
    nothing_more(&mut a);
}

fn log_of(state: &mut AppState, id: u128, msg: ClientMessage) -> Option<String> {
    handle_message_and_log(state, id, msg).1
}

#[test]
fn logs_show_redacted_parts() {
    let (mut state, _a, _b) = arranged();
    let sender = "11111111-2222-4333-8444-555555555555";
    let receiver = "394c24a3-ecc6-4f74-bb2a-332ec76a99bd";
    assert_eq!(
        log_of(&mut state, SENDER, offer("fake sdp")),
        Some(format!("Offer relay {} -> {} SDP=[SDP payload (8 bytes)]", sender, receiver))
    );
    let reply = ClientMessage::Answer {
        transfer_id: "TRANSFER22".to_string(),
        sdp: "v=1".to_string(),
    };
    assert_eq!(
        log_of(&mut state, RECEIVER, reply),
        Some(format!("Answer relay {} -> {} SDP=[SDP payload (3 bytes)]", receiver, sender))
    );
    assert_eq!(
        log_of(&mut state, SENDER, candidate("candidate:1")),
        Some(format!("ICE relay {} -> {} [ICE Candidate (11 bytes)]", sender, receiver))
    );
    assert_eq!(
        log_of(&mut state, SENDER, approve("TRANSFER22", "secret", receiver)),
        Some(format!("Sender {} approved receiver {}", sender, receiver))
    );
    assert_eq!(log_of(&mut state, SENDER, approve("TRANSFER22", "guess", receiver)), None);
    assert_eq!(log_of(&mut state, SENDER, ClientMessage::Heartbeat), None);
    assert_eq!(
        log_of(&mut state, RECEIVER, ClientMessage::Disconnect),
        Some(format!("Peer {} disconnect requested", receiver))
    );
}

#[test]
fn logs_show_the_ends_of_a_new_token() {
    let mut state = message_state();
    let mut a = connect(&mut state, SENDER);
    let _b = connect(&mut state, RECEIVER);
    assert_eq!(
        log_of(&mut state, SENDER, ClientMessage::Register { role: Role::Sender }),
        None
    );
    let _ = next(&mut a);
    state.register_peer(RECEIVER, Role::Receiver).unwrap();
    let line = log_of(&mut state, SENDER, ClientMessage::CreateSession).unwrap();
    match next(&mut a) {
        ServerMessage::SessionCreated { transfer_id, token } => {
            assert_eq!(
                line,
                format!(
                    "Session created transfer_id={} sender={} token={}...{}",
                    transfer_id,
                    "11111111-2222-4333-8444-555555555555",
                    &token[..3],
                    &token[29..]
                )
            );
            assert_eq!(
                log_of(&mut state, RECEIVER, join(&transfer_id)),
                Some(format!(
                    "Receiver 394c24a3-ecc6-4f74-bb2a-332ec76a99bd requested join for {}",
                    transfer_id
                ))
            );
        }
        other => panic!("unexpected {:?}", other),
    }
}

#[test]
fn messages_reach_open_channels_only() {
    let mut state = message_state();
    let mut a = connect(&mut state, SENDER);
    let b = connect(&mut state, RECEIVER);
    drop(b);
    let ack = ServerMessage::HeartbeatAck;
    assert!(send_to_peer(&mut state, SENDER, ack.clone()).is_ok());
    assert_eq!(next(&mut a), ServerMessage::HeartbeatAck);
    refused_with(
        send_to_peer(&mut state, RECEIVER, ack.clone()),
        ErrorCode::PeerDisconnected,
        "Peer connection closed",
    );
    refused_with(
        send_to_peer(&mut state, 7, ack),
        ErrorCode::PeerDisconnected,
        "Peer not found",
    );
    assert!(delivery_result(true).is_ok());
    refused_with(
        delivery_result(false),
        ErrorCode::PeerDisconnected,
        "Peer connection closed",
    );
}

#[test]
fn news_goes_to_all_and_messages_in_turn_stop() {
    let mut state = message_state();
    let mut a = connect(&mut state, SENDER);
    let ack = VersionedServerMessage::new(ServerMessage::HeartbeatAck);
    notify(&mut state, vec![(7, ack.clone()), (SENDER, ack.clone()), (SENDER, ack.clone())]);
    assert_eq!(next(&mut a), ServerMessage::HeartbeatAck);
    assert_eq!(next(&mut a), ServerMessage::HeartbeatAck);
    nothing_more(&mut a);
    let ack = ServerMessage::HeartbeatAck;
    let r = send_in_turn(&mut state, vec![(SENDER, ack.clone()), (7, ack.clone()), (SENDER, ack)]);
    refused_with(r, ErrorCode::PeerDisconnected, "Peer not found");
    assert_eq!(next(&mut a), ServerMessage::HeartbeatAck);
    nothing_more(&mut a);
}

#[test]
fn ids_are_written_as_uuids() {
    for id in [0, 1, SENDER, RECEIVER, u128::MAX] {
        let mut state = message_state();
        let mut a = connect(&mut state, id);
        deal(&mut state, id, ClientMessage::Register { role: Role::Receiver }).unwrap();
        assert_eq!(
            next(&mut a),
            ServerMessage::Registered { peer_id: Uuid::from_u128(id).to_string() }
        );
    }
}

fn assert_consistent(state: &AppState) {
    for p in state.peers.iter() {
        assert_eq!(p.value().id, *p.key());
    }
    for s in state.sessions.iter() {
        assert_eq!(s.value().transfer_id, *s.key());
        let sender = state.peers.get(&s.value().sender_id.unwrap()).unwrap();
        assert_eq!(sender.role, Some(Role::Sender));
        assert_eq!(sender.session_id.as_ref(), Some(s.key()));
        if let Some(r) = s.value().receiver_id {
            if let Some(receiver) = state.peers.get(&r) {
                assert_eq!(receiver.role, Some(Role::Receiver));
            }
        }
    }
}

#[test]
fn server_stays_consistent() {
    let text = "394c24a3-ecc6-4f74-bb2a-332ec76a99bd";
    let mut state = message_state();
    let _a = connect(&mut state, SENDER);
    let _b = connect(&mut state, RECEIVER);
    let _c = connect(&mut state, 7);
    assert_consistent(&state);
    let steps = vec![
        (SENDER, ClientMessage::Register { role: Role::Sender }),
        (RECEIVER, ClientMessage::Register { role: Role::Receiver }),
        (7, ClientMessage::Register { role: Role::Receiver }),
        (SENDER, ClientMessage::CreateSession),
        (7, join("TRANSFER22")),
        (SENDER, approve("TRANSFER22", "secret", text)),
        (RECEIVER, offer("v=0")),
        (7, offer("v=0")),
        (SENDER, ClientMessage::Heartbeat),
        (RECEIVER, ClientMessage::Disconnect),
        (7, ClientMessage::Disconnect),
        (SENDER, ClientMessage::Disconnect),
    ];
    for (id, msg) in steps {
        let _ = deal(&mut state, id, msg);
        assert_consistent(&state);
    }
    assert_eq!(state.peers.len(), 0);
    assert_eq!(state.sessions.len(), 0);
}

#[test]
fn heartbeat_keeps_a_peer_from_being_cleared_away() {
    let mut state = message_state();
    let _a = connect(&mut state, SENDER);
    let _b = connect(&mut state, RECEIVER);
    deal(&mut state, SENDER, ClientMessage::Heartbeat).unwrap();
    assert!(state.cleanup_stale_at(CLOCK_START + 181 * SECOND).is_empty());
    assert!(state.peers.contains_key(&SENDER));
    assert!(!state.peers.contains_key(&RECEIVER));
    assert!(state.cleanup_stale_at(CLOCK_START + 182 * SECOND).is_empty());
    assert!(!state.peers.contains_key(&SENDER));
}

#[test]
fn refused_relay_reaches_nobody() {
    let (mut state, mut a, mut b) = arranged();
    let mut c = connect(&mut state, 7);
    state.register_peer(7, Role::Receiver).unwrap();
    refused_with(
        deal(&mut state, 7, offer("fake sdp")),
        ErrorCode::Unauthorized,
        "Not session member",
    );
    nothing_more(&mut a);
    nothing_more(&mut b);
    nothing_more(&mut c);
    deal(&mut state, SENDER, offer("v=0")).unwrap();
    assert_eq!(next(&mut b), ServerMessage::RelayOffer { sdp: "v=0".to_string() });
    nothing_more(&mut a);
    nothing_more(&mut b);
    nothing_more(&mut c);
}

#[test]
fn token_is_told_to_its_sender_alone() {
    let mut state = message_state();
    let mut a = connect(&mut state, SENDER);
    let mut b = connect(&mut state, RECEIVER);
    state.register_peer(SENDER, Role::Sender).unwrap();
    state.register_peer(RECEIVER, Role::Receiver).unwrap();
    deal(&mut state, SENDER, ClientMessage::CreateSession).unwrap();
    assert!(matches!(next(&mut a), ServerMessage::SessionCreated { .. }));
    nothing_more(&mut a);
    nothing_more(&mut b);
}
