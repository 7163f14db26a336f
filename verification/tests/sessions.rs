use signaling::clock::{reading, CLOCK_START, SECOND};
use signaling::config::Config;
use signaling::errors::{AppError, ErrorCode};
use signaling::models::{Role, ServerMessage, VersionedServerMessage};
use signaling::state::{AppState, Peer};
use tokio::sync::mpsc;
use uuid::Uuid;

const NOW: u64 = CLOCK_START;
const MINUTE: u64 = 60 * SECOND;

fn session_state() -> AppState {
    AppState::new(Config {
        host: "127.0.0.1".to_string(),
        port: 8000,
        environment: "development".to_string(),
        rust_log: "info".to_string(),
        session_timeout_minutes: 15,
        heartbeat_timeout_seconds: 180,
        max_message_size: 65536,
        max_connections: 4,
        allowed_origins: vec!["*".to_string()],
        turn_url: None,
        turn_username: None,
        turn_password: None,
    })
}

fn join_in(
    state: &mut AppState,
    id: u128,
    role: Option<Role>,
) -> mpsc::UnboundedReceiver<VersionedServerMessage> {
    let (tx, rx) = mpsc::unbounded_channel();
    state.add_peer_at(id, tx, NOW).unwrap();
    if let Some(r) = role {
        state.register_peer(id, r).unwrap();
    }
    rx
}

fn open_session(state: &mut AppState, sender: u128) {
    state
        .create_session_with(sender, "TRANSFER22".to_string(), "secret".to_string(), NOW)
        .unwrap();
}

fn assert_refused<T>(r: Result<T, AppError>, code: ErrorCode, message: &str) {
    match r {
        Ok(_) => panic!("not refused"),
        Err(e) => {
            assert_eq!(e.error_type, "error");
            assert_eq!(e.code, code);
            assert_eq!(e.message, message);
        }
    }
}

fn session_id_of(state: &AppState, id: u128) -> Option<String> {
    state.peers.get(&id).unwrap().session_id.clone()
}

#[test]
fn server_starts_empty() {
    let state = session_state();
    assert_eq!(state.peers.len(), 0);
    assert_eq!(state.sessions.len(), 0);
    assert_eq!(state.config.max_connections, 4);
}

#[test]
fn clock_starts_and_runs_forward() {
    let state = session_state();
    let a = state.clock.now();
    let b = state.clock.now();
    assert!(a >= CLOCK_START);
    assert!(a < CLOCK_START + MINUTE);
    assert!(b >= a);
    let mut c = b;
    let mut turns: u64 = 0;
    while c == b && turns < 1_000_000_000 {
        c = state.clock.now();
        turns += 1;
    }
    assert!(c > b);
}

#[test]
fn new_peer_has_a_full_hand() {
    let (tx, _rx) = mpsc::unbounded_channel();
    let p = Peer::new(9, tx, NOW);
    assert_eq!(p.id, 9);
    assert_eq!(p.role, None);
    assert_eq!(p.last_heartbeat, NOW);
    assert_eq!(p.session_id, None);
    assert_eq!(p.rate_limit_tokens, 30);
    assert!(p.rate_limit_spent.is_empty());
    assert_eq!(p.rate_limit_last_check, NOW);
    assert_eq!(p.bad_message_count, 0);
}

#[test]
fn facts_of_a_peer_go_with_its_channel() {
    let (tx, mut rx) = mpsc::unbounded_channel();
    let mut p = Peer::new(9, tx, NOW);
    p.session_id = Some("TRANSFER22".to_string());
    p.rate_limit_spent = vec![NOW, NOW + 1];
    let mut f = p.facts();
    assert_eq!(f.id, 9);
    assert_eq!(f.role, None);
    assert_eq!(f.last_heartbeat, NOW);
    assert_eq!(f.session_id.as_deref(), Some("TRANSFER22"));
    assert_eq!(f.rate_limit_spent, vec![NOW, NOW + 1]);
    f.role = Some(Role::Sender);
    f.bad_message_count = 2;
    let q = p.with_facts(f);
    assert_eq!(q.role, Some(Role::Sender));
    assert_eq!(q.bad_message_count, 2);
    assert_eq!(q.rate_limit_spent, vec![NOW, NOW + 1]);
    assert!(q.tx.send(VersionedServerMessage::new(ServerMessage::HeartbeatAck)).is_ok());
    assert_eq!(rx.try_recv().unwrap().payload, ServerMessage::HeartbeatAck);
}

#[test]
fn peer_that_leaves_has_its_channel_closed() {
    let mut state = session_state();
    let mut rx = join_in(&mut state, 1, Some(Role::Sender));
    assert!(matches!(rx.try_recv(), Err(mpsc::error::TryRecvError::Empty)));
    state.register_peer(1, Role::Receiver).unwrap_err();
    assert!(matches!(rx.try_recv(), Err(mpsc::error::TryRecvError::Empty)));
    state.remove_peer(1);
    assert!(matches!(rx.try_recv(), Err(mpsc::error::TryRecvError::Disconnected)));
}

#[test]
fn connections_are_capped() {
    let mut state = session_state();
    let mut kept = Vec::new();
    for id in 1..5 {
        kept.push(join_in(&mut state, id, None));
    }
    let (tx, _rx) = mpsc::unbounded_channel();
    assert_refused(
        state.add_peer_at(5, tx, NOW),
        ErrorCode::RateLimitExceeded,
        "Server connection cap reached",
    );
    assert_eq!(state.peers.len(), 4);
    state.remove_peer(1);
    let (tx, _rx) = mpsc::unbounded_channel();
    assert!(state.add_peer(5, tx).is_ok());
    assert_eq!(state.peers.len(), 4);
}

#[test]
fn registration_needs_a_peer_without_a_role() {
    let mut state = session_state();
    assert_refused(
        state.register_peer(1, Role::Sender),
        ErrorCode::NotRegistered,
        "Peer not found",
    );
    let _rx = join_in(&mut state, 1, Some(Role::Receiver));
    assert_refused(
        state.register_peer(1, Role::Sender),
        ErrorCode::AlreadyRegistered,
        "Peer already registered",
    );
    assert_eq!(state.peers.get(&1).unwrap().role, Some(Role::Receiver));
}

#[test]
fn sessions_are_created_by_free_senders() {
    let mut state = session_state();
    assert_refused(state.create_session(1), ErrorCode::NotRegistered, "Sender not found");
    let _a = join_in(&mut state, 1, None);
    assert_refused(
        state.create_session(1),
        ErrorCode::InvalidRole,
        "Only senders can create sessions",
    );
    let _b = join_in(&mut state, 2, Some(Role::Receiver));
    assert_refused(
        state.create_session(2),
        ErrorCode::InvalidRole,
        "Only senders can create sessions",
    );
    let _c = join_in(&mut state, 3, Some(Role::Sender));
    open_session(&mut state, 3);
    assert_refused(
        state.create_session(3),
        ErrorCode::AlreadyRegistered,
        "Sender already has active session",
    );
    assert_eq!(state.sessions.len(), 1);
}

#[test]
fn session_holds_what_it_was_created_with() {
    let mut state = session_state();
    let _rx = join_in(&mut state, 3, Some(Role::Sender));
    let r = state.create_session_with(3, "TRANSFER22".to_string(), "secret".to_string(), NOW + 5);
    assert_eq!(r.unwrap(), ("TRANSFER22".to_string(), "secret".to_string()));
    {
        let s = state.sessions.get("TRANSFER22").unwrap();
        assert_eq!(s.transfer_id, "TRANSFER22");
        assert_eq!(s.token, "secret");
        assert_eq!(s.sender_id, Some(3));
        assert_eq!(s.receiver_id, None);
        assert_eq!(s.created_at, NOW + 5);
        assert_eq!(s.expires_at, (NOW + 5 + 15 * MINUTE) as u128);
    }
    assert_eq!(session_id_of(&state, 3).as_deref(), Some("TRANSFER22"));
}

#[test]
fn expiry_of_a_very_long_session_is_exact() {
    let mut state = session_state();
    state.config.session_timeout_minutes = u64::MAX;
    let _rx = join_in(&mut state, 3, Some(Role::Sender));
    open_session(&mut state, 3);
    assert_eq!(
        state.sessions.get("TRANSFER22").unwrap().expires_at,
        NOW as u128 + u64::MAX as u128 * 60 * SECOND as u128
    );
}

#[test]
fn created_session_bears_drawn_codes() {
    let mut state = session_state();
    let _rx = join_in(&mut state, 3, Some(Role::Sender));
    let before = state.clock.now();
    let (transfer_id, token) = state.create_session(3).unwrap();
    let after = state.clock.now();
    assert_eq!(session_id_of(&state, 3), Some(transfer_id.clone()));
    let s = state.sessions.get(&transfer_id).unwrap();
    assert_eq!(s.transfer_id, transfer_id);
    assert_eq!(s.token, token);
    assert!(before <= s.created_at && s.created_at <= after);
    assert_eq!(s.expires_at, (s.created_at + 15 * MINUTE) as u128);
}

#[test]
fn joining_needs_a_free_receiver() {
    let mut state = session_state();
    let _a = join_in(&mut state, 1, Some(Role::Sender));
    open_session(&mut state, 1);
    assert_refused(
        state.request_join_session_at(2, "TRANSFER22", NOW),
        ErrorCode::NotRegistered,
        "Receiver not found",
    );
    assert_refused(
        state.request_join_session_at(1, "TRANSFER22", NOW),
        ErrorCode::InvalidRole,
        "Only receivers can join sessions",
    );
    let _b = join_in(&mut state, 2, Some(Role::Receiver));
    assert_eq!(state.request_join_session_at(2, "TRANSFER22", NOW).unwrap(), 1);
    assert_eq!(session_id_of(&state, 2).as_deref(), Some("TRANSFER22"));
    assert_refused(
        state.request_join_session_at(2, "TRANSFER22", NOW),
        ErrorCode::AlreadyRegistered,
        "Receiver already in session",
    );
}

#[test]
fn joining_needs_an_open_session() {
    let mut state = session_state();
    let _a = join_in(&mut state, 1, Some(Role::Sender));
    let _b = join_in(&mut state, 2, Some(Role::Receiver));
    let _c = join_in(&mut state, 3, Some(Role::Receiver));
    assert_refused(
        state.request_join_session_at(2, "TRANSFER22", NOW),
        ErrorCode::InvalidSession,
        "Session not found",
    );
    open_session(&mut state, 1);
    assert_refused(
        state.request_join_session_at(2, "transfer22", NOW),
        ErrorCode::InvalidSession,
        "Session not found",
    );
    assert_refused(
        state.request_join_session_at(2, "TRANSFER22", NOW + 15 * MINUTE + 1),
        ErrorCode::SessionExpired,
        "Session expired",
    );
    assert_eq!(session_id_of(&state, 2), None);
    assert_eq!(state.request_join_session_at(2, "TRANSFER22", NOW + 15 * MINUTE).unwrap(), 1);
    state.approve_join_session_at(1, "TRANSFER22", "secret", 2, NOW).unwrap();
    assert_refused(
        state.request_join_session_at(3, "TRANSFER22", NOW),
        ErrorCode::SessionFull,
        "Session already occupied",
    );
    {
        let mut s = state.sessions.get_mut("TRANSFER22").unwrap();
        s.receiver_id = None;
        s.sender_id = None;
    }
    assert_refused(
        state.request_join_session_at(3, "TRANSFER22", NOW),
        ErrorCode::PeerDisconnected,
        "Sender disconnected",
    );
}

#[test]
fn approval_is_refused_in_each_way() {
    let mut state = session_state();
    let _a = join_in(&mut state, 1, Some(Role::Sender));
    let _b = join_in(&mut state, 2, Some(Role::Receiver));
    let _c = join_in(&mut state, 3, Some(Role::Sender));
    assert_refused(
        state.approve_join_session_at(9, "TRANSFER22", "secret", 2, NOW),
        ErrorCode::NotRegistered,
        "Sender not found",
    );
    assert_refused(
        state.approve_join_session_at(2, "TRANSFER22", "secret", 2, NOW),
        ErrorCode::InvalidRole,
        "Only senders can approve joins",
    );
    assert_refused(
        state.approve_join_session_at(1, "TRANSFER22", "secret", 2, NOW),
        ErrorCode::InvalidSession,
        "Session not found",
    );
    open_session(&mut state, 1);
    assert_refused(
        state.approve_join_session_at(1, "TRANSFER22", "Secret", 2, NOW),
        ErrorCode::Unauthorized,
        "Invalid token",
    );
    assert_refused(
        state.approve_join_session_at(3, "TRANSFER22", "secret", 2, NOW),
        ErrorCode::Unauthorized,
        "Not session owner",
    );
    assert_refused(
        state.approve_join_session_at(1, "TRANSFER22", "secret", 2, NOW + 15 * MINUTE + 1),
        ErrorCode::SessionExpired,
        "Session expired",
    );
    assert_refused(
        state.approve_join_session_at(1, "TRANSFER22", "secret", 9, NOW),
        ErrorCode::PeerDisconnected,
        "Receiver disconnected",
    );
    assert_refused(
        state.approve_join_session_at(1, "TRANSFER22", "secret", 3, NOW),
        ErrorCode::InvalidRole,
        "Target not receiver",
    );
    assert_eq!(state.sessions.get("TRANSFER22").unwrap().receiver_id, None);
    state.approve_join_session_at(1, "TRANSFER22", "secret", 2, NOW + 15 * MINUTE).unwrap();
    assert_eq!(state.sessions.get("TRANSFER22").unwrap().receiver_id, Some(2));
}

#[test]
fn sender_that_leaves_closes_its_session() {
    let mut state = session_state();
    let _a = join_in(&mut state, 1, Some(Role::Sender));
    let _b = join_in(&mut state, 2, Some(Role::Receiver));
    open_session(&mut state, 1);
    state.request_join_session_at(2, "TRANSFER22", NOW).unwrap();
    state.approve_join_session_at(1, "TRANSFER22", "secret", 2, NOW).unwrap();
    let news = state.remove_peer(1);
    assert_eq!(news.len(), 1);
    assert_eq!(news[0].0, 2);
    assert_eq!(news[0].1.version, "1");
    assert_eq!(
        news[0].1.payload,
        ServerMessage::PeerDisconnected {
            peer_id: "00000000-0000-0000-0000-000000000001".to_string(),
            role: Role::Sender,
        }
    );
    assert!(!state.peers.contains_key(&1));
    assert!(!state.sessions.contains_key("TRANSFER22"));
    assert_eq!(session_id_of(&state, 2), None);
}

#[test]
fn receiver_that_leaves_frees_its_place() {
    let mut state = session_state();
    let receiver = Uuid::parse_str("394c24a3-ecc6-4f74-bb2a-332ec76a99bd").unwrap().as_u128();
    let _a = join_in(&mut state, 1, Some(Role::Sender));
    let _b = join_in(&mut state, receiver, Some(Role::Receiver));
    open_session(&mut state, 1);
    state.request_join_session_at(receiver, "TRANSFER22", NOW).unwrap();
    state.approve_join_session_at(1, "TRANSFER22", "secret", receiver, NOW).unwrap();
    let news = state.remove_peer(receiver);
    assert_eq!(news.len(), 1);
    assert_eq!(news[0].0, 1);
    assert_eq!(
        news[0].1.payload,
        ServerMessage::PeerDisconnected {
            peer_id: "394c24a3-ecc6-4f74-bb2a-332ec76a99bd".to_string(),
            role: Role::Receiver,
        }
    );
    assert_eq!(state.sessions.get("TRANSFER22").unwrap().receiver_id, None);
    assert_eq!(session_id_of(&state, 1).as_deref(), Some("TRANSFER22"));
    let _c = join_in(&mut state, 4, Some(Role::Receiver));
    assert_eq!(state.request_join_session_at(4, "TRANSFER22", NOW).unwrap(), 1);
}

#[test]
fn leaving_without_a_partner_is_told_to_nobody() {
    let mut state = session_state();
    assert!(state.remove_peer(1).is_empty());
    let _a = join_in(&mut state, 1, Some(Role::Sender));
    assert!(state.remove_peer(1).is_empty());
    assert!(state.remove_peer(1).is_empty());
    let _b = join_in(&mut state, 1, Some(Role::Sender));
    let _c = join_in(&mut state, 2, Some(Role::Receiver));
    open_session(&mut state, 1);
    state.request_join_session_at(2, "TRANSFER22", NOW).unwrap();
    assert!(state.remove_peer(2).is_empty());
    assert!(state.sessions.contains_key("TRANSFER22"));
    assert!(state.remove_peer(1).is_empty());
    assert_eq!(state.sessions.len(), 0);
    assert_eq!(state.peers.len(), 0);
}

#[test]
fn peers_leave_one_after_the_other() {
    let mut state = session_state();
    let _a = join_in(&mut state, 1, Some(Role::Sender));
    let _b = join_in(&mut state, 2, Some(Role::Receiver));
    open_session(&mut state, 1);
    state.request_join_session_at(2, "TRANSFER22", NOW).unwrap();
    state.approve_join_session_at(1, "TRANSFER22", "secret", 2, NOW).unwrap();
    let news = state.remove_peers(&vec![2, 1, 7]);
    assert_eq!(news.len(), 1);
    assert_eq!(news[0].0, 1);
    assert_eq!(state.peers.len(), 0);
    assert_eq!(state.sessions.len(), 0);
}

#[test]
fn expired_sessions_are_closed_for_both() {
    let mut state = session_state();
    let _a = join_in(&mut state, 1, Some(Role::Sender));
    let _b = join_in(&mut state, 2, Some(Role::Receiver));
    open_session(&mut state, 1);
    state.request_join_session_at(2, "TRANSFER22", NOW).unwrap();
    state.approve_join_session_at(1, "TRANSFER22", "secret", 2, NOW).unwrap();
    let news = state.expire_sessions(&vec!["OTHER".to_string(), "TRANSFER22".to_string()]);
    assert_eq!(news.len(), 1);
    assert_eq!(news[0].0, 1);
    assert_eq!(
        news[0].1.payload,
        ServerMessage::Error {
            code: "SESSION_EXPIRED".to_string(),
            message: "Session expired".to_string(),
        }
    );
    assert_eq!(session_id_of(&state, 1), None);
    assert_eq!(session_id_of(&state, 2), None);
    assert_eq!(state.sessions.len(), 0);
}

#[test]
fn cleaning_takes_exactly_what_is_overdue() {
    let mut state = session_state();
    let _a = join_in(&mut state, 1, Some(Role::Sender));
    let _b = join_in(&mut state, 2, Some(Role::Receiver));
    let _c = join_in(&mut state, 3, Some(Role::Sender));
    open_session(&mut state, 1);
    state
        .create_session_with(3, "OTHER22222".to_string(), "other".to_string(), NOW + 1)
        .unwrap();
    state.request_join_session_at(2, "TRANSFER22", NOW).unwrap();
    state.approve_join_session_at(1, "TRANSFER22", "secret", 2, NOW).unwrap();

    assert!(state.cleanup_stale_at(NOW + 180 * SECOND).is_empty());
    assert!(state.cleanup_stale_at(NOW + 181 * SECOND - 1).is_empty());
    assert_eq!(state.peers.len(), 3);
    assert_eq!(state.sessions.len(), 2);

    for id in [1, 3] {
        state.peers.get_mut(&id).unwrap().last_heartbeat = NOW + 15 * MINUTE;
    }
    let news = state.cleanup_stale_at(NOW + 181 * SECOND);
    assert_eq!(news.len(), 1);
    assert_eq!(news[0].0, 1);
    assert!(!state.peers.contains_key(&2));
    assert_eq!(state.sessions.len(), 2);

    assert!(state.cleanup_stale_at(NOW + 15 * MINUTE).is_empty());
    let news = state.cleanup_stale_at(NOW + 15 * MINUTE + 1);
    assert_eq!(news.len(), 1);
    assert_eq!(news[0].0, 1);
    assert!(!state.sessions.contains_key("TRANSFER22"));
    assert!(state.sessions.contains_key("OTHER22222"));
    assert_eq!(session_id_of(&state, 1), None);
    assert_eq!(session_id_of(&state, 3).as_deref(), Some("OTHER22222"));
}

#[test]
fn cleaning_at_present_leaves_the_living() {
    let mut state = session_state();
    let (tx, _rx) = mpsc::unbounded_channel();
    state.add_peer(1, tx).unwrap();
    state.register_peer(1, Role::Sender).unwrap();
    state.create_session(1).unwrap();
    assert!(state.cleanup_stale().is_empty());
    assert_eq!(state.peers.len(), 1);
    assert_eq!(state.sessions.len(), 1);
}

#[test]
fn silent_sender_takes_its_session_along() {
    let mut state = session_state();
    let _a = join_in(&mut state, 1, Some(Role::Sender));
    let _b = join_in(&mut state, 2, Some(Role::Receiver));
    open_session(&mut state, 1);
    state.request_join_session_at(2, "TRANSFER22", NOW).unwrap();
    state.approve_join_session_at(1, "TRANSFER22", "secret", 2, NOW).unwrap();
    state.peers.get_mut(&2).unwrap().last_heartbeat = NOW + 100 * MINUTE;
    let news = state.cleanup_stale_at(NOW + 100 * MINUTE);
    assert_eq!(news.len(), 1);
    assert_eq!(news[0].0, 2);
    assert!(matches!(
        news[0].1.payload,
        ServerMessage::PeerDisconnected { role: Role::Sender, .. }
    ));
    assert_eq!(state.peers.len(), 1);
    assert_eq!(state.sessions.len(), 0);
    assert_eq!(session_id_of(&state, 2), None);
}

#[test]
fn clock_reads_what_has_passed() {
    assert_eq!(reading(0), 86_400_000_000_000);
    assert_eq!(reading(7), 86_400_000_000_007);
    assert_eq!(reading((u64::MAX - CLOCK_START - 1) as u128), u64::MAX - 1);
    assert_eq!(reading((u64::MAX - CLOCK_START) as u128), u64::MAX);
    assert_eq!(reading(u128::MAX), u64::MAX);
}

#[test]
fn cleaning_twice_at_one_moment_is_cleaning_once() {
    let mut state = session_state();
    let _a = join_in(&mut state, 1, Some(Role::Sender));
    let _b = join_in(&mut state, 2, Some(Role::Receiver));
    let _c = join_in(&mut state, 3, Some(Role::Sender));
    open_session(&mut state, 1);
    state.request_join_session_at(2, "TRANSFER22", NOW).unwrap();
    state.approve_join_session_at(1, "TRANSFER22", "secret", 2, NOW).unwrap();
    for id in [1, 3] {
        state.peers.get_mut(&id).unwrap().last_heartbeat = NOW + 16 * MINUTE;
    }
    let news = state.cleanup_stale_at(NOW + 16 * MINUTE);
    assert_eq!(news.len(), 2);
    assert!(state.cleanup_stale_at(NOW + 16 * MINUTE).is_empty());
    assert_eq!(state.peers.len(), 2);
    assert_eq!(state.sessions.len(), 0);
    assert_eq!(session_id_of(&state, 1), None);
}
