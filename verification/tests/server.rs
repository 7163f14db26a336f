use signaling::clock::SECOND;
use signaling::config::{Config, ConfigVars};
use signaling::errors::ErrorCode;
use signaling::models::{ClientMessage, Role, ServerMessage, VersionedServerMessage};
use signaling::signaling::handle_message;
use signaling::state::AppState;
use tokio::sync::mpsc;
use uuid::Uuid;

fn setup_test_state() -> AppState {
    let mut config = Config::load(&ConfigVars {
        host: None,
        host_is_address: false,
        port: None,
        environment: None,
        rust_log: None,
        session_timeout_minutes: None,
        heartbeat_timeout_seconds: None,
        max_message_size: None,
        max_connections: None,
        allowed_origins: None,
        turn_url: None,
        turn_username: None,
        turn_password: None,
    })
    .unwrap();
    config.max_connections = 5;
    config.session_timeout_minutes = 1;
    config.heartbeat_timeout_seconds = 2;
    AppState::new(config)
}

fn create_registered_peer(
    state: &mut AppState,
    role: Role,
) -> (u128, mpsc::UnboundedReceiver<VersionedServerMessage>) {
    let peer_id = Uuid::new_v4().as_u128();
    let (tx, rx) = mpsc::unbounded_channel();
    state.add_peer(peer_id, tx).unwrap();
    state.register_peer(peer_id, role).unwrap();
    (peer_id, rx)
}

#[test]
fn test_sender_registration() {
    let mut state = setup_test_state();
    let peer_id = Uuid::new_v4().as_u128();
    let (tx, _rx) = mpsc::unbounded_channel();

    assert!(state.add_peer(peer_id, tx).is_ok());
    assert!(state.peers.contains_key(&peer_id));

    assert!(state.register_peer(peer_id, Role::Sender).is_ok());
    let peer = state.peers.get(&peer_id).unwrap();
    assert_eq!(peer.role, Some(Role::Sender));
}

#[test]
fn test_duplicate_registration() {
    let mut state = setup_test_state();
    let (peer_id, _rx) = create_registered_peer(&mut state, Role::Sender);

    let res = state.register_peer(peer_id, Role::Receiver);
    assert!(res.is_err());
    assert_eq!(res.unwrap_err().code, ErrorCode::AlreadyRegistered);
}

#[test]
fn test_session_creation() {
    let mut state = setup_test_state();
    let (sender_id, _rx) = create_registered_peer(&mut state, Role::Sender);

    let res = state.create_session(sender_id);
    assert!(res.is_ok());
    let (transfer_id, token) = res.unwrap();

    assert_eq!(transfer_id.len(), 10);
    assert_eq!(token.len(), 32);
    assert!(state.sessions.contains_key(&transfer_id));

    let session = state.sessions.get(&transfer_id).unwrap();
    assert_eq!(session.sender_id, Some(sender_id));
    assert_eq!(session.receiver_id, None);
}

#[test]
fn test_invalid_join() {
    let mut state = setup_test_state();
    let (receiver_id, _rx) = create_registered_peer(&mut state, Role::Receiver);

    let res = state.request_join_session(receiver_id, "NONEXISTENT");
    assert!(res.is_err());
    assert_eq!(res.unwrap_err().code, ErrorCode::InvalidSession);
}

#[test]
fn test_approve_join_success() {
    let mut state = setup_test_state();
    let (sender_id, _sender_rx) = create_registered_peer(&mut state, Role::Sender);
    let (receiver_id, _receiver_rx) = create_registered_peer(&mut state, Role::Receiver);

    let (transfer_id, token) = state.create_session(sender_id).unwrap();

    let sender_uuid = state.request_join_session(receiver_id, &transfer_id).unwrap();
    assert_eq!(sender_uuid, sender_id);

    let res = state.approve_join_session(sender_id, &transfer_id, &token, receiver_id);
    assert!(res.is_ok());

    let session = state.sessions.get(&transfer_id).unwrap();
    assert_eq!(session.receiver_id, Some(receiver_id));
    assert_eq!(session.sender_id, Some(sender_id));

    assert_eq!(
        state.peers.get(&sender_id).unwrap().session_id.as_deref(),
        Some(transfer_id.as_str())
    );
    assert_eq!(
        state.peers.get(&receiver_id).unwrap().session_id.as_deref(),
        Some(transfer_id.as_str())
    );
}

#[test]
fn test_unauthorized_offer_answer() {
    let mut state = setup_test_state();
    let (sender_id, _sender_rx) = create_registered_peer(&mut state, Role::Sender);
    let (receiver_id, _receiver_rx) = create_registered_peer(&mut state, Role::Receiver);
    let (outsider_id, _outsider_rx) = create_registered_peer(&mut state, Role::Receiver);

    let (transfer_id, token) = state.create_session(sender_id).unwrap();
    state.request_join_session(receiver_id, &transfer_id).unwrap();
    state.approve_join_session(sender_id, &transfer_id, &token, receiver_id).unwrap();

    let res = handle_message(
        &mut state,
        outsider_id,
        ClientMessage::Offer {
            transfer_id: transfer_id.clone(),
            sdp: "fake sdp".to_string(),
        },
    );
    assert!(res.is_err());
    assert_eq!(res.unwrap_err().code, ErrorCode::Unauthorized);
}

#[test]
fn test_expired_session() {
    let mut state = setup_test_state();
    let (sender_id, _sender_rx) = create_registered_peer(&mut state, Role::Sender);

    let (transfer_id, _token) = state.create_session(sender_id).unwrap();

    {
        let mut session = state.sessions.get_mut(&transfer_id).unwrap();
        session.expires_at = (state.clock.now() - SECOND) as u128;
    }

    let notifications = state.cleanup_stale();

    assert!(!state.sessions.contains_key(&transfer_id));
    assert!(state.peers.get(&sender_id).unwrap().session_id.is_none());

    assert_eq!(notifications.len(), 1);
    let (target, ref msg) = notifications[0];
    assert_eq!(target, sender_id);
    if let ServerMessage::Error { ref code, .. } = msg.payload {
        assert_eq!(code, "SESSION_EXPIRED");
    } else {
        panic!("Expected Error message");
    }
}

#[test]
fn test_heartbeat_timeout() {
    let mut state = setup_test_state();
    let (sender_id, _sender_rx) = create_registered_peer(&mut state, Role::Sender);

    {
        let mut peer = state.peers.get_mut(&sender_id).unwrap();
        peer.last_heartbeat = state.clock.now() - 5 * SECOND;
    }

    let _notifications = state.cleanup_stale();

    assert!(!state.peers.contains_key(&sender_id));
}

#[test]
fn test_disconnect_cleanup() {
    let mut state = setup_test_state();
    let (sender_id, _sender_rx) = create_registered_peer(&mut state, Role::Sender);
    let (receiver_id, _receiver_rx) = create_registered_peer(&mut state, Role::Receiver);

    let (transfer_id, token) = state.create_session(sender_id).unwrap();
    state.request_join_session(receiver_id, &transfer_id).unwrap();
    state.approve_join_session(sender_id, &transfer_id, &token, receiver_id).unwrap();

    let notifications = state.remove_peer(receiver_id);

    assert!(state.sessions.contains_key(&transfer_id));
    {
        let session = state.sessions.get(&transfer_id).unwrap();
        assert_eq!(session.receiver_id, None);
        assert_eq!(session.sender_id, Some(sender_id));
    }

    assert_eq!(notifications.len(), 1);
    assert_eq!(notifications[0].0, sender_id);
    assert!(matches!(notifications[0].1.payload, ServerMessage::PeerDisconnected { .. }));

    let notifications = state.remove_peer(sender_id);

    assert!(!state.sessions.contains_key(&transfer_id));
    assert!(notifications.is_empty());
}
