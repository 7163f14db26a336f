//! What each request does to the peers and sessions, and when it is refused.
use tokio::sync::mpsc::UnboundedSender;
use vstd::prelude::*;

use crate::clock::{Clock, SECOND};
use crate::config::Config;
use crate::errors::{refusal, AppErrorView, ErrorCode};
use crate::ids::id_text;
use crate::models::{
    versioned, MessageView, Role, ServerMessageView, VersionedServerMessage,
};

verus! {

/// What is known of a connected client.
#[verifier::ext_equal]
pub struct PeerView {
    pub id: u128,
    pub role: Option<Role>,
    /// The handle to the channel by which it is sent messages.
    pub tx: UnboundedSender<VersionedServerMessage>,
    pub last_heartbeat: u64,
    pub session_id: Option<Seq<char>>,
    /// The number of messages that it can send at once.
    pub rate_limit_tokens: usize,
    pub rate_limit_last_check: u64,
    /// When it sent the messages that count against it.
    pub rate_limit_spent: Seq<u64>,
    pub bad_message_count: usize,
}

/// What is known of a transfer session.
#[verifier::ext_equal]
pub struct SessionView {
    pub transfer_id: Seq<char>,
    pub token: Seq<char>,
    pub sender_id: Option<u128>,
    pub receiver_id: Option<u128>,
    pub created_at: u64,
    pub expires_at: u128,
}

/// The peers by id, the sessions by transfer id, the settings, the clock, and the
/// messages that have gone out to peers.
#[verifier::ext_equal]
pub struct StateView {
    pub peers: Map<u128, PeerView>,
    pub sessions: Map<Seq<char>, SessionView>,
    pub config: Config,
    pub clock: Clock,
    /// The messages that the channels of peers have taken, oldest first, each with
    /// the peer that it was for.
    pub sent: Seq<Delivery>,
}

impl StateView {
    /// With this entry for a peer.
    pub open spec fn with_peer(self, id: u128, p: PeerView) -> StateView {
        StateView { peers: self.peers.insert(id, p), ..self }
    }

    /// With this entry for a session.
    pub open spec fn with_session(self, transfer_id: Seq<char>, s: SessionView) -> StateView {
        StateView { sessions: self.sessions.insert(transfer_id, s), ..self }
    }

    /// Without the peer.
    pub open spec fn without_peer(self, id: u128) -> StateView {
        StateView { peers: self.peers.remove(id), ..self }
    }

    /// Without the session.
    pub open spec fn without_session(self, transfer_id: Seq<char>) -> StateView {
        StateView { sessions: self.sessions.remove(transfer_id), ..self }
    }

    /// With the peer, if it is connected, in this session.
    pub open spec fn with_session_of(
        self,
        id: Option<u128>,
        session_id: Option<Seq<char>>,
    ) -> StateView {
        match id {
            Some(p) => if self.peers.contains_key(p) {
                self.with_peer(p, PeerView { session_id, ..self.peers[p] })
            } else {
                self
            },
            None => self,
        }
    }

    /// Whether a peer is connected and has registered in this role.
    pub open spec fn has_role(self, id: u128, role: Role) -> bool {
        self.peers.contains_key(id) && self.peers[id].role == Some(role)
    }
}

/// The number of messages that a client can send in a minute.
pub const RATE_LIMIT_CAPACITY: usize = 30;

/// The seconds for which a message counts against the client that sent it.
pub const RATE_LIMIT_SECONDS: u64 = 60;

/// The number of malformed or unauthorized messages that ends a connection.
pub const BAD_MESSAGE_LIMIT: usize = 3;

// Connecting and registering.

/// Whether the server takes no more connections.
pub open spec fn cap_reached(s: StateView) -> bool {
    s.peers.len() >= s.config.max_connections
}

/// A peer that has just connected.
pub open spec fn new_peer(
    id: u128,
    tx: UnboundedSender<VersionedServerMessage>,
    now: u64,
) -> PeerView {
    PeerView {
        id,
        role: None,
        tx,
        last_heartbeat: now,
        session_id: None,
        rate_limit_tokens: RATE_LIMIT_CAPACITY,
        rate_limit_last_check: now,
        rate_limit_spent: Seq::empty(),
        bad_message_count: 0,
    }
}

/// The state after a peer has connected.
pub open spec fn connected(
    s: StateView,
    id: u128,
    tx: UnboundedSender<VersionedServerMessage>,
    now: u64,
) -> StateView {
    s.with_peer(id, new_peer(id, tx, now))
}

/// Why a connection is refused.
pub open spec fn connect_error(s: StateView) -> Option<AppErrorView> {
    if cap_reached(s) {
        Some(refusal(ErrorCode::RateLimitExceeded, "Server connection cap reached"@))
    } else {
        None
    }
}

/// Why a registration is refused.
pub open spec fn register_error(s: StateView, id: u128) -> Option<AppErrorView> {
    if !s.peers.contains_key(id) {
        Some(refusal(ErrorCode::NotRegistered, "Peer not found"@))
    } else if s.peers[id].role is Some {
        Some(refusal(ErrorCode::AlreadyRegistered, "Peer already registered"@))
    } else {
        None
    }
}

/// The state after a peer has registered.
pub open spec fn registered(s: StateView, id: u128, role: Role) -> StateView {
    s.with_peer(id, PeerView { role: Some(role), ..s.peers[id] })
}

// Sessions.

/// Why a session is not created.
pub open spec fn create_error(s: StateView, sender: u128) -> Option<AppErrorView> {
    if !s.peers.contains_key(sender) {
        Some(refusal(ErrorCode::NotRegistered, "Sender not found"@))
    } else if s.peers[sender].role != Some(Role::Sender) {
        Some(refusal(ErrorCode::InvalidRole, "Only senders can create sessions"@))
    } else if s.peers[sender].session_id is Some {
        Some(refusal(ErrorCode::AlreadyRegistered, "Sender already has active session"@))
    } else {
        None
    }
}

/// When a session that is created now expires.
pub open spec fn expiry(s: StateView, now: u64) -> u128 {
    (now + s.config.session_timeout_minutes * 60 * SECOND) as u128
}

/// A session that has just been created.
pub open spec fn new_session(
    s: StateView,
    sender: u128,
    transfer_id: Seq<char>,
    token: Seq<char>,
    now: u64,
) -> SessionView {
    SessionView {
        transfer_id,
        token,
        sender_id: Some(sender),
        receiver_id: None,
        created_at: now,
        expires_at: expiry(s, now),
    }
}

/// The state after a sender has created a session.
pub open spec fn created(
    s: StateView,
    sender: u128,
    transfer_id: Seq<char>,
    token: Seq<char>,
    now: u64,
) -> StateView {
    s.with_session(transfer_id, new_session(s, sender, transfer_id, token, now)).with_session_of(
        Some(sender),
        Some(transfer_id),
    )
}

/// Whether a session has expired.
pub open spec fn is_expired(session: SessionView, now: u64) -> bool {
    now > session.expires_at
}

/// Why a request to join is refused.
pub open spec fn join_error(
    s: StateView,
    receiver: u128,
    transfer_id: Seq<char>,
    now: u64,
) -> Option<AppErrorView> {
    if !s.peers.contains_key(receiver) {
        Some(refusal(ErrorCode::NotRegistered, "Receiver not found"@))
    } else if s.peers[receiver].role != Some(Role::Receiver) {
        Some(refusal(ErrorCode::InvalidRole, "Only receivers can join sessions"@))
    } else if s.peers[receiver].session_id is Some {
        Some(refusal(ErrorCode::AlreadyRegistered, "Receiver already in session"@))
    } else if !s.sessions.contains_key(transfer_id) {
        Some(refusal(ErrorCode::InvalidSession, "Session not found"@))
    } else if is_expired(s.sessions[transfer_id], now) {
        Some(refusal(ErrorCode::SessionExpired, "Session expired"@))
    } else if s.sessions[transfer_id].receiver_id is Some {
        Some(refusal(ErrorCode::SessionFull, "Session already occupied"@))
    } else if s.sessions[transfer_id].sender_id is None {
        Some(refusal(ErrorCode::PeerDisconnected, "Sender disconnected"@))
    } else {
        None
    }
}

/// The state after a receiver has asked to join a session.
pub open spec fn asked_to_join(
    s: StateView,
    receiver: u128,
    transfer_id: Seq<char>,
) -> StateView {
    s.with_session_of(Some(receiver), Some(transfer_id))
}

/// Why an approval is refused.
pub open spec fn approve_error(
    s: StateView,
    sender: u128,
    transfer_id: Seq<char>,
    token: Seq<char>,
    receiver: u128,
    now: u64,
) -> Option<AppErrorView> {
    if !s.peers.contains_key(sender) {
        Some(refusal(ErrorCode::NotRegistered, "Sender not found"@))
    } else if s.peers[sender].role != Some(Role::Sender) {
        Some(refusal(ErrorCode::InvalidRole, "Only senders can approve joins"@))
    } else if !s.sessions.contains_key(transfer_id) {
        Some(refusal(ErrorCode::InvalidSession, "Session not found"@))
    } else if s.sessions[transfer_id].token != token {
        Some(refusal(ErrorCode::Unauthorized, "Invalid token"@))
    } else if s.sessions[transfer_id].sender_id != Some(sender) {
        Some(refusal(ErrorCode::Unauthorized, "Not session owner"@))
    } else if is_expired(s.sessions[transfer_id], now) {
        Some(refusal(ErrorCode::SessionExpired, "Session expired"@))
    } else if !s.peers.contains_key(receiver) {
        Some(refusal(ErrorCode::PeerDisconnected, "Receiver disconnected"@))
    } else if s.peers[receiver].role != Some(Role::Receiver) {
        Some(refusal(ErrorCode::InvalidRole, "Target not receiver"@))
    } else {
        None
    }
}

/// The state after a sender has approved a receiver.
pub open spec fn approved(s: StateView, transfer_id: Seq<char>, receiver: u128) -> StateView {
    s.with_session(
        transfer_id,
        SessionView { receiver_id: Some(receiver), ..s.sessions[transfer_id] },
    )
}

// Leaving.

/// A message and the peer that it is for.
pub type Delivery = (u128, MessageView);

/// The news that a peer has gone.
pub open spec fn gone(id: u128, role: Role) -> MessageView {
    versioned(ServerMessageView::PeerDisconnected { peer_id: id_text(id), role })
}

/// The session that a connected peer is in, where it is open.
pub open spec fn session_of(s: StateView, id: u128) -> Option<Seq<char>> {
    if !s.peers.contains_key(id) {
        None
    } else {
        match s.peers[id].session_id {
            Some(t) => if s.sessions.contains_key(t) {
                Some(t)
            } else {
                None
            },
            None => None,
        }
    }
}

/// The state after a peer has left. The session that it sent for is closed; in
/// the one that it received in, its place is free again.
pub open spec fn removed(s: StateView, id: u128) -> StateView {
    let rest = s.without_peer(id);
    match session_of(s, id) {
        None => rest,
        Some(t) => {
            let session = s.sessions[t];
            if session.sender_id == Some(id) {
                rest.with_session_of(session.receiver_id, None).without_session(t)
            } else if session.receiver_id == Some(id) {
                rest.with_session(
                    t,
                    SessionView { receiver_id: None, ..session },
                ).with_session_of(session.sender_id, Some(t))
            } else {
                rest
            }
        },
    }
}

/// Whom a peer's leaving is told to.
pub open spec fn removal_news(s: StateView, id: u128) -> Seq<Delivery> {
    match session_of(s, id) {
        None => seq![],
        Some(t) => {
            let session = s.sessions[t];
            if session.sender_id == Some(id) {
                match session.receiver_id {
                    Some(r) => seq![(r, gone(id, Role::Sender))],
                    None => seq![],
                }
            } else if session.receiver_id == Some(id) {
                match session.sender_id {
                    Some(r) => seq![(r, gone(id, Role::Receiver))],
                    None => seq![],
                }
            } else {
                seq![]
            }
        },
    }
}

/// The state after peers have left, one after the other.
pub open spec fn all_removed(s: StateView, ids: Seq<u128>) -> StateView
    decreases ids.len(),
{
    if ids.len() == 0 {
        s
    } else {
        removed(all_removed(s, ids.drop_last()), ids.last())
    }
}

/// Whom the leaving of peers, one after the other, is told to.
pub open spec fn all_removal_news(s: StateView, ids: Seq<u128>) -> Seq<Delivery>
    decreases ids.len(),
{
    if ids.len() == 0 {
        seq![]
    } else {
        all_removal_news(s, ids.drop_last()) + removal_news(
            all_removed(s, ids.drop_last()),
            ids.last(),
        )
    }
}

// Time running out.

/// The whole seconds from one reading of the clock to a later one.
pub open spec fn seconds_between(earlier: u64, later: u64) -> int {
    if later > earlier {
        (later - earlier) / SECOND as int
    } else {
        0
    }
}

/// Whether nothing has been heard of a peer for too long.
pub open spec fn is_stale(s: StateView, p: PeerView, now: u64) -> bool {
    seconds_between(p.last_heartbeat, now) > s.config.heartbeat_timeout_seconds
}

/// The news that a session has expired.
pub open spec fn expiry_message() -> MessageView {
    versioned(
        ServerMessageView::Error {
            code: ErrorCode::SessionExpired.name(),
            message: "Session expired"@,
        },
    )
}

/// The state after a session has been closed because it has expired.
pub open spec fn lapsed(s: StateView, transfer_id: Seq<char>) -> StateView {
    if s.sessions.contains_key(transfer_id) {
        let session = s.sessions[transfer_id];
        s.without_session(transfer_id).with_session_of(session.sender_id, None).with_session_of(
            session.receiver_id,
            None,
        )
    } else {
        s
    }
}

/// Whom the expiry of a session is told to.
pub open spec fn lapse_news(s: StateView, transfer_id: Seq<char>) -> Seq<Delivery> {
    if s.sessions.contains_key(transfer_id) {
        match s.sessions[transfer_id].sender_id {
            Some(id) => seq![(id, expiry_message())],
            None => seq![],
        }
    } else {
        seq![]
    }
}

/// The state after expired sessions have been closed, one after the other.
pub open spec fn all_lapsed(s: StateView, ids: Seq<Seq<char>>) -> StateView
    decreases ids.len(),
{
    if ids.len() == 0 {
        s
    } else {
        lapsed(all_lapsed(s, ids.drop_last()), ids.last())
    }
}

/// Whom the expiry of sessions, one after the other, is told to.
pub open spec fn all_lapse_news(s: StateView, ids: Seq<Seq<char>>) -> Seq<Delivery>
    decreases ids.len(),
{
    if ids.len() == 0 {
        seq![]
    } else {
        all_lapse_news(s, ids.drop_last()) + lapse_news(
            all_lapsed(s, ids.drop_last()),
            ids.last(),
        )
    }
}

/// The ids of the peers that have gone silent, in the order of `keys`.
pub open spec fn stale_ids(s: StateView, keys: Seq<u128>, now: u64) -> Seq<u128>
    decreases keys.len(),
{
    if keys.len() == 0 {
        seq![]
    } else {
        let before = stale_ids(s, keys.drop_last(), now);
        if is_stale(s, s.peers[keys.last()], now) {
            before.push(s.peers[keys.last()].id)
        } else {
            before
        }
    }
}

/// The transfer ids of the sessions that have expired, in the order of `keys`.
pub open spec fn expired_ids(s: StateView, keys: Seq<Seq<char>>, now: u64) -> Seq<Seq<char>>
    decreases keys.len(),
{
    if keys.len() == 0 {
        seq![]
    } else {
        let before = expired_ids(s, keys.drop_last(), now);
        if is_expired(s.sessions[keys.last()], now) {
            before.push(s.sessions[keys.last()].transfer_id)
        } else {
            before
        }
    }
}

/// Whether a sequence names each member of a set once.
pub open spec fn lists<K>(keys: Seq<K>, set: Set<K>) -> bool {
    keys.no_duplicates() && keys.to_set() == set
}

/// The state after silent peers and expired sessions have been cleared away,
/// the peers walked in the order of `peers`, then the sessions in that of
/// `sessions`.
pub open spec fn cleaned(
    s: StateView,
    peers: Seq<u128>,
    sessions: Seq<Seq<char>>,
    now: u64,
) -> StateView {
    let left = all_removed(s, stale_ids(s, peers, now));
    all_lapsed(left, expired_ids(left, sessions, now))
}

/// Whom the clearing away is told to.
pub open spec fn cleaning_news(
    s: StateView,
    peers: Seq<u128>,
    sessions: Seq<Seq<char>>,
    now: u64,
) -> Seq<Delivery> {
    let left = all_removed(s, stale_ids(s, peers, now));
    all_removal_news(s, stale_ids(s, peers, now)) + all_lapse_news(
        left,
        expired_ids(left, sessions, now),
    )
}

/// Whether the two orders walk each peer, and each session that is then left,
/// once.
pub open spec fn walks(
    s: StateView,
    peers: Seq<u128>,
    sessions: Seq<Seq<char>>,
    now: u64,
) -> bool {
    &&& lists(peers, s.peers.dom())
    &&& lists(sessions, all_removed(s, stale_ids(s, peers, now)).sessions.dom())
}

} // verus!
