//! Connected peers, open sessions, and what may happen to them.
use dashmap::DashMap;
use tokio::sync::mpsc::UnboundedSender;
use vstd::prelude::*;

use crate::clock::{is_reading, Clock, SECOND};
use crate::config::Config;
use crate::errors::{AppError, ErrorCode};
use crate::ids::write_id;
use crate::models::{text_of, Role, ServerMessage, VersionedServerMessage};
use crate::rules::{
    all_lapse_news, all_lapsed, all_removal_news, all_removed, approve_error, approved,
    asked_to_join, cleaned, cleaning_news, connect_error, connected, create_error, created,
    expired_ids, join_error, lapse_news, lapsed, new_peer, register_error, registered,
    removal_news, removed, stale_ids, walks, Delivery, PeerView, SessionView, StateView,
    RATE_LIMIT_CAPACITY,
};
use crate::security::{
    generate_secure_token, generate_transfer_id, is_code, is_drawn, token_alphabet,
    transfer_id_alphabet,
};
use crate::text::texts;
use crate::tables::{
    drop_peer, find_peer, find_session, new_peers, new_sessions, peer_count, peer_ids, peer_table,
    put_peer, put_session, sent_through, session_ids, session_table, take_session, update_peer,
};

verus! {

/// A connected client.
pub struct Peer {
    pub id: u128,
    pub role: Option<Role>,
    pub tx: UnboundedSender<VersionedServerMessage>,
    pub last_heartbeat: u64,
    pub session_id: Option<String>,
    pub rate_limit_tokens: usize,
    pub rate_limit_last_check: u64,
    pub rate_limit_spent: Vec<u64>,
    pub bad_message_count: usize,
}

/// What is known of a connected client, without the handle to its channel.
pub struct PeerFacts {
    pub id: u128,
    pub role: Option<Role>,
    pub last_heartbeat: u64,
    pub session_id: Option<String>,
    pub rate_limit_tokens: usize,
    pub rate_limit_last_check: u64,
    pub rate_limit_spent: Vec<u64>,
    pub bad_message_count: usize,
}

impl PeerFacts {
    /// The facts with a handle.
    pub open spec fn on(self, tx: UnboundedSender<VersionedServerMessage>) -> PeerView {
        PeerView {
            id: self.id,
            role: self.role,
            tx,
            last_heartbeat: self.last_heartbeat,
            session_id: text_of(self.session_id),
            rate_limit_tokens: self.rate_limit_tokens,
            rate_limit_last_check: self.rate_limit_last_check,
            rate_limit_spent: self.rate_limit_spent@,
            bad_message_count: self.bad_message_count,
        }
    }
}

impl View for Peer {
    type V = PeerView;

    open spec fn view(&self) -> PeerView {
        PeerView {
            id: self.id,
            role: self.role,
            tx: self.tx,
            last_heartbeat: self.last_heartbeat,
            session_id: text_of(self.session_id),
            rate_limit_tokens: self.rate_limit_tokens,
            rate_limit_last_check: self.rate_limit_last_check,
            rate_limit_spent: self.rate_limit_spent@,
            bad_message_count: self.bad_message_count,
        }
    }
}

fn copy_times(times: &Vec<u64>) -> (r: Vec<u64>)
    ensures
        r@ == times@,
{
    let mut r: Vec<u64> = Vec::new();
    let mut i: usize = 0;
    while i < times.len()
        invariant
            i <= times@.len(),
            r@ == times@.take(i as int),
        decreases times@.len() - i,
    {
        r.push(times[i]);
        i += 1;
    }
    r
}

impl Peer {
    /// What is known of the peer, without the handle to its channel.
    pub fn facts(&self) -> (f: PeerFacts)
        ensures
            self@ == f.on(self.tx),
    {
        PeerFacts {
            id: self.id,
            role: self.role,
            last_heartbeat: self.last_heartbeat,
            session_id: self.session_id.clone(),
            rate_limit_tokens: self.rate_limit_tokens,
            rate_limit_last_check: self.rate_limit_last_check,
            rate_limit_spent: copy_times(&self.rate_limit_spent),
            bad_message_count: self.bad_message_count,
        }
    }

    /// The peer with these facts, and its own handle.
    pub fn with_facts(self, facts: PeerFacts) -> (p: Peer)
        ensures
            p@ == facts.on(self.tx),
    {
        Peer {
            id: facts.id,
            role: facts.role,
            tx: self.tx,
            last_heartbeat: facts.last_heartbeat,
            session_id: facts.session_id,
            rate_limit_tokens: facts.rate_limit_tokens,
            rate_limit_last_check: facts.rate_limit_last_check,
            rate_limit_spent: facts.rate_limit_spent,
            bad_message_count: facts.bad_message_count,
        }
    }
}

/// A transfer session.
pub struct Session {
    pub transfer_id: String,
    pub token: String,
    pub sender_id: Option<u128>,
    pub receiver_id: Option<u128>,
    pub created_at: u64,
    pub expires_at: u128,
}

impl View for Session {
    type V = SessionView;

    open spec fn view(&self) -> SessionView {
        SessionView {
            transfer_id: self.transfer_id@,
            token: self.token@,
            sender_id: self.sender_id,
            receiver_id: self.receiver_id,
            created_at: self.created_at,
            expires_at: self.expires_at,
        }
    }
}

impl Clone for Session {
    fn clone(&self) -> (r: Self)
        ensures
            r@ == self@,
    {
        Session {
            transfer_id: self.transfer_id.clone(),
            token: self.token.clone(),
            sender_id: self.sender_id,
            receiver_id: self.receiver_id,
            created_at: self.created_at,
            expires_at: self.expires_at,
        }
    }
}

/// All that the server keeps: its peers, its sessions, its settings, its clock.
pub struct AppState {
    pub peers: DashMap<u128, Peer>,
    pub sessions: DashMap<String, Session>,
    pub config: Config,
    pub clock: Clock,
}

impl View for AppState {
    type V = StateView;

    open spec fn view(&self) -> StateView {
        StateView {
            peers: peer_table(self.peers),
            sessions: session_table(self.sessions),
            config: self.config,
            clock: self.clock,
            sent: sent_through(self.peers),
        }
    }
}

/// The messages and the peers that they are for.
pub open spec fn deliveries(v: Seq<(u128, VersionedServerMessage)>) -> Seq<Delivery> {
    v.map_values(|d: (u128, VersionedServerMessage)| (d.0, d.1@))
}

impl Peer {
    /// A peer that has just connected.
    pub fn new(id: u128, tx: UnboundedSender<VersionedServerMessage>, now: u64) -> (p: Peer)
        ensures
            p@ == new_peer(id, tx, now),
    {
        Peer {
            id,
            role: None,
            tx,
            last_heartbeat: now,
            session_id: None,
            rate_limit_tokens: RATE_LIMIT_CAPACITY,
            rate_limit_last_check: now,
            rate_limit_spent: Vec::new(),
            bad_message_count: 0,
        }
    }
}

fn has_role(p: &PeerFacts, role: Role) -> (r: bool)
    ensures
        r == (p.role == Some(role)),
{
    match p.role {
        Some(x) => x == role,
        None => false,
    }
}

impl AppState {
    /// A server without peers and sessions, with a clock that has just been
    /// started.
    pub fn new(config: Config) -> (s: AppState)
        ensures
            s@ == (StateView {
                peers: Map::empty(),
                sessions: Map::empty(),
                config,
                clock: s.clock,
                sent: Seq::empty(),
            }),
            call_ensures(Clock::start, (), s.clock),
    {
        AppState { peers: new_peers(), sessions: new_sessions(), config, clock: Clock::start() }
    }

    /// Takes in a new connection at the present time.
    pub fn add_peer(&mut self, id: u128, tx: UnboundedSender<VersionedServerMessage>) -> (r: Result<
        (),
        AppError,
    >)
        ensures
            match connect_error(old(self)@) {
                Some(e) => r matches Err(x) && x@ == e && final(self)@ == old(self)@,
                None => r is Ok && (exists|now: u64|
                    is_reading(old(self)@.clock, now) && final(self)@ == #[trigger] connected(
                        old(self)@,
                        id,
                        tx,
                        now,
                    )),
            },
    {
        let now = self.clock.now();
        assert(is_reading(self@.clock, now));
        self.add_peer_at(id, tx, now)
    }

    /// Takes in a new connection.
    pub fn add_peer_at(
        &mut self,
        id: u128,
        tx: UnboundedSender<VersionedServerMessage>,
        now: u64,
    ) -> (r: Result<(), AppError>)
        ensures
            match connect_error(old(self)@) {
                Some(e) => r matches Err(x) && x@ == e && final(self)@ == old(self)@,
                None => r is Ok && final(self)@ == connected(
                    old(self)@,
                    id,
                    tx,
                    now,
                ),
            },
    {
        if peer_count(&self.peers) >= self.config.max_connections {
            return Err(
                AppError::new(ErrorCode::RateLimitExceeded, "Server connection cap reached"),
            );
        }
        put_peer(&mut self.peers, id, Peer::new(id, tx, now));
        Ok(())
    }

    /// Registers a peer in a role.
    pub fn register_peer(&mut self, peer_id: u128, role: Role) -> (r: Result<(), AppError>)
        ensures
            match register_error(old(self)@, peer_id) {
                Some(e) => r matches Err(x) && x@ == e && final(self)@ == old(self)@,
                None => r is Ok && final(self)@ == registered(old(self)@, peer_id, role),
            },
    {
        match find_peer(&self.peers, peer_id) {
            None => Err(AppError::new(ErrorCode::NotRegistered, "Peer not found")),
            Some(mut peer) => {
                if peer.role.is_some() {
                    return Err(
                        AppError::new(ErrorCode::AlreadyRegistered, "Peer already registered"),
                    );
                }
                peer.role = Some(role);
                update_peer(&mut self.peers, peer_id, peer);
                Ok(())
            },
        }
    }

    /// Creates a session at the present time, with a transfer id and a token
    /// drawn at random.
    pub fn create_session(&mut self, sender_id: u128) -> (r: Result<(String, String), AppError>)
        ensures
            match create_error(old(self)@, sender_id) {
                Some(e) => r matches Err(x) && x@ == e && final(self)@ == old(self)@,
                None => r matches Ok(pair) && is_code(pair.0@, 10, transfer_id_alphabet())
                    && is_drawn(pair.0@, 10, transfer_id_alphabet()) && is_code(
                    pair.1@,
                    32,
                    token_alphabet(),
                ) && is_drawn(pair.1@, 32, token_alphabet()) && (exists|now: u64|
                    is_reading(old(self)@.clock, now) && final(self)@ == #[trigger] created(
                        old(self)@,
                        sender_id,
                        pair.0@,
                        pair.1@,
                        now,
                    )),
            },
    {
        let transfer_id = generate_transfer_id();
        let token = generate_secure_token();
        let now = self.clock.now();
        assert(is_reading(self@.clock, now));
        self.create_session_with(sender_id, transfer_id, token, now)
    }

    /// Creates a session with this transfer id and token.
    pub fn create_session_with(
        &mut self,
        sender_id: u128,
        transfer_id: String,
        token: String,
        now: u64,
    ) -> (r: Result<(String, String), AppError>)
        ensures
            match create_error(old(self)@, sender_id) {
                Some(e) => r matches Err(x) && x@ == e && final(self)@ == old(self)@,
                None => r == Ok::<(String, String), AppError>((transfer_id, token)) && final(self)@
                    == created(old(self)@, sender_id, transfer_id@, token@, now),
            },
    {
        match find_peer(&self.peers, sender_id) {
            None => Err(AppError::new(ErrorCode::NotRegistered, "Sender not found")),
            Some(mut sender) => {
                if !has_role(&sender, Role::Sender) {
                    return Err(
                        AppError::new(ErrorCode::InvalidRole, "Only senders can create sessions"),
                    );
                }
                if sender.session_id.is_some() {
                    return Err(
                        AppError::new(
                            ErrorCode::AlreadyRegistered,
                            "Sender already has active session",
                        ),
                    );
                }
                let minutes: u128 = self.config.session_timeout_minutes as u128;
                assert(minutes * 60 * SECOND <= u64::MAX * 60 * SECOND) by (nonlinear_arith)
                    requires
                        minutes <= u64::MAX,
                ;
                let session = Session {
                    transfer_id: transfer_id.clone(),
                    token: token.clone(),
                    sender_id: Some(sender_id),
                    receiver_id: None,
                    created_at: now,
                    expires_at: now as u128 + minutes * 60 * SECOND as u128,
                };
                put_session(&mut self.sessions, transfer_id.clone(), session);
                sender.session_id = Some(transfer_id.clone());
                update_peer(&mut self.peers, sender_id, sender);
                Ok((transfer_id, token))
            },
        }
    }

    /// Lets a receiver ask to join a session at the present time. Returns the
    /// session's sender.
    pub fn request_join_session(&mut self, receiver_id: u128, transfer_id: &str) -> (r: Result<
        u128,
        AppError,
    >)
        ensures
            exists|now: u64|
                is_reading(old(self)@.clock, now) && match #[trigger] join_error(
                    old(self)@,
                    receiver_id,
                    transfer_id@,
                    now,
                ) {
                    Some(e) => r matches Err(x) && x@ == e && final(self)@ == old(self)@,
                    None => r matches Ok(sender) && old(self)@.sessions[transfer_id@].sender_id
                        == Some(sender) && final(self)@ == asked_to_join(
                        old(self)@,
                        receiver_id,
                        transfer_id@,
                    ),
                },
    {
        let now = self.clock.now();
        assert(is_reading(self@.clock, now));
        self.request_join_session_at(receiver_id, transfer_id, now)
    }

    /// Lets a receiver ask to join a session. Returns the session's sender.
    pub fn request_join_session_at(
        &mut self,
        receiver_id: u128,
        transfer_id: &str,
        now: u64,
    ) -> (r: Result<u128, AppError>)
        ensures
            match join_error(old(self)@, receiver_id, transfer_id@, now) {
                Some(e) => r matches Err(x) && x@ == e && final(self)@ == old(self)@,
                None => r matches Ok(sender) && old(self)@.sessions[transfer_id@].sender_id == Some(
                    sender,
                ) && final(self)@ == asked_to_join(old(self)@, receiver_id, transfer_id@),
            },
    {
        let mut receiver = match find_peer(&self.peers, receiver_id) {
            None => {
                return Err(AppError::new(ErrorCode::NotRegistered, "Receiver not found"));
            },
            Some(p) => p,
        };
        if !has_role(&receiver, Role::Receiver) {
            return Err(AppError::new(ErrorCode::InvalidRole, "Only receivers can join sessions"));
        }
        if receiver.session_id.is_some() {
            return Err(AppError::new(ErrorCode::AlreadyRegistered, "Receiver already in session"));
        }
        let session = match find_session(&self.sessions, transfer_id) {
            None => {
                return Err(AppError::new(ErrorCode::InvalidSession, "Session not found"));
            },
            Some(s) => s,
        };
        if now as u128 > session.expires_at {
            return Err(AppError::new(ErrorCode::SessionExpired, "Session expired"));
        }
        if session.receiver_id.is_some() {
            return Err(AppError::new(ErrorCode::SessionFull, "Session already occupied"));
        }
        match session.sender_id {
            None => Err(AppError::new(ErrorCode::PeerDisconnected, "Sender disconnected")),
            Some(sender_id) => {
                receiver.session_id = Some(transfer_id.to_string());
                update_peer(&mut self.peers, receiver_id, receiver);
                Ok(sender_id)
            },
        }
    }

    /// Lets a sender approve a receiver at the present time.
    pub fn approve_join_session(
        &mut self,
        sender_id: u128,
        transfer_id: &str,
        token: &str,
        receiver_id: u128,
    ) -> (r: Result<(), AppError>)
        ensures
            exists|now: u64|
                is_reading(old(self)@.clock, now) && match #[trigger] approve_error(
                    old(self)@,
                    sender_id,
                    transfer_id@,
                    token@,
                    receiver_id,
                    now,
                ) {
                    Some(e) => r matches Err(x) && x@ == e && final(self)@ == old(self)@,
                    None => r is Ok && final(self)@ == approved(
                        old(self)@,
                        transfer_id@,
                        receiver_id,
                    ),
                },
    {
        let now = self.clock.now();
        assert(is_reading(self@.clock, now));
        self.approve_join_session_at(sender_id, transfer_id, token, receiver_id, now)
    }

    /// Lets a sender approve a receiver.
    pub fn approve_join_session_at(
        &mut self,
        sender_id: u128,
        transfer_id: &str,
        token: &str,
        receiver_id: u128,
        now: u64,
    ) -> (r: Result<(), AppError>)
        ensures
            match approve_error(
                old(self)@,
                sender_id,
                transfer_id@,
                token@,
                receiver_id,
                now,
            ) {
                Some(e) => r matches Err(x) && x@ == e && final(self)@ == old(self)@,
                None => r is Ok && final(self)@ == approved(old(self)@, transfer_id@, receiver_id),
            },
    {
        let sender = match find_peer(&self.peers, sender_id) {
            None => {
                return Err(AppError::new(ErrorCode::NotRegistered, "Sender not found"));
            },
            Some(p) => p,
        };
        if !has_role(&sender, Role::Sender) {
            return Err(AppError::new(ErrorCode::InvalidRole, "Only senders can approve joins"));
        }
        let mut session = match find_session(&self.sessions, transfer_id) {
            None => {
                return Err(AppError::new(ErrorCode::InvalidSession, "Session not found"));
            },
            Some(s) => s,
        };
        if *session.token.as_str() != *token {
            return Err(AppError::new(ErrorCode::Unauthorized, "Invalid token"));
        }
        if session.sender_id != Some(sender_id) {
            return Err(AppError::new(ErrorCode::Unauthorized, "Not session owner"));
        }
        if now as u128 > session.expires_at {
            return Err(AppError::new(ErrorCode::SessionExpired, "Session expired"));
        }
        let receiver = match find_peer(&self.peers, receiver_id) {
            None => {
                return Err(AppError::new(ErrorCode::PeerDisconnected, "Receiver disconnected"));
            },
            Some(p) => p,
        };
        if !has_role(&receiver, Role::Receiver) {
            return Err(AppError::new(ErrorCode::InvalidRole, "Target not receiver"));
        }
        session.receiver_id = Some(receiver_id);
        put_session(&mut self.sessions, transfer_id.to_string(), session);
        Ok(())
    }

    /// Puts a peer, if it is connected, in this session.
    fn set_session(&mut self, id: Option<u128>, session_id: Option<String>)
        ensures
            final(self)@ == old(self)@.with_session_of(id, text_of(session_id)),
    {
        if let Some(p) = id {
            if let Some(mut peer) = find_peer(&self.peers, p) {
                peer.session_id = session_id;
                update_peer(&mut self.peers, p, peer);
            }
        }
    }

    /// Lets a peer leave. Returns whom that is to be told to.
    pub fn remove_peer(&mut self, peer_id: u128) -> (r: Vec<(u128, VersionedServerMessage)>)
        ensures
            final(self)@ == removed(old(self)@, peer_id),
            deliveries(r@) == removal_news(old(self)@, peer_id),
    {
        let mut news: Vec<(u128, VersionedServerMessage)> = Vec::new();
        assert(deliveries(news@) == Seq::<Delivery>::empty());
        let peer = match drop_peer(&mut self.peers, peer_id) {
            None => {
                assert(self@.peers == old(self)@.peers);
                return news;
            },
            Some(p) => p,
        };
        let transfer_id = match peer.session_id {
            None => {
                return news;
            },
            Some(t) => t,
        };
        let mut session = match find_session(&self.sessions, transfer_id.as_str()) {
            None => {
                return news;
            },
            Some(s) => s,
        };
        if session.sender_id == Some(peer_id) {
            self.set_session(session.receiver_id, None);
            if let Some(receiver_id) = session.receiver_id {
                news.push(
                    (
                        receiver_id,
                        VersionedServerMessage::new(
                            ServerMessage::PeerDisconnected {
                                peer_id: write_id(peer_id),
                                role: Role::Sender,
                            },
                        ),
                    ),
                );
            }
            let _ = take_session(&mut self.sessions, transfer_id.as_str());
        } else if session.receiver_id == Some(peer_id) {
            let sender = session.sender_id;
            session.receiver_id = None;
            put_session(&mut self.sessions, transfer_id.clone(), session);
            self.set_session(sender, Some(transfer_id));
            if let Some(sender_id) = sender {
                news.push(
                    (
                        sender_id,
                        VersionedServerMessage::new(
                            ServerMessage::PeerDisconnected {
                                peer_id: write_id(peer_id),
                                role: Role::Receiver,
                            },
                        ),
                    ),
                );
            }
        }
        assert(deliveries(news@) == removal_news(old(self)@, peer_id));
        news
    }

    /// Lets peers leave, one after the other. Returns whom that is to be told to.
    pub fn remove_peers(&mut self, ids: &Vec<u128>) -> (r: Vec<(u128, VersionedServerMessage)>)
        ensures
            final(self)@ == all_removed(old(self)@, ids@),
            deliveries(r@) == all_removal_news(old(self)@, ids@),
    {
        let mut news: Vec<(u128, VersionedServerMessage)> = Vec::new();
        let mut i: usize = 0;
        assert(deliveries(news@) == Seq::<Delivery>::empty());
        while i < ids.len()
            invariant
                i <= ids@.len(),
                self@ == all_removed(old(self)@, ids@.take(i as int)),
                deliveries(news@) == all_removal_news(old(self)@, ids@.take(i as int)),
            decreases ids@.len() - i,
        {
            let mut more = self.remove_peer(ids[i]);
            let ghost before = news@;
            let ghost added = more@;
            news.append(&mut more);
            assert(deliveries(news@) == deliveries(before) + deliveries(added));
            i += 1;
            assert(ids@.take(i as int).drop_last() == ids@.take(i - 1));
        }
        assert(ids@.take(i as int) == ids@);
        news
    }

    /// Closes a session that has expired. Returns whom that is to be told to.
    fn expire_session(&mut self, transfer_id: &str) -> (r: Vec<(u128, VersionedServerMessage)>)
        ensures
            final(self)@ == lapsed(old(self)@, transfer_id@),
            deliveries(r@) == lapse_news(old(self)@, transfer_id@),
    {
        let mut news: Vec<(u128, VersionedServerMessage)> = Vec::new();
        assert(deliveries(news@) == Seq::<Delivery>::empty());
        if let Some(session) = take_session(&mut self.sessions, transfer_id) {
            self.set_session(session.sender_id, None);
            self.set_session(session.receiver_id, None);
            if let Some(sender_id) = session.sender_id {
                news.push(
                    (
                        sender_id,
                        VersionedServerMessage::new(
                            ServerMessage::Error {
                                code: ErrorCode::SessionExpired.as_str().to_string(),
                                message: "Session expired".to_string(),
                            },
                        ),
                    ),
                );
            }
        } else {
            assert(self@.sessions == old(self)@.sessions);
        }
        assert(deliveries(news@) == lapse_news(old(self)@, transfer_id@));
        news
    }

    /// Closes sessions that have expired, one after the other. Returns whom that
    /// is to be told to.
    pub fn expire_sessions(&mut self, ids: &Vec<String>) -> (r: Vec<(u128, VersionedServerMessage)>)
        ensures
            final(self)@ == all_lapsed(old(self)@, texts(ids@)),
            deliveries(r@) == all_lapse_news(old(self)@, texts(ids@)),
    {
        let mut news: Vec<(u128, VersionedServerMessage)> = Vec::new();
        let mut i: usize = 0;
        assert(deliveries(news@) == Seq::<Delivery>::empty());
        while i < ids.len()
            invariant
                i <= ids@.len(),
                self@ == all_lapsed(old(self)@, texts(ids@).take(i as int)),
                deliveries(news@) == all_lapse_news(old(self)@, texts(ids@).take(i as int)),
            decreases ids@.len() - i,
        {
            let mut more = self.expire_session(ids[i].as_str());
            let ghost before = news@;
            let ghost added = more@;
            news.append(&mut more);
            assert(deliveries(news@) == deliveries(before) + deliveries(added));
            i += 1;
            assert(texts(ids@).take(i as int).drop_last() == texts(ids@).take(i - 1));
        }
        assert(texts(ids@).take(i as int) == texts(ids@));
        news
    }

    /// The ids of the peers that have gone silent, in the order of `keys`.
    fn find_stale(&self, keys: &Vec<u128>, now: u64) -> (r: Vec<u128>)
        requires
            forall|i: int| 0 <= i < keys@.len() ==> self@.peers.contains_key(#[trigger] keys@[i]),
        ensures
            r@ == stale_ids(self@, keys@, now),
    {
        let mut found: Vec<u128> = Vec::new();
        let mut i: usize = 0;
        while i < keys.len()
            invariant
                i <= keys@.len(),
                forall|i: int|
                    0 <= i < keys@.len() ==> self@.peers.contains_key(#[trigger] keys@[i]),
                found@ == stale_ids(self@, keys@.take(i as int), now),
            decreases keys@.len() - i,
        {
            assert(keys@.take(i + 1).drop_last() == keys@.take(i as int));
            assert(self@.peers.contains_key(keys@[i as int]));
            if let Some(peer) = find_peer(&self.peers, keys[i]) {
                let silent: u64 = if now > peer.last_heartbeat {
                    (now - peer.last_heartbeat) / SECOND
                } else {
                    0
                };
                if silent > self.config.heartbeat_timeout_seconds {
                    found.push(peer.id);
                }
            }
            i += 1;
        }
        assert(keys@.take(i as int) == keys@);
        found
    }

    /// The transfer ids of the sessions that have expired, in the order of `keys`.
    fn find_expired(&self, keys: &Vec<String>, now: u64) -> (r: Vec<String>)
        requires
            forall|i: int|
                0 <= i < keys@.len() ==> self@.sessions.contains_key(#[trigger] texts(keys@)[i]),
        ensures
            texts(r@) == expired_ids(self@, texts(keys@), now),
    {
        let mut found: Vec<String> = Vec::new();
        let mut i: usize = 0;
        assert(texts(found@) == Seq::<Seq<char>>::empty());
        while i < keys.len()
            invariant
                i <= keys@.len(),
                forall|i: int|
                    0 <= i < keys@.len() ==> self@.sessions.contains_key(
                        #[trigger] texts(keys@)[i],
                    ),
                texts(found@) == expired_ids(self@, texts(keys@).take(i as int), now),
            decreases keys@.len() - i,
        {
            assert(texts(keys@).take(i + 1).drop_last() == texts(keys@).take(i as int));
            assert(self@.sessions.contains_key(texts(keys@)[i as int]));
            if let Some(session) = find_session(&self.sessions, keys[i].as_str()) {
                if now as u128 > session.expires_at {
                    let ghost before = found@;
                    found.push(session.transfer_id);
                    assert(texts(found@) == texts(before).push(session@.transfer_id));
                }
            }
            i += 1;
        }
        assert(texts(keys@).take(i as int) == texts(keys@));
        found
    }

    /// Clears away silent peers and expired sessions at the present time. Returns
    /// whom that is to be told to.
    pub fn cleanup_stale(&mut self) -> (r: Vec<(u128, VersionedServerMessage)>)
        ensures
            exists|peers: Seq<u128>, sessions: Seq<Seq<char>>, now: u64|
                {
                    &&& is_reading(old(self)@.clock, now)
                    &&& #[trigger] walks(old(self)@, peers, sessions, now)
                    &&& final(self)@ == cleaned(old(self)@, peers, sessions, now)
                    &&& deliveries(r@) == cleaning_news(old(self)@, peers, sessions, now)
                },
    {
        let now = self.clock.now();
        assert(is_reading(self@.clock, now));
        self.cleanup_stale_at(now)
    }

    /// Clears away silent peers and expired sessions. Returns whom that is to be
    /// told to. The order in which the tables are walked is theirs to choose.
    pub fn cleanup_stale_at(&mut self, now: u64) -> (r: Vec<(u128, VersionedServerMessage)>)
        ensures
            exists|peers: Seq<u128>, sessions: Seq<Seq<char>>| #[trigger]
                walks(old(self)@, peers, sessions, now) && final(self)@ == cleaned(
                    old(self)@,
                    peers,
                    sessions,
                    now,
                ) && deliveries(r@) == cleaning_news(old(self)@, peers, sessions, now),
    {
        let keys = peer_ids(&self.peers);
        assert forall|i: int| 0 <= i < keys@.len() implies self@.peers.contains_key(
            #[trigger] keys@[i],
        ) by {
            assert(keys@.to_set().contains(keys@[i]));
        }
        let stale = self.find_stale(&keys, now);
        let mut news = self.remove_peers(&stale);
        let ids = session_ids(&self.sessions);
        assert(ids@.map_values(|s: String| s@) == texts(ids@));
        assert forall|i: int| 0 <= i < ids@.len() implies self@.sessions.contains_key(
            #[trigger] texts(ids@)[i],
        ) by {
            assert(texts(ids@).to_set().contains(texts(ids@)[i]));
        }
        let expired = self.find_expired(&ids, now);
        let mut more = self.expire_sessions(&expired);
        let ghost before = news@;
        let ghost added = more@;
        news.append(&mut more);
        proof {
            assert(deliveries(news@) == deliveries(before) + deliveries(added));
            assert(walks(old(self)@, keys@, texts(ids@), now));
        }
        news
    }
}

} // verus!
