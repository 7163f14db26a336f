//! What the server does with a connection and with what comes in on it.
use tokio::sync::mpsc::UnboundedSender;
use vstd::prelude::*;

use crate::clock::{is_reading, SECOND};
use crate::errors::{AppError, AppErrorView, ErrorCode};
use crate::ids::{draw_id, is_drawn_id, is_random_id};
use crate::laws::messages::message_keeps_peers;
use crate::models::{
    text_of, versioned, ClientMessage, ClientMessageView, MessageView, ServerMessage,
    ServerMessageView, VersionedServerMessage,
};
use crate::rules::{
    cap_reached, connect_error, connected, removal_news, removed, PeerView,
    StateView, BAD_MESSAGE_LIMIT, RATE_LIMIT_CAPACITY, RATE_LIMIT_SECONDS,
};
use crate::security::{is_origin_allowed, origin_allowed};
use crate::signaling::{
    all_answered, all_sent, codes_are_drawn, error_of, handle_message_and_log, handled, heard_of,
    logged, note_sign_of_life, notify,
};
use crate::state::{AppState, Peer};
use crate::tables::{find_peer, peer_count, update_peer};
use crate::text::{byte_count, byte_len};

verus! {

#[verifier::external_type_specification]
#[verifier::external_body]
pub struct ExJsonError(serde_json::Error);

#[verifier::external_type_specification]
#[verifier::external_body]
pub struct ExJsonValue(serde_json::Value);

/// The members of a JSON object that are strings, by key; none where the value is
/// no object.
pub uninterp spec fn string_members(value: serde_json::Value) -> Map<Seq<char>, Seq<char>>;

/// The members that are strings, by key, of the JSON object that a text writes;
/// nothing where the text is not JSON.
pub uninterp spec fn json_members(text: Seq<char>) -> Option<Map<Seq<char>, Seq<char>>>;

/// `serde_json::from_str`: the JSON value that a text writes, or an error where it
/// is not JSON. The contract names what members of the value are strings; it says
/// nothing of the grammar.
#[verifier::external_body]
fn parse_json(text: &str) -> (r: Result<serde_json::Value, serde_json::Error>)
    ensures
        match r {
            Ok(v) => json_members(text@) == Some(string_members(v)),
            Err(_) => json_members(text@) is None,
        },
{
    serde_json::from_str(text)
}

/// `Value::get`, read by `Value::as_str`: the member of an object under a key,
/// where it is a string.
#[verifier::external_body]
fn string_member(value: &serde_json::Value, key: &str) -> (r: Option<String>)
    ensures
        text_of(r) == member(string_members(*value), key@),
{
    value.get(key).and_then(|v| v.as_str()).map(|s| s.to_string())
}

/// What stands under a key, where anything does.
pub open spec fn member(members: Map<Seq<char>, Seq<char>>, key: Seq<char>) -> Option<Seq<char>> {
    if members.contains_key(key) {
        Some(members[key])
    } else {
        None
    }
}

/// The string that a text holds under a key, when it is read as JSON: nothing
/// where it is not JSON; nothing within where it is no object, or holds no string
/// there.
pub open spec fn json_string(text: Seq<char>, key: Seq<char>) -> Option<Option<Seq<char>>> {
    match json_members(text) {
        Some(members) => Some(member(members, key)),
        None => None,
    }
}

// Connecting.

/// Whether a connection is let in.
#[derive(Debug, Clone, Copy, PartialEq, Eq, Structural)]
pub enum Admission {
    Accepted,
    CapReached,
    ForbiddenOrigin,
}

/// Whether a connection from this origin is let in.
pub open spec fn admission(s: StateView, origin: Seq<char>) -> Admission {
    if cap_reached(s) {
        Admission::CapReached
    } else if s.config.environment@ == "production"@ && !origin_allowed(
        origin,
        s.config.allowed_origins@,
    ) {
        Admission::ForbiddenOrigin
    } else {
        Admission::Accepted
    }
}

/// Decides whether a connection from this origin is let in.
pub fn check_admission(state: &AppState, origin: &str) -> (r: Admission)
    ensures
        r == admission(state@, origin@),
{
    if peer_count(&state.peers) >= state.config.max_connections {
        return Admission::CapReached;
    }
    if *state.config.environment.as_str() == *"production" && !is_origin_allowed(
        origin,
        state.config.allowed_origins.as_slice(),
    ) {
        return Admission::ForbiddenOrigin;
    }
    Admission::Accepted
}

/// Takes in a connection under an id drawn at random.
pub fn open_connection(
    state: &mut AppState,
    tx: UnboundedSender<VersionedServerMessage>,
) -> (r: Result<u128, AppError>)
    ensures
        match connect_error(old(state)@) {
            Some(e) => r matches Err(x) && x@ == e && final(state)@ == old(state)@,
            None => r matches Ok(id) && is_random_id(id) && is_drawn_id(id) && (exists|now: u64|
                is_reading(old(state)@.clock, now) && final(state)@ == #[trigger] connected(
                    old(state)@,
                    id,
                    tx,
                    now,
                )),
        },
{
    let id = draw_id();
    match state.add_peer(id, tx) {
        Ok(_) => Ok(id),
        Err(e) => Err(e),
    }
}

/// Lets the peer of a connection that has ended leave, and tells its partner.
pub fn close_connection(state: &mut AppState, peer_id: u128)
    ensures
        exists|taken: Seq<bool>|
            taken.len() == removal_news(old(state)@, peer_id).len() && all_answered(
                removed(old(state)@, peer_id),
                removal_news(old(state)@, peer_id),
                taken,
            ) && final(state)@ == #[trigger] all_sent(
                removed(old(state)@, peer_id),
                removal_news(old(state)@, peer_id),
                taken,
            ),
{
    let news = state.remove_peer(peer_id);
    notify(state, news);
}

// Limits.

/// Whether a message that was sent then counts now against the client that sent
/// it: no more than a minute has passed.
pub open spec fn counts(then: u64, now: u64) -> bool {
    now - then <= RATE_LIMIT_SECONDS * SECOND
}

/// When the messages were sent that count now against a peer.
pub open spec fn still_spent(p: PeerView, now: u64) -> Seq<u64> {
    p.rate_limit_spent.filter(|then: u64| counts(then, now))
}

/// The number of messages that can be sent at once where so many count.
pub open spec fn tokens_left(spent: nat) -> usize {
    if spent < RATE_LIMIT_CAPACITY {
        (RATE_LIMIT_CAPACITY - spent) as usize
    } else {
        0
    }
}

/// Whether a peer may send a message.
pub open spec fn within_limit(p: PeerView, now: u64) -> bool {
    still_spent(p, now).len() < RATE_LIMIT_CAPACITY
}

/// A peer after it has sent a message.
pub open spec fn charged(p: PeerView, now: u64) -> PeerView {
    let spent = if within_limit(p, now) {
        still_spent(p, now).push(now)
    } else {
        still_spent(p, now)
    };
    PeerView {
        rate_limit_tokens: tokens_left(spent.len()),
        rate_limit_last_check: now,
        rate_limit_spent: spent,
        ..p
    }
}

/// The times of the messages that count after one more, and whether that one may
/// be sent.
fn spend(times: &Vec<u64>, now: u64) -> (r: (Vec<u64>, bool))
    ensures
        ({
            let still = times@.filter(|then: u64| counts(then, now));
            &&& r.1 == (still.len() < RATE_LIMIT_CAPACITY)
            &&& r.0@ == (if r.1 {
                still.push(now)
            } else {
                still
            })
        }),
{
    let ghost keep = |then: u64| counts(then, now);
    let mut still: Vec<u64> = Vec::new();
    let mut i: usize = 0;
    reveal(Seq::filter);
    while i < times.len()
        invariant
            i <= times@.len(),
            keep == (|then: u64| counts(then, now)),
            still@ == times@.take(i as int).filter(keep),
        decreases times@.len() - i,
    {
        reveal(Seq::filter);
        let then = times[i];
        if then >= now || now - then <= RATE_LIMIT_SECONDS * SECOND {
            still.push(then);
        }
        i += 1;
        assert(times@.take(i as int).drop_last() == times@.take(i - 1));
        assert(times@.take(i as int).last() == then);
    }
    assert(times@.take(i as int) == times@);
    let ok = still.len() < RATE_LIMIT_CAPACITY;
    if ok {
        still.push(now);
    }
    (still, ok)
}

fn tokens_with(spent: usize) -> (n: usize)
    ensures
        n == tokens_left(spent as nat),
{
    if spent < RATE_LIMIT_CAPACITY {
        RATE_LIMIT_CAPACITY - spent
    } else {
        0
    }
}

/// Charges a peer for a message. Returns whether it may send it.
pub fn check_rate_limit(peer: &mut Peer, now: u64) -> (r: bool)
    ensures
        final(peer)@ == charged(old(peer)@, now),
        r == within_limit(old(peer)@, now),
{
    let (spent, r) = spend(&peer.rate_limit_spent, now);
    peer.rate_limit_tokens = tokens_with(spent.len());
    peer.rate_limit_last_check = now;
    peer.rate_limit_spent = spent;
    r
}

/// Whether a peer can be charged for one more bad message.
pub open spec fn can_count(s: StateView, id: u128) -> bool {
    s.peers.contains_key(id) ==> s.peers[id].bad_message_count < usize::MAX
}

/// The state after a bad message has been counted.
pub open spec fn counted(s: StateView, id: u128) -> StateView {
    if s.peers.contains_key(id) {
        s.with_peer(
            id,
            PeerView {
                bad_message_count: (s.peers[id].bad_message_count + 1) as usize,
                ..s.peers[id]
            },
        )
    } else {
        s
    }
}

/// Whether a peer has sent too many bad messages, or is gone.
pub open spec fn is_spent(s: StateView, id: u128) -> bool {
    s.peers.contains_key(id) ==> s.peers[id].bad_message_count >= BAD_MESSAGE_LIMIT
}

/// Counts a bad message.
pub fn increment_bad_messages(state: &mut AppState, peer_id: u128)
    requires
        can_count(old(state)@, peer_id),
    ensures
        final(state)@ == counted(old(state)@, peer_id),
{
    if let Some(mut peer) = find_peer(&state.peers, peer_id) {
        peer.bad_message_count = peer.bad_message_count + 1;
        update_peer(&mut state.peers, peer_id, peer);
    }
}

/// Tells whether a peer can be charged for one more bad message.
pub fn has_room_to_count(state: &AppState, peer_id: u128) -> (r: bool)
    ensures
        r == can_count(state@, peer_id),
{
    match find_peer(&state.peers, peer_id) {
        Some(peer) => peer.bad_message_count < usize::MAX,
        None => true,
    }
}

/// Tells whether a peer has sent too many bad messages, or is gone.
pub fn check_bad_messages(state: &AppState, peer_id: u128) -> (r: bool)
    ensures
        r == is_spent(state@, peer_id),
{
    match find_peer(&state.peers, peer_id) {
        Some(peer) => peer.bad_message_count >= BAD_MESSAGE_LIMIT,
        None => true,
    }
}

// Frames.

/// What comes in on a connection.
#[derive(Debug, Clone)]
pub enum Frame {
    Close,
    Ping,
    Pong,
    Binary,
    Text(String),
}

/// What is done next on a connection: read on, decode the text that came in,
/// end the connection, or end it with a close code.
#[derive(Debug, Clone, Copy, PartialEq, Eq)]
pub enum Next {
    Read,
    Decode,
    Close,
    CloseWith(u16),
}

/// The close code for data of a kind that is not accepted.
pub const UNSUPPORTED_DATA: u16 = 1003;

/// What is answered on a connection, what is done next, and what is logged.
#[derive(Debug, Clone)]
pub struct Outcome {
    pub reply: Option<VersionedServerMessage>,
    pub next: Next,
    pub log: Option<String>,
}

/// What an [`Outcome`] holds.
pub struct OutcomeView {
    pub reply: Option<MessageView>,
    pub next: Next,
    pub log: Option<Seq<char>>,
}

impl View for Outcome {
    type V = OutcomeView;

    open spec fn view(&self) -> OutcomeView {
        OutcomeView {
            reply: match self.reply {
                Some(m) => Some(m@),
                None => None,
            },
            next: self.next,
            log: text_of(self.log),
        }
    }
}

/// A state and what is then answered.
pub type Reaction = (StateView, OutcomeView);

/// The answer that tells of an error.
pub open spec fn error_reply(code: ErrorCode, message: Seq<char>) -> MessageView {
    versioned(ServerMessageView::Error { code: code.name(), message })
}

/// An error is told of, and then this is done.
pub open spec fn told(code: ErrorCode, message: Seq<char>, next: Next) -> OutcomeView {
    OutcomeView { reply: Some(error_reply(code, message)), next, log: None }
}

/// A bad message is counted and told of; one too many ends the connection.
pub open spec fn reproached(
    s: StateView,
    id: u128,
    code: ErrorCode,
    message: Seq<char>,
) -> Reaction {
    let after = counted(s, id);
    (
        after,
        told(
            code,
            message,
            if is_spent(after, id) {
                Next::Close
            } else {
                Next::Read
            },
        ),
    )
}

/// The state after a peer has been charged for a message.
pub open spec fn charged_state(s: StateView, id: u128, now: u64) -> StateView {
    if s.peers.contains_key(id) {
        s.with_peer(id, charged(s.peers[id], now))
    } else {
        s
    }
}

/// What follows from the protocol version that a message gives.
pub open spec fn version_reaction(
    s: StateView,
    id: u128,
    version: Option<Option<Seq<char>>>,
) -> Reaction {
    match version {
        None => reproached(s, id, ErrorCode::MalformedMessage, "Invalid JSON"@),
        Some(v) => if v == Some("1"@) {
            (s, OutcomeView { reply: None, next: Next::Decode, log: None })
        } else {
            reproached(s, id, ErrorCode::MalformedMessage, "Unsupported protocol version"@)
        },
    }
}

/// What follows from a text that comes in and gives this protocol version.
pub open spec fn text_reaction(
    s: StateView,
    id: u128,
    text: Seq<char>,
    now: u64,
    version: Option<Option<Seq<char>>>,
) -> Reaction {
    if byte_len(text) > s.config.max_message_size {
        (s, told(ErrorCode::RateLimitExceeded, "Message too large"@, Next::Close))
    } else if !(s.peers.contains_key(id) && within_limit(s.peers[id], now)) {
        (
            charged_state(s, id, now),
            told(ErrorCode::RateLimitExceeded, "Rate limit exceeded"@, Next::Close),
        )
    } else {
        version_reaction(charged_state(s, id, now), id, version)
    }
}

/// What follows from a frame that comes in.
pub open spec fn frame_reaction(s: StateView, id: u128, frame: Frame, now: u64) -> Reaction {
    match frame {
        Frame::Close => (s, OutcomeView { reply: None, next: Next::Close, log: None }),
        Frame::Ping => (
            s,
            OutcomeView {
                reply: Some(versioned(ServerMessageView::HeartbeatAck)),
                next: Next::Read,
                log: None,
            },
        ),
        Frame::Pong => (
            heard_of(s, id, now),
            OutcomeView { reply: None, next: Next::Read, log: None },
        ),
        Frame::Binary => (
            s,
            told(
                ErrorCode::MalformedMessage,
                "Binary websocket frames are not allowed"@,
                Next::CloseWith(UNSUPPORTED_DATA),
            ),
        ),
        Frame::Text(text) => text_reaction(
            s,
            id,
            text@,
            now,
            json_string(text@, "version"@),
        ),
    }
}

/// Whether an error counts against the peer that caused it.
pub open spec fn is_abuse(code: ErrorCode) -> bool {
    code == ErrorCode::MalformedMessage || code == ErrorCode::Unauthorized
}

/// What follows from how a message was dealt with.
pub open spec fn answer_reaction(s: StateView, id: u128, error: Option<AppErrorView>) -> Reaction {
    match error {
        None => (s, OutcomeView { reply: None, next: Next::Read, log: None }),
        Some(e) => if is_abuse(e.code) {
            reproached(s, id, e.code, e.message)
        } else {
            (s, told(e.code, e.message, Next::Read))
        },
    }
}

fn tell(code: ErrorCode, message: &str, next: Next) -> (r: Outcome)
    ensures
        r@ == told(code, message@, next),
{
    Outcome {
        reply: Some(
            VersionedServerMessage::new(
                ServerMessage::Error {
                    code: code.as_str().to_string(),
                    message: message.to_string(),
                },
            ),
        ),
        next,
        log: None,
    }
}

fn reproach(state: &mut AppState, peer_id: u128, code: ErrorCode, message: &str) -> (r: Outcome)
    requires
        can_count(old(state)@, peer_id),
    ensures
        (final(state)@, r@) == reproached(old(state)@, peer_id, code, message@),
{
    increment_bad_messages(state, peer_id);
    let next = if check_bad_messages(state, peer_id) {
        Next::Close
    } else {
        Next::Read
    };
    tell(code, message, next)
}

/// Charges a peer for a message. Returns whether it is there and may send it.
pub fn charge(state: &mut AppState, peer_id: u128, now: u64) -> (r: bool)
    ensures
        final(state)@ == charged_state(old(state)@, peer_id, now),
        r == (old(state)@.peers.contains_key(peer_id) && within_limit(
            old(state)@.peers[peer_id],
            now,
        )),
{
    match find_peer(&state.peers, peer_id) {
        Some(mut peer) => {
            let (spent, r) = spend(&peer.rate_limit_spent, now);
            peer.rate_limit_tokens = tokens_with(spent.len());
            peer.rate_limit_last_check = now;
            peer.rate_limit_spent = spent;
            update_peer(&mut state.peers, peer_id, peer);
            r
        },
        None => false,
    }
}

/// Reacts to the protocol version that a message gives: nothing where it is not
/// JSON, nothing within where it gives none.
pub fn check_version(
    state: &mut AppState,
    peer_id: u128,
    version: Option<Option<String>>,
) -> (r: Outcome)
    requires
        can_count(old(state)@, peer_id),
    ensures
        (final(state)@, r@) == version_reaction(
            old(state)@,
            peer_id,
            match version {
                Some(v) => Some(text_of(v)),
                None => None,
            },
        ),
{
    match version {
        None => reproach(state, peer_id, ErrorCode::MalformedMessage, "Invalid JSON"),
        Some(Some(v)) => {
            if *v.as_str() == *"1" {
                Outcome { reply: None, next: Next::Decode, log: None }
            } else {
                reproach(
                    state,
                    peer_id,
                    ErrorCode::MalformedMessage,
                    "Unsupported protocol version",
                )
            }
        },
        Some(None) => reproach(
            state,
            peer_id,
            ErrorCode::MalformedMessage,
            "Unsupported protocol version",
        ),
    }
}

/// Reacts to a text that comes in.
pub fn handle_text(state: &mut AppState, peer_id: u128, text: &str, now: u64) -> (r: Outcome)
    requires
        can_count(old(state)@, peer_id),
    ensures
        (final(state)@, r@) == text_reaction(
            old(state)@,
            peer_id,
            text@,
            now,
            json_string(text@, "version"@),
        ),
{
    if byte_count(text) > state.config.max_message_size {
        return tell(ErrorCode::RateLimitExceeded, "Message too large", Next::Close);
    }
    if !charge(state, peer_id, now) {
        return tell(ErrorCode::RateLimitExceeded, "Rate limit exceeded", Next::Close);
    }
    let version = match parse_json(text) {
        Ok(value) => Some(string_member(&value, "version")),
        Err(_) => None,
    };
    check_version(state, peer_id, version)
}

/// Reacts to a frame that comes in at the present time.
pub fn handle_frame(state: &mut AppState, peer_id: u128, frame: &Frame) -> (r: Outcome)
    requires
        can_count(old(state)@, peer_id),
    ensures
        exists|now: u64|
            is_reading(old(state)@.clock, now) && (final(state)@, r@) == #[trigger] frame_reaction(
                old(state)@,
                peer_id,
                *frame,
                now,
            ),
{
    let now = state.clock.now();
    assert(is_reading(state@.clock, now));
    handle_frame_at(state, peer_id, frame, now)
}

/// Reacts to a frame that comes in.
pub fn handle_frame_at(state: &mut AppState, peer_id: u128, frame: &Frame, now: u64) -> (r: Outcome)
    requires
        can_count(old(state)@, peer_id),
    ensures
        (final(state)@, r@) == frame_reaction(old(state)@, peer_id, *frame, now),
{
    match frame {
        Frame::Close => Outcome { reply: None, next: Next::Close, log: None },
        Frame::Ping => Outcome {
            reply: Some(VersionedServerMessage::new(ServerMessage::HeartbeatAck)),
            next: Next::Read,
            log: None,
        },
        Frame::Pong => {
            note_sign_of_life(state, peer_id, now);
            Outcome { reply: None, next: Next::Read, log: None }
        },
        Frame::Binary => tell(
            ErrorCode::MalformedMessage,
            "Binary websocket frames are not allowed",
            Next::CloseWith(UNSUPPORTED_DATA),
        ),
        Frame::Text(text) => handle_text(state, peer_id, text.as_str(), now),
    }
}

/// Answers for how a message was dealt with.
pub fn answer(state: &mut AppState, peer_id: u128, result: Result<(), AppError>) -> (r: Outcome)
    requires
        can_count(old(state)@, peer_id),
    ensures
        (final(state)@, r@) == answer_reaction(old(state)@, peer_id, error_of(result)),
{
    match result {
        Ok(_) => Outcome { reply: None, next: Next::Read, log: None },
        Err(e) => {
            if e.code == ErrorCode::MalformedMessage || e.code == ErrorCode::Unauthorized {
                reproach(state, peer_id, e.code, e.message.as_str())
            } else {
                tell(e.code, e.message.as_str(), Next::Read)
            }
        },
    }
}

/// Whether a decoded message has been dealt with and answered as it should be.
pub open spec fn decoded_reaction(
    s: StateView,
    id: u128,
    message: Option<ClientMessageView>,
    reaction: Reaction,
) -> bool {
    match message {
        None => reaction == reproached(s, id, ErrorCode::MalformedMessage, "Invalid schema"@),
        Some(m) => exists|
            now: u64,
            new_transfer_id: Seq<char>,
            new_token: Seq<char>,
            dealt: StateView,
            error: Option<AppErrorView>,
        |
            {
                &&& is_reading(s.clock, now)
                &&& codes_are_drawn(m, new_transfer_id, new_token)
                &&& #[trigger] handled(
                    s,
                    id,
                    m,
                    now,
                    new_transfer_id,
                    new_token,
                    dealt,
                    error,
                )
                &&& reaction.0 == answer_reaction(dealt, id, error).0
                &&& reaction.1 == (OutcomeView {
                    log: logged(s, id, m, now, new_transfer_id, new_token),
                    ..answer_reaction(dealt, id, error).1
                })
            },
    }
}

/// Deals with a text that passed as a message, and answers; there is no message
/// where it does not decode to one.
pub fn handle_decoded(
    state: &mut AppState,
    peer_id: u128,
    message: Option<ClientMessage>,
) -> (r: Outcome)
    requires
        can_count(old(state)@, peer_id),
    ensures
        decoded_reaction(
            old(state)@,
            peer_id,
            match message {
                Some(m) => Some(m@),
                None => None,
            },
            (final(state)@, r@),
        ),
{
    match message {
        None => reproach(state, peer_id, ErrorCode::MalformedMessage, "Invalid schema"),
        Some(m) => {
            let (result, log) = handle_message_and_log(state, peer_id, m);
            proof {
                let (now, t, k) = choose|now: u64, t: Seq<char>, k: Seq<char>|
                    {
                        &&& is_reading(old(state)@.clock, now)
                        &&& codes_are_drawn(m@, t, k)
                        &&& #[trigger] handled(
                            old(state)@,
                            peer_id,
                            m@,
                            now,
                            t,
                            k,
                            state@,
                            error_of(result),
                        )
                        &&& text_of(log) == logged(old(state)@, peer_id, m@, now, t, k)
                    };
                if state@.peers.contains_key(peer_id) {
                    message_keeps_peers(
                        old(state)@,
                        peer_id,
                        m@,
                        now,
                        t,
                        k,
                        state@,
                        error_of(result),
                        peer_id,
                    );
                }
            }
            let outcome = answer(state, peer_id, result);
            Outcome { log, ..outcome }
        },
    }
}

} // verus!
