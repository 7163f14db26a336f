//! What the server does with a client's message.
use vstd::prelude::*;

use crate::clock::is_reading;
use crate::errors::{refusal, AppError, AppErrorView, ErrorCode};
use crate::ids::{id_number, id_text, read_id, write_id};
use crate::laws::privacy::tokens_are_plain;
use crate::logs::{log_line, message_log, target_of};
use crate::models::{
    text_of, versioned, ClientMessage, ClientMessageView, Role, ServerMessage, ServerMessageView,
    VersionedServerMessage,
};
use crate::rules::{
    approve_error, approved, asked_to_join, create_error, created, join_error, register_error,
    registered, removal_news, removed, Delivery, PeerView, StateView,
};
use crate::security::{
    generate_secure_token, generate_transfer_id, is_code, is_drawn, token_alphabet,
    transfer_id_alphabet,
};
use crate::state::{deliveries, AppState};
use crate::tables::{find_peer, find_session, hand_over, has_answered, update_peer};
use crate::text::{is_blank, is_blank_text};

verus! {

/// Whom a member of a session speaks to in it, or why it may not.
pub open spec fn partner(s: StateView, id: u128, transfer_id: Seq<char>) -> Result<
    u128,
    AppErrorView,
> {
    if !s.sessions.contains_key(transfer_id) {
        Err(refusal(ErrorCode::InvalidSession, "Session not found"@))
    } else {
        let session = s.sessions[transfer_id];
        if session.sender_id == Some(id) {
            match session.receiver_id {
                Some(r) => Ok(r),
                None => Err(refusal(ErrorCode::PeerNotFound, "Receiver missing"@)),
            }
        } else if session.receiver_id == Some(id) {
            match session.sender_id {
                Some(r) => Ok(r),
                None => Err(refusal(ErrorCode::PeerNotFound, "Sender missing"@)),
            }
        } else {
            Err(refusal(ErrorCode::Unauthorized, "Not session member"@))
        }
    }
}

/// The state after a sign of life.
pub open spec fn heard_of(s: StateView, id: u128, now: u64) -> StateView {
    if s.peers.contains_key(id) {
        s.with_peer(id, PeerView { last_heartbeat: now, ..s.peers[id] })
    } else {
        s
    }
}

/// A state and the messages that are then to go out.
pub type Plan = (StateView, Seq<Delivery>);

/// One message that is to go out.
pub open spec fn one(id: u128, payload: ServerMessageView) -> Seq<Delivery> {
    seq![(id, versioned(payload))]
}

/// What a message is passed on as, or why it is not.
pub open spec fn relayed(
    s: StateView,
    id: u128,
    transfer_id: Seq<char>,
    payload: ServerMessageView,
) -> Result<Plan, AppErrorView> {
    match partner(s, id, transfer_id) {
        Ok(target) => Ok((s, one(target, payload))),
        Err(e) => Err(e),
    }
}

/// What is done, or why the request is refused.
pub open spec fn unless(error: Option<AppErrorView>, plan: Plan) -> Result<Plan, AppErrorView> {
    match error {
        Some(e) => Err(e),
        None => Ok(plan),
    }
}

/// What a client's message does and whom it is told to, or why it is refused.
/// A session that it creates gets this transfer id and token.
pub open spec fn planned(
    s: StateView,
    id: u128,
    message: ClientMessageView,
    now: u64,
    new_transfer_id: Seq<char>,
    new_token: Seq<char>,
) -> Result<Plan, AppErrorView> {
    match message {
        ClientMessageView::Register { role } => unless(
            register_error(s, id),
            (
                registered(s, id, role),
                one(id, ServerMessageView::Registered { peer_id: id_text(id) }),
            ),
        ),
        ClientMessageView::CreateSession => unless(
            create_error(s, id),
            (
                created(s, id, new_transfer_id, new_token, now),
                one(
                    id,
                    ServerMessageView::SessionCreated {
                        transfer_id: new_transfer_id,
                        token: new_token,
                    },
                ),
            ),
        ),
        ClientMessageView::JoinSession { transfer_id } => unless(
            join_error(s, id, transfer_id, now),
            (
                asked_to_join(s, id, transfer_id),
                one(
                    s.sessions[transfer_id].sender_id->0,
                    ServerMessageView::JoinRequest { receiver_id: id_text(id) },
                ),
            ),
        ),
        ClientMessageView::ApproveJoin { transfer_id, token, receiver_id } => match id_number(
            receiver_id,
        ) {
            None => Err(refusal(ErrorCode::MalformedMessage, "Invalid receiver UUID"@)),
            Some(n) => unless(
                approve_error(s, id, transfer_id, token, n as u128, now),
                (
                    approved(s, transfer_id, n as u128),
                    one(n as u128, ServerMessageView::SessionJoined { transfer_id }) + one(
                        id,
                        ServerMessageView::PeerJoined {
                            peer_id: receiver_id,
                            role: Role::Receiver,
                        },
                    ),
                ),
            ),
        },
        ClientMessageView::Offer { transfer_id, sdp } => relayed(
            s,
            id,
            transfer_id,
            ServerMessageView::RelayOffer { sdp },
        ),
        ClientMessageView::Answer { transfer_id, sdp } => relayed(
            s,
            id,
            transfer_id,
            ServerMessageView::RelayAnswer { sdp },
        ),
        ClientMessageView::IceCandidate { transfer_id, candidate, sdp_mid, sdp_mline_index } =>
            if is_blank_text(candidate) {
            Err(refusal(ErrorCode::MalformedMessage, "Empty ICE candidate"@))
        } else {
            relayed(
                s,
                id,
                transfer_id,
                ServerMessageView::RelayIceCandidate { candidate, sdp_mid, sdp_mline_index },
            )
        },
        ClientMessageView::Heartbeat => Ok(
            (heard_of(s, id, now), one(id, ServerMessageView::HeartbeatAck)),
        ),
        ClientMessageView::Disconnect => Ok((removed(s, id), removal_news(s, id))),
    }
}

// Sending.

/// The state after a message has gone to a peer's channel, which took it or not.
pub open spec fn sent(s: StateView, d: Delivery, taken: bool) -> StateView {
    if s.peers.contains_key(d.0) && taken {
        StateView { sent: s.sent.push(d), ..s }
    } else {
        s
    }
}

/// Why a message does not reach a peer.
pub open spec fn send_error(s: StateView, id: u128, taken: bool) -> Option<AppErrorView> {
    if !s.peers.contains_key(id) {
        Some(refusal(ErrorCode::PeerDisconnected, "Peer not found"@))
    } else if !taken {
        Some(refusal(ErrorCode::PeerDisconnected, "Peer connection closed"@))
    } else {
        None
    }
}

/// The state after messages have gone out, one after the other; `taken` says of
/// each whether the channel took it.
pub open spec fn all_sent(s: StateView, ds: Seq<Delivery>, taken: Seq<bool>) -> StateView
    decreases ds.len(),
{
    if ds.len() == 0 {
        s
    } else {
        sent(all_sent(s, ds.drop_last(), taken), ds.last(), taken[ds.len() - 1])
    }
}

/// Whether a peer's channel, where the peer is connected, has been asked to take
/// a message and has answered so.
pub open spec fn answered(s: StateView, d: Delivery, taken: bool) -> bool {
    s.peers.contains_key(d.0) ==> has_answered(s.sent, d, taken)
}

/// Whether each message that went out, one after the other, was answered by its
/// peer's channel as `taken` says.
pub open spec fn all_answered(s: StateView, ds: Seq<Delivery>, taken: Seq<bool>) -> bool
    decreases ds.len(),
{
    ds.len() > 0 ==> all_answered(s, ds.drop_last(), taken) && answered(
        all_sent(s, ds.drop_last(), taken),
        ds.last(),
        taken[ds.len() - 1],
    )
}

/// Whether messages have gone out in order up to the first that did not reach
/// its peer; `error` says why that one did not.
pub open spec fn sent_in_turn(
    s: StateView,
    ds: Seq<Delivery>,
    taken: Seq<bool>,
    after: StateView,
    error: Option<AppErrorView>,
) -> bool {
    let n = taken.len();
    &&& n <= ds.len()
    &&& after == all_sent(s, ds.take(n as int), taken)
    &&& all_answered(s, ds.take(n as int), taken)
    &&& forall|i: int|
        0 <= i < n - 1 ==> send_error(s, (#[trigger] ds[i]).0, taken[i]) is None
    &&& if n == 0 {
        error is None
    } else {
        error == send_error(s, ds[n - 1].0, taken[n - 1])
    }
    &&& error is None ==> n == ds.len()
}

/// The refusal that a result holds.
pub open spec fn error_of(r: Result<(), AppError>) -> Option<AppErrorView> {
    match r {
        Ok(_) => None,
        Err(e) => Some(e@),
    }
}

/// Whether a client's message has been dealt with as it should be. The news of
/// a peer that leaves goes to whoever is still there; any other message that
/// does not reach its peer is an error, and nothing more goes out.
pub open spec fn handled(
    s: StateView,
    id: u128,
    message: ClientMessageView,
    now: u64,
    new_transfer_id: Seq<char>,
    new_token: Seq<char>,
    after: StateView,
    error: Option<AppErrorView>,
) -> bool {
    match planned(s, id, message, now, new_transfer_id, new_token) {
        Err(e) => error == Some(e) && after == s,
        Ok(plan) => if message is Disconnect {
            error is None && exists|taken: Seq<bool>|
                taken.len() == plan.1.len() && all_answered(plan.0, plan.1, taken) && after
                    == #[trigger] all_sent(plan.0, plan.1, taken)
        } else {
            exists|taken: Seq<bool>| #[trigger]
                sent_in_turn(plan.0, plan.1, taken, after, error)
        },
    }
}

/// The answer to a message that a peer's channel took or refused.
pub fn delivery_result(taken: bool) -> (r: Result<(), AppError>)
    ensures
        taken ==> r is Ok,
        !taken ==> (r matches Err(e) && e@ == refusal(
            ErrorCode::PeerDisconnected,
            "Peer connection closed"@,
        )),
{
    if taken {
        Ok(())
    } else {
        Err(AppError::new(ErrorCode::PeerDisconnected, "Peer connection closed"))
    }
}

/// Hands a message to a peer's channel.
fn deliver(state: &mut AppState, peer_id: u128, message: VersionedServerMessage) -> (r: Result<
    (),
    AppError,
>)
    ensures
        exists|taken: bool|
            answered(old(state)@, (peer_id, message@), taken) && final(state)@ == #[trigger] sent(
                old(state)@,
                (peer_id, message@),
                taken,
            ) && error_of(r) == send_error(old(state)@, peer_id, taken),
{
    match hand_over(&mut state.peers, peer_id, message) {
        None => {
            assert(state@ == sent(old(state)@, (peer_id, message@), false));
            Err(AppError::new(ErrorCode::PeerDisconnected, "Peer not found"))
        },
        Some(taken) => {
            assert(state@ == sent(old(state)@, (peer_id, message@), taken));
            delivery_result(taken)
        },
    }
}

/// Sends a message to a peer.
pub fn send_to_peer(state: &mut AppState, peer_id: u128, message: ServerMessage) -> (r: Result<
    (),
    AppError,
>)
    ensures
        exists|taken: bool|
            answered(old(state)@, (peer_id, versioned(message@)), taken) && final(state)@
                == #[trigger] sent(old(state)@, (peer_id, versioned(message@)), taken)
                && error_of(r) == send_error(old(state)@, peer_id, taken),
{
    deliver(state, peer_id, VersionedServerMessage::new(message))
}

/// Tells each peer that is still there its news.
pub fn notify(state: &mut AppState, news: Vec<(u128, VersionedServerMessage)>)
    ensures
        exists|taken: Seq<bool>|
            taken.len() == news@.len() && all_answered(old(state)@, deliveries(news@), taken)
                && final(state)@ == #[trigger] all_sent(old(state)@, deliveries(news@), taken),
{
    let ghost all = deliveries(news@);
    let ghost mut taken: Seq<bool> = Seq::empty();
    let ghost total = news@.len();
    let mut rest = news;
    while rest.len() > 0
        invariant
            taken.len() + rest@.len() == total,
            total == all.len(),
            all.skip(taken.len() as int) == deliveries(rest@),
            state@ == all_sent(old(state)@, all.take(taken.len() as int), taken),
            all_answered(old(state)@, all.take(taken.len() as int), taken),
        decreases rest@.len(),
    {
        let ghost n = taken.len() as int;
        assert(deliveries(rest@)[0] == all[n]);
        let ghost before = rest@;
        let (id, message) = rest.remove(0);
        assert(deliveries(before).skip(1) == deliveries(rest@));
        let ghost was = state@;
        let _ = deliver(state, id, message);
        proof {
            let t = choose|t: bool|
                answered(was, (id, message@), t) && state@ == #[trigger] sent(
                    was,
                    (id, message@),
                    t,
                );
            lemma_all_sent_prefix(old(state)@, all.take(n), taken, taken.push(t));
            taken = taken.push(t);
            assert(all.take(n + 1).drop_last() == all.take(n));
            assert(all.skip(n + 1) == all.skip(n).skip(1));
        }
    }
    assert(all.take(total as int) == all);
}

/// Only the answers to the messages that went out count.
proof fn lemma_all_sent_prefix(s: StateView, ds: Seq<Delivery>, a: Seq<bool>, b: Seq<bool>)
    requires
        ds.len() <= a.len(),
        ds.len() <= b.len(),
        forall|i: int| 0 <= i < ds.len() ==> a[i] == b[i],
    ensures
        all_sent(s, ds, a) == all_sent(s, ds, b),
        all_answered(s, ds, a) == all_answered(s, ds, b),
    decreases ds.len(),
{
    if ds.len() > 0 {
        lemma_all_sent_prefix(s, ds.drop_last(), a, b);
    }
}

/// Sending messages leaves the same peers connected.
proof fn lemma_all_sent_peers(s: StateView, ds: Seq<Delivery>, taken: Seq<bool>, id: u128)
    ensures
        all_sent(s, ds, taken).peers.contains_key(id) == s.peers.contains_key(id),
    decreases ds.len(),
{
    if ds.len() > 0 {
        lemma_all_sent_peers(s, ds.drop_last(), taken, id);
    }
}

/// The messages under the protocol version, and the peers that they are for.
pub open spec fn addressed(v: Seq<(u128, ServerMessage)>) -> Seq<Delivery> {
    v.map_values(|d: (u128, ServerMessage)| (d.0, versioned(d.1@)))
}

/// Sends messages in order, up to the first that does not reach its peer.
pub fn send_in_turn(
    state: &mut AppState,
    messages: Vec<(u128, ServerMessage)>,
) -> (r: Result<(), AppError>)
    ensures
        exists|taken: Seq<bool>| #[trigger]
            sent_in_turn(
                old(state)@,
                addressed(messages@),
                taken,
                final(state)@,
                error_of(r),
            ),
{
    let ghost all = addressed(messages@);
    let ghost mut taken: Seq<bool> = Seq::empty();
    let mut rest = messages;
    let ghost s = state@;
    while rest.len() > 0
        invariant
            s == old(state)@,
            all == addressed(messages@),
            taken.len() + rest@.len() == all.len(),
            all.skip(taken.len() as int) == addressed(rest@),
            state@ == all_sent(s, all.take(taken.len() as int), taken),
            all_answered(s, all.take(taken.len() as int), taken),
            forall|i: int|
                0 <= i < taken.len() ==> send_error(s, (#[trigger] all[i]).0, taken[i]) is None,
        decreases rest@.len(),
    {
        let ghost n = taken.len() as int;
        assert(addressed(rest@)[0] == all[n]);
        let ghost before = rest@;
        let (id, message) = rest.remove(0);
        assert(addressed(before).skip(1) == addressed(rest@));
        let ghost was = state@;
        let r = send_to_peer(state, id, message);
        proof {
            let t = choose|t: bool|
                answered(was, (id, versioned(message@)), t) && state@ == #[trigger] sent(
                    was,
                    (id, versioned(message@)),
                    t,
                ) && error_of(r) == send_error(was, id, t);
            lemma_all_sent_prefix(s, all.take(n), taken, taken.push(t));
            lemma_all_sent_peers(s, all.take(n), taken, id);
            taken = taken.push(t);
            assert(all.take(n + 1).drop_last() == all.take(n));
            assert(all.skip(n + 1) == all.skip(n).skip(1));
        }
        if r.is_err() {
            assert(sent_in_turn(s, all, taken, state@, error_of(r)));
            return r;
        }
    }
    assert(sent_in_turn(s, all, taken, state@, None));
    Ok(())
}

/// Finds whom a member of a session speaks to in it.
pub fn relay_target(state: &AppState, peer_id: u128, transfer_id: &str) -> (r: Result<
    u128,
    AppError,
>)
    ensures
        match partner(state@, peer_id, transfer_id@) {
            Ok(target) => r == Ok::<u128, AppError>(target),
            Err(e) => r matches Err(x) && x@ == e,
        },
{
    let session = match find_session(&state.sessions, transfer_id) {
        None => {
            return Err(AppError::new(ErrorCode::InvalidSession, "Session not found"));
        },
        Some(s) => s,
    };
    if session.sender_id == Some(peer_id) {
        match session.receiver_id {
            Some(target) => Ok(target),
            None => Err(AppError::new(ErrorCode::PeerNotFound, "Receiver missing")),
        }
    } else if session.receiver_id == Some(peer_id) {
        match session.sender_id {
            Some(target) => Ok(target),
            None => Err(AppError::new(ErrorCode::PeerNotFound, "Sender missing")),
        }
    } else {
        Err(AppError::new(ErrorCode::Unauthorized, "Not session member"))
    }
}

/// One message that is to go out.
fn single(id: u128, payload: ServerMessage) -> (r: Vec<(u128, ServerMessage)>)
    ensures
        addressed(r@) == one(id, payload@),
{
    let mut v: Vec<(u128, ServerMessage)> = Vec::new();
    v.push((id, payload));
    assert(addressed(v@) == one(id, payload@));
    v
}

/// Passes a payload on to the other member of a session.
fn relay(state: &AppState, peer_id: u128, transfer_id: &str, payload: ServerMessage) -> (r: Result<
    Vec<(u128, ServerMessage)>,
    AppError,
>)
    ensures
        match relayed(state@, peer_id, transfer_id@, payload@) {
            Ok(plan) => r matches Ok(v) && addressed(v@) == plan.1,
            Err(e) => r matches Err(x) && x@ == e,
        },
{
    match relay_target(state, peer_id, transfer_id) {
        Ok(target) => Ok(single(target, payload)),
        Err(e) => Err(e),
    }
}

/// Does what a client's message asks for and returns the messages that are then
/// to go out, in order. A session that it creates gets this transfer id and
/// token.
pub fn plan_message(
    state: &mut AppState,
    peer_id: u128,
    msg: &ClientMessage,
    now: u64,
    new_transfer_id: String,
    new_token: String,
) -> (r: Result<Vec<(u128, ServerMessage)>, AppError>)
    ensures
        match planned(old(state)@, peer_id, msg@, now, new_transfer_id@, new_token@) {
            Ok(plan) => r matches Ok(v) && addressed(v@) == plan.1 && final(state)@ == plan.0,
            Err(e) => r matches Err(x) && x@ == e && final(state)@ == old(state)@,
        },
{
    match msg {
        ClientMessage::Register { role } => {
            match state.register_peer(peer_id, *role) {
                Err(e) => Err(e),
                Ok(_) => Ok(
                    single(peer_id, ServerMessage::Registered { peer_id: write_id(peer_id) }),
                ),
            }
        },
        ClientMessage::CreateSession => {
            match state.create_session_with(peer_id, new_transfer_id, new_token, now) {
                Err(e) => Err(e),
                Ok((transfer_id, token)) => Ok(
                    single(peer_id, ServerMessage::SessionCreated { transfer_id, token }),
                ),
            }
        },
        ClientMessage::JoinSession { transfer_id } => {
            match state.request_join_session_at(peer_id, transfer_id.as_str(), now) {
                Err(e) => Err(e),
                Ok(sender_id) => Ok(
                    single(
                        sender_id,
                        ServerMessage::JoinRequest { receiver_id: write_id(peer_id) },
                    ),
                ),
            }
        },
        ClientMessage::ApproveJoin { transfer_id, token, receiver_id } => {
            let receiver = match read_id(receiver_id.as_str()) {
                Err(_) => {
                    return Err(
                        AppError::new(ErrorCode::MalformedMessage, "Invalid receiver UUID"),
                    );
                },
                Ok(id) => id,
            };
            match state.approve_join_session_at(
                peer_id,
                transfer_id.as_str(),
                token.as_str(),
                receiver,
                now,
            ) {
                Err(e) => Err(e),
                Ok(_) => {
                    let mut v = single(
                        receiver,
                        ServerMessage::SessionJoined { transfer_id: transfer_id.clone() },
                    );
                    let ghost first = v@;
                    let mut w = single(
                        peer_id,
                        ServerMessage::PeerJoined {
                            peer_id: receiver_id.clone(),
                            role: Role::Receiver,
                        },
                    );
                    let ghost second = w@;
                    v.append(&mut w);
                    assert(addressed(v@) == addressed(first) + addressed(second));
                    Ok(v)
                },
            }
        },
        ClientMessage::Offer { transfer_id, sdp } => relay(
            state,
            peer_id,
            transfer_id.as_str(),
            ServerMessage::RelayOffer { sdp: sdp.clone() },
        ),
        ClientMessage::Answer { transfer_id, sdp } => relay(
            state,
            peer_id,
            transfer_id.as_str(),
            ServerMessage::RelayAnswer { sdp: sdp.clone() },
        ),
        ClientMessage::IceCandidate { transfer_id, candidate, sdp_mid, sdp_mline_index } => {
            if is_blank(candidate.as_str()) {
                return Err(AppError::new(ErrorCode::MalformedMessage, "Empty ICE candidate"));
            }
            relay(
                state,
                peer_id,
                transfer_id.as_str(),
                ServerMessage::RelayIceCandidate {
                    candidate: candidate.clone(),
                    sdp_mid: sdp_mid.clone(),
                    sdp_mline_index: *sdp_mline_index,
                },
            )
        },
        ClientMessage::Heartbeat => {
            note_sign_of_life(state, peer_id, now);
            Ok(single(peer_id, ServerMessage::HeartbeatAck))
        },
        ClientMessage::Disconnect => {
            let mut news = state.remove_peer(peer_id);
            let ghost all = news@;
            assert(deliveries(all).len() == all.len());
            assert(forall|i: int|
                0 <= i < all.len() ==> deliveries(all)[i] == (#[trigger] all[i].0, all[i].1@));
            match news.pop() {
                Some((id, message)) => {
                    let v = single(id, message.payload);
                    assert(addressed(v@) == removal_news(old(state)@, peer_id));
                    Ok(v)
                },
                None => {
                    let v: Vec<(u128, ServerMessage)> = Vec::new();
                    assert(addressed(v@) == removal_news(old(state)@, peer_id));
                    Ok(v)
                },
            }
        },
    }
}

/// Notes a sign of life of a peer.
pub fn note_sign_of_life(state: &mut AppState, peer_id: u128, now: u64)
    ensures
        final(state)@ == heard_of(old(state)@, peer_id, now),
{
    if let Some(mut peer) = find_peer(&state.peers, peer_id) {
        peer.last_heartbeat = now;
        update_peer(&mut state.peers, peer_id, peer);
    }
}

/// Whether a session that a message creates gets a transfer id and a token drawn
/// at random.
pub open spec fn codes_are_drawn(
    message: ClientMessageView,
    new_transfer_id: Seq<char>,
    new_token: Seq<char>,
) -> bool {
    message is CreateSession ==> {
        &&& is_code(new_transfer_id, 10, transfer_id_alphabet())
        &&& is_drawn(new_transfer_id, 10, transfer_id_alphabet())
        &&& is_code(new_token, 32, token_alphabet())
        &&& is_drawn(new_token, 32, token_alphabet())
    }
}

/// What is logged of a client's message: nothing where it is refused.
pub open spec fn logged(
    s: StateView,
    id: u128,
    message: ClientMessageView,
    now: u64,
    new_transfer_id: Seq<char>,
    new_token: Seq<char>,
) -> Option<Seq<char>> {
    match planned(s, id, message, now, new_transfer_id, new_token) {
        Ok(plan) => log_line(id, message, target_of(plan.1), new_transfer_id, new_token),
        Err(_) => None,
    }
}

/// Deals with a client's message, and, where it is not refused, returns also whom
/// the first of the messages that go out is for.
fn carry_out(
    state: &mut AppState,
    peer_id: u128,
    msg: &ClientMessage,
    now: u64,
    new_transfer_id: String,
    new_token: String,
) -> (r: (Result<(), AppError>, Option<u128>))
    ensures
        handled(
            old(state)@,
            peer_id,
            msg@,
            now,
            new_transfer_id@,
            new_token@,
            final(state)@,
            error_of(r.0),
        ),
        r.1 == (match planned(
            old(state)@,
            peer_id,
            msg@,
            now,
            new_transfer_id@,
            new_token@,
        ) {
            Ok(plan) => Some(target_of(plan.1)),
            Err(_) => None,
        }),
{
    if let ClientMessage::Disconnect = msg {
        let news = state.remove_peer(peer_id);
        let target: u128 = if news.len() > 0 {
            assert(deliveries(news@)[0].0 == news@[0].0);
            news[0].0
        } else {
            0
        };
        notify(state, news);
        return (Ok(()), Some(target));
    }
    match plan_message(state, peer_id, msg, now, new_transfer_id, new_token) {
        Err(e) => (Err(e), None),
        Ok(messages) => {
            let target: u128 = if messages.len() > 0 {
                assert(addressed(messages@)[0].0 == messages@[0].0);
                messages[0].0
            } else {
                0
            };
            (send_in_turn(state, messages), Some(target))
        },
    }
}

/// Deals with a client's message. A session that it creates gets this transfer
/// id and token.
pub fn handle_message_with(
    state: &mut AppState,
    peer_id: u128,
    msg: ClientMessage,
    now: u64,
    new_transfer_id: String,
    new_token: String,
) -> (r: Result<(), AppError>)
    ensures
        handled(
            old(state)@,
            peer_id,
            msg@,
            now,
            new_transfer_id@,
            new_token@,
            final(state)@,
            error_of(r),
        ),
{
    carry_out(state, peer_id, &msg, now, new_transfer_id, new_token).0
}

/// Deals with a client's message at the present time, and returns also what is
/// logged of it. A session that it creates gets a transfer id and a token drawn
/// at random.
pub fn handle_message_and_log(state: &mut AppState, peer_id: u128, msg: ClientMessage) -> (r: (
    Result<(), AppError>,
    Option<String>,
))
    ensures
        exists|now: u64, new_transfer_id: Seq<char>, new_token: Seq<char>|
            {
                &&& is_reading(old(state)@.clock, now)
                &&& codes_are_drawn(msg@, new_transfer_id, new_token)
                &&& #[trigger] handled(
                    old(state)@,
                    peer_id,
                    msg@,
                    now,
                    new_transfer_id,
                    new_token,
                    final(state)@,
                    error_of(r.0),
                )
                &&& text_of(r.1) == logged(
                    old(state)@,
                    peer_id,
                    msg@,
                    now,
                    new_transfer_id,
                    new_token,
                )
            },
{
    let now = state.clock.now();
    assert(is_reading(state@.clock, now));
    let (new_transfer_id, new_token) = match msg {
        ClientMessage::CreateSession => (generate_transfer_id(), generate_secure_token()),
        _ => (String::new(), String::new()),
    };
    proof {
        if msg@ is CreateSession {
            tokens_are_plain(new_token@);
        }
    }
    let (result, target) = carry_out(
        state,
        peer_id,
        &msg,
        now,
        new_transfer_id.clone(),
        new_token.clone(),
    );
    let log = match target {
        Some(t) => message_log(
            peer_id,
            &msg,
            t,
            new_transfer_id.as_str(),
            new_token.as_str(),
        ),
        None => None,
    };
    (result, log)
}

/// Deals with a client's message at the present time. A session that it creates
/// gets a transfer id and a token drawn at random.
pub fn handle_message(state: &mut AppState, peer_id: u128, msg: ClientMessage) -> (r: Result<
    (),
    AppError,
>)
    ensures
        exists|now: u64, new_transfer_id: Seq<char>, new_token: Seq<char>|
            {
                &&& is_reading(old(state)@.clock, now)
                &&& codes_are_drawn(msg@, new_transfer_id, new_token)
                &&& #[trigger] handled(
                    old(state)@,
                    peer_id,
                    msg@,
                    now,
                    new_transfer_id,
                    new_token,
                    final(state)@,
                    error_of(r),
                )
            },
{
    handle_message_and_log(state, peer_id, msg).0
}

} // verus!
