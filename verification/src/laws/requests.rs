//! Laws on what each request of a client does, and on which states it is refused.
use tokio::sync::mpsc::UnboundedSender;
use vstd::prelude::*;

use crate::errors::{AppErrorView, ErrorCode};
use crate::ids::{id_number, id_number_fits, id_text};
use crate::models::{
    ClientMessageView, MessageView, Role, ServerMessage, ServerMessageView, VersionedServerMessage,
};
use crate::rules::{
    approve_error, approved, asked_to_join, connect_error, connected, create_error, created,
    join_error, register_error, registered, removal_news, removed, Delivery, PeerView, SessionView,
    StateView,
};
use crate::signaling::{
    addressed, all_answered, all_sent, answered, handled, heard_of, partner, planned, send_error,
    sent, sent_in_turn, Plan,
};
use crate::state::deliveries;
use crate::tables::has_answered;
use crate::text::{is_blank_text, is_white_space};

verus! {

/// An error with this code and this message.
pub open spec fn error_with(code: ErrorCode, message: Seq<char>) -> AppErrorView {
    AppErrorView { error_type: "error"@, code, message }
}

/// One message for one peer, under version 1 of the protocol.
pub open spec fn for_one(id: u128, payload: ServerMessageView) -> Seq<Delivery> {
    seq![(id, MessageView { version: "1"@, payload })]
}

/// Whether a state is another one but for the entry of one peer.
pub open spec fn differs_in_peer(s: StateView, after: StateView, id: u128, p: PeerView) -> bool {
    &&& after.peers == s.peers.insert(id, p)
    &&& after.sessions == s.sessions
    &&& after.config == s.config
    &&& after.clock == s.clock
    &&& after.sent == s.sent
}

// Connecting.

/// A connection is refused exactly where the server has as many as it may have;
/// one that is taken in starts without a role, a session and a bad message, may
/// send thirty messages, and touches nothing else.
pub proof fn connecting_is_up_to_the_cap(
    s: StateView,
    id: u128,
    tx: UnboundedSender<VersionedServerMessage>,
    now: u64,
)
    ensures
        connect_error(s) is Some <==> s.peers.len() >= s.config.max_connections,
        connect_error(s) is Some ==> connect_error(s) == Some(
            error_with(ErrorCode::RateLimitExceeded, "Server connection cap reached"@),
        ),
        differs_in_peer(s, connected(s, id, tx, now), id, connected(s, id, tx, now).peers[id]),
        ({
            let p = connected(s, id, tx, now).peers[id];
            &&& p.id == id
            &&& p.tx == tx
            &&& p.role is None
            &&& p.session_id is None
            &&& p.last_heartbeat == now
            &&& p.rate_limit_last_check == now
            &&& p.rate_limit_tokens == 30
            &&& p.rate_limit_spent.len() == 0
            &&& p.bad_message_count == 0
        }),
{
}

// Registering.

/// A peer can register if and only if it is connected and has no role, whatever
/// else is known of it, and gets the role that it asks for and nothing else.
pub proof fn registering_needs_a_peer_without_a_role(s: StateView, id: u128, role: Role)
    ensures
        register_error(s, id) is None <==> s.peers.contains_key(id) && s.peers[id].role is None,
        !s.peers.contains_key(id) ==> register_error(s, id) == Some(
            error_with(ErrorCode::NotRegistered, "Peer not found"@),
        ),
        s.peers.contains_key(id) && s.peers[id].role is Some ==> register_error(s, id) == Some(
            error_with(ErrorCode::AlreadyRegistered, "Peer already registered"@),
        ),
        differs_in_peer(
            s,
            registered(s, id, role),
            id,
            PeerView { role: Some(role), ..s.peers[id] },
        ),
{
}

/// A registration that is not refused is confirmed to the peer alone.
pub proof fn registration_is_confirmed(
    s: StateView,
    id: u128,
    role: Role,
    now: u64,
    t: Seq<char>,
    k: Seq<char>,
)
    ensures
        match planned(s, id, ClientMessageView::Register { role }, now, t, k) {
            Ok(plan) => {
                &&& s.peers.contains_key(id)
                &&& s.peers[id].role is None
                &&& differs_in_peer(
                    s,
                    plan.0,
                    id,
                    PeerView { role: Some(role), ..s.peers[id] },
                )
                &&& plan.1 == for_one(id, ServerMessageView::Registered { peer_id: id_text(id) })
            },
            Err(e) => {
                ||| !s.peers.contains_key(id) && e == error_with(
                    ErrorCode::NotRegistered,
                    "Peer not found"@,
                )
                ||| s.peers.contains_key(id) && s.peers[id].role is Some && e == error_with(
                    ErrorCode::AlreadyRegistered,
                    "Peer already registered"@,
                )
            },
        },
{
}

// Creating a session.

/// A session can be created by every connected sender that is in none, and by
/// nobody else.
pub proof fn creating_needs_a_free_sender(s: StateView, id: u128)
    ensures
        create_error(s, id) is None <==> s.peers.contains_key(id) && s.peers[id].role == Some(
            Role::Sender,
        ) && s.peers[id].session_id is None,
        !s.peers.contains_key(id) ==> create_error(s, id) == Some(
            error_with(ErrorCode::NotRegistered, "Sender not found"@),
        ),
        s.peers.contains_key(id) && s.peers[id].role != Some(Role::Sender) ==> create_error(s, id)
            == Some(error_with(ErrorCode::InvalidRole, "Only senders can create sessions"@)),
        s.peers.contains_key(id) && s.peers[id].role == Some(Role::Sender)
            && s.peers[id].session_id is Some ==> create_error(s, id) == Some(
            error_with(ErrorCode::AlreadyRegistered, "Sender already has active session"@),
        ),
{
}

/// A new session has the sender, the transfer id and the token that it was created
/// with and no receiver, and expires when the timeout has passed; the sender is in
/// it, and nothing else changes.
pub proof fn new_session_is_as_created(
    s: StateView,
    id: u128,
    t: Seq<char>,
    k: Seq<char>,
    now: u64,
)
    requires
        s.peers.contains_key(id),
    ensures
        ({
            let after = created(s, id, t, k, now);
            let session = after.sessions[t];
            &&& after.peers == s.peers.insert(
                id,
                PeerView { session_id: Some(t), ..s.peers[id] },
            )
            &&& after.sessions == s.sessions.insert(t, session)
            &&& after.config == s.config
            &&& after.clock == s.clock
            &&& after.sent == s.sent
            &&& session.transfer_id == t
            &&& session.token == k
            &&& session.sender_id == Some(id)
            &&& session.receiver_id is None
            &&& session.created_at == now
            &&& session.expires_at == now + s.config.session_timeout_minutes * 60_000_000_000
        }),
{
    let minutes = s.config.session_timeout_minutes;
    assert(minutes * 60 * 1_000_000_000 == minutes * 60_000_000_000) by (nonlinear_arith);
    assert(0 <= minutes * 60_000_000_000 <= u64::MAX * 60_000_000_000) by (nonlinear_arith)
        requires
            0 <= minutes <= u64::MAX,
    ;
}

/// A session that is created is told, with its token, to the client that creates
/// it and to nobody else; a client that may not create one is refused.
pub proof fn creation_is_confirmed(
    s: StateView,
    id: u128,
    now: u64,
    t: Seq<char>,
    k: Seq<char>,
)
    ensures
        match planned(s, id, ClientMessageView::CreateSession, now, t, k) {
            Ok(plan) => {
                &&& create_error(s, id) is None
                &&& plan.0 == created(s, id, t, k, now)
                &&& plan.1 == for_one(
                    id,
                    ServerMessageView::SessionCreated { transfer_id: t, token: k },
                )
            },
            Err(e) => create_error(s, id) == Some(e),
        },
{
}

// Joining.

/// Whether a peer is a connected receiver that is in no session.
pub open spec fn is_free_receiver(s: StateView, id: u128) -> bool {
    s.peers.contains_key(id) && s.peers[id].role == Some(Role::Receiver)
        && s.peers[id].session_id is None
}

/// A client may ask to join a session if and only if it is a connected receiver
/// that is in no session, and the session is open, has not expired, has no
/// receiver yet and has a sender. Each other case has its refusal.
pub proof fn joining_needs_a_free_receiver_and_an_open_session(
    s: StateView,
    id: u128,
    t: Seq<char>,
    now: u64,
)
    ensures
        join_error(s, id, t, now) is None <==> is_free_receiver(s, id) && s.sessions.contains_key(t)
            && now <= s.sessions[t].expires_at && s.sessions[t].receiver_id is None
            && s.sessions[t].sender_id is Some,
        !s.peers.contains_key(id) ==> join_error(s, id, t, now) == Some(
            error_with(ErrorCode::NotRegistered, "Receiver not found"@),
        ),
        s.peers.contains_key(id) && s.peers[id].role != Some(Role::Receiver) ==> join_error(
            s,
            id,
            t,
            now,
        ) == Some(error_with(ErrorCode::InvalidRole, "Only receivers can join sessions"@)),
        is_free_receiver(s, id) && !s.sessions.contains_key(t) ==> join_error(s, id, t, now)
            == Some(error_with(ErrorCode::InvalidSession, "Session not found"@)),
        is_free_receiver(s, id) && s.sessions.contains_key(t) && now > s.sessions[t].expires_at
            ==> join_error(s, id, t, now) == Some(
            error_with(ErrorCode::SessionExpired, "Session expired"@),
        ),
        is_free_receiver(s, id) && s.sessions.contains_key(t) && now <= s.sessions[t].expires_at
            && s.sessions[t].receiver_id is Some ==> join_error(s, id, t, now) == Some(
            error_with(ErrorCode::SessionFull, "Session already occupied"@),
        ),
        is_free_receiver(s, id) && s.sessions.contains_key(t) && now <= s.sessions[t].expires_at
            && s.sessions[t].receiver_id is None && s.sessions[t].sender_id is None ==> join_error(
            s,
            id,
            t,
            now,
        ) == Some(error_with(ErrorCode::PeerDisconnected, "Sender disconnected"@)),
{
}

/// A receiver that is in a session cannot ask to join any, whichever it asks for:
/// it is told that it is in one, and nothing changes.
pub proof fn receiver_in_a_session_stays_in_it(
    s: StateView,
    id: u128,
    t: Seq<char>,
    now: u64,
    new_transfer_id: Seq<char>,
    new_token: Seq<char>,
    after: StateView,
    error: Option<AppErrorView>,
)
    requires
        s.peers.contains_key(id),
        s.peers[id].role == Some(Role::Receiver),
        s.peers[id].session_id is Some,
    ensures
        join_error(s, id, t, now) == Some(
            error_with(ErrorCode::AlreadyRegistered, "Receiver already in session"@),
        ),
        handled(
            s,
            id,
            ClientMessageView::JoinSession { transfer_id: t },
            now,
            new_transfer_id,
            new_token,
            after,
            error,
        ) ==> after == s && error == Some(
            error_with(ErrorCode::AlreadyRegistered, "Receiver already in session"@),
        ),
{
}

/// A receiver that asks to join a session is in it, no session changes, and the
/// session's sender, and nobody else, is told who asks.
pub proof fn request_to_join_is_told_to_the_sender(
    s: StateView,
    id: u128,
    t: Seq<char>,
    now: u64,
    new_transfer_id: Seq<char>,
    new_token: Seq<char>,
)
    ensures
        s.peers.contains_key(id) ==> differs_in_peer(
            s,
            asked_to_join(s, id, t),
            id,
            PeerView { session_id: Some(t), ..s.peers[id] },
        ),
        match planned(
            s,
            id,
            ClientMessageView::JoinSession { transfer_id: t },
            now,
            new_transfer_id,
            new_token,
        ) {
            Ok(plan) => {
                &&& join_error(s, id, t, now) is None
                &&& differs_in_peer(
                    s,
                    plan.0,
                    id,
                    PeerView { session_id: Some(t), ..s.peers[id] },
                )
                &&& s.sessions[t].sender_id matches Some(sender)
                &&& plan.1 == for_one(
                    sender,
                    ServerMessageView::JoinRequest { receiver_id: id_text(id) },
                )
            },
            Err(e) => join_error(s, id, t, now) == Some(e),
        },
{
}

// Approving.

/// Whether a peer is a connected sender.
pub open spec fn is_sender(s: StateView, id: u128) -> bool {
    s.peers.contains_key(id) && s.peers[id].role == Some(Role::Sender)
}

/// Whether a peer is a connected sender, the session is its own, and the token is
/// the session's.
pub open spec fn owns_session(s: StateView, id: u128, t: Seq<char>, k: Seq<char>) -> bool {
    is_sender(s, id) && s.sessions.contains_key(t) && s.sessions[t].token == k
        && s.sessions[t].sender_id == Some(id)
}

/// A client may approve a receiver if and only if it is a connected sender, the
/// session is its own and has not expired, it gives the session's token, and the
/// receiver is connected and a receiver. Each other case has its refusal.
pub proof fn approving_needs_the_owner_and_the_token(
    s: StateView,
    id: u128,
    t: Seq<char>,
    k: Seq<char>,
    receiver: u128,
    now: u64,
)
    ensures
        approve_error(s, id, t, k, receiver, now) is None <==> owns_session(s, id, t, k) && now
            <= s.sessions[t].expires_at && s.peers.contains_key(receiver)
            && s.peers[receiver].role == Some(Role::Receiver),
        !s.peers.contains_key(id) ==> approve_error(s, id, t, k, receiver, now) == Some(
            error_with(ErrorCode::NotRegistered, "Sender not found"@),
        ),
        s.peers.contains_key(id) && s.peers[id].role != Some(Role::Sender) ==> approve_error(
            s,
            id,
            t,
            k,
            receiver,
            now,
        ) == Some(error_with(ErrorCode::InvalidRole, "Only senders can approve joins"@)),
        is_sender(s, id) && !s.sessions.contains_key(t) ==> approve_error(
            s,
            id,
            t,
            k,
            receiver,
            now,
        ) == Some(error_with(ErrorCode::InvalidSession, "Session not found"@)),
        is_sender(s, id) && s.sessions.contains_key(t) && s.sessions[t].token != k
            ==> approve_error(s, id, t, k, receiver, now) == Some(
            error_with(ErrorCode::Unauthorized, "Invalid token"@),
        ),
        is_sender(s, id) && s.sessions.contains_key(t) && s.sessions[t].token == k
            && s.sessions[t].sender_id != Some(id) ==> approve_error(s, id, t, k, receiver, now)
            == Some(error_with(ErrorCode::Unauthorized, "Not session owner"@)),
        owns_session(s, id, t, k) && now > s.sessions[t].expires_at ==> approve_error(
            s,
            id,
            t,
            k,
            receiver,
            now,
        ) == Some(error_with(ErrorCode::SessionExpired, "Session expired"@)),
        owns_session(s, id, t, k) && now <= s.sessions[t].expires_at && !s.peers.contains_key(
            receiver,
        ) ==> approve_error(s, id, t, k, receiver, now) == Some(
            error_with(ErrorCode::PeerDisconnected, "Receiver disconnected"@),
        ),
        owns_session(s, id, t, k) && now <= s.sessions[t].expires_at && s.peers.contains_key(
            receiver,
        ) && s.peers[receiver].role != Some(Role::Receiver) ==> approve_error(
            s,
            id,
            t,
            k,
            receiver,
            now,
        ) == Some(error_with(ErrorCode::InvalidRole, "Target not receiver"@)),
{
}

/// An approval gives the session the receiver and changes nothing else; the
/// receiver is told that it is in, then the sender, and nobody else. A receiver's
/// id that is none is refused, whatever else the message holds.
pub proof fn approval_is_told_to_both(
    s: StateView,
    id: u128,
    t: Seq<char>,
    k: Seq<char>,
    receiver_id: Seq<char>,
    now: u64,
    new_transfer_id: Seq<char>,
    new_token: Seq<char>,
)
    ensures
        ({
            let result = planned(
                s,
                id,
                ClientMessageView::ApproveJoin { transfer_id: t, token: k, receiver_id },
                now,
                new_transfer_id,
                new_token,
            );
            match id_number(receiver_id) {
                None => result == Err::<Plan, AppErrorView>(
                    error_with(ErrorCode::MalformedMessage, "Invalid receiver UUID"@),
                ),
                Some(n) => {
                    &&& n <= u128::MAX
                    &&& match result {
                        Ok(plan) => {
                            &&& approve_error(s, id, t, k, n as u128, now) is None
                            &&& plan.0.peers == s.peers
                            &&& plan.0.config == s.config
                            &&& plan.0.clock == s.clock
                            &&& plan.0.sent == s.sent
                            &&& plan.0.sessions == s.sessions.insert(
                                t,
                                SessionView { receiver_id: Some(n as u128), ..s.sessions[t] },
                            )
                            &&& plan.0 == approved(s, t, n as u128)
                            &&& plan.1 == for_one(
                                n as u128,
                                ServerMessageView::SessionJoined { transfer_id: t },
                            ) + for_one(
                                id,
                                ServerMessageView::PeerJoined {
                                    peer_id: receiver_id,
                                    role: Role::Receiver,
                                },
                            )
                        },
                        Err(e) => approve_error(s, id, t, k, n as u128, now) == Some(e),
                    }
                },
            }
        }),
{
    id_number_fits(receiver_id);
}

// Relaying.

/// Whom a member of a session speaks to: the sender to the receiver, the receiver
/// to the sender, and nobody else to anybody. The result goes by who sends and who
/// receives in the session and by nothing else.
pub proof fn members_speak_to_each_other(s: StateView, id: u128, t: Seq<char>)
    ensures
        !s.sessions.contains_key(t) ==> partner(s, id, t) == Err::<u128, AppErrorView>(
            error_with(ErrorCode::InvalidSession, "Session not found"@),
        ),
        s.sessions.contains_key(t) && s.sessions[t].sender_id == Some(id) ==> partner(s, id, t) == (
        match s.sessions[t].receiver_id {
            Some(r) => Ok::<u128, AppErrorView>(r),
            None => Err(error_with(ErrorCode::PeerNotFound, "Receiver missing"@)),
        }),
        s.sessions.contains_key(t) && s.sessions[t].sender_id != Some(id)
            && s.sessions[t].receiver_id == Some(id) ==> partner(s, id, t) == (
        match s.sessions[t].sender_id {
            Some(r) => Ok::<u128, AppErrorView>(r),
            None => Err(error_with(ErrorCode::PeerNotFound, "Sender missing"@)),
        }),
        s.sessions.contains_key(t) && s.sessions[t].sender_id != Some(id)
            && s.sessions[t].receiver_id != Some(id) ==> partner(s, id, t) == Err::<
            u128,
            AppErrorView,
        >(error_with(ErrorCode::Unauthorized, "Not session member"@)),
{
}

/// Whether a payload goes to the other member of a session exactly where there is
/// one, unchanged, and nothing else changes.
pub open spec fn goes_to_the_other_member(
    s: StateView,
    id: u128,
    t: Seq<char>,
    payload: ServerMessageView,
    result: Result<Plan, AppErrorView>,
) -> bool {
    &&& forall|other: u128| #[trigger]
        is_other_member(s, id, t, other) ==> result == Ok::<Plan, AppErrorView>(
            (s, for_one(other, payload)),
        )
    &&& (result is Ok ==> exists|other: u128| #[trigger] is_other_member(s, id, t, other))
    &&& result matches Err(e) ==> partner(s, id, t) == Err::<u128, AppErrorView>(e)
}

/// Whether one peer sends and the other receives in a session.
pub open spec fn is_other_member(s: StateView, id: u128, t: Seq<char>, other: u128) -> bool {
    &&& s.sessions.contains_key(t)
    &&& {
        ||| s.sessions[t].sender_id == Some(id) && s.sessions[t].receiver_id == Some(other)
        ||| s.sessions[t].sender_id == Some(other) && s.sessions[t].receiver_id == Some(id)
    }
}

/// A session description that a member of a session sends goes to the other
/// member as it is, whatever it says; it is refused only where there is no session,
/// no membership or no other member.
pub proof fn description_goes_to_the_other_member(
    s: StateView,
    id: u128,
    t: Seq<char>,
    sdp: Seq<char>,
    now: u64,
    new_transfer_id: Seq<char>,
    new_token: Seq<char>,
)
    ensures
        goes_to_the_other_member(
            s,
            id,
            t,
            ServerMessageView::RelayOffer { sdp },
            planned(
                s,
                id,
                ClientMessageView::Offer { transfer_id: t, sdp },
                now,
                new_transfer_id,
                new_token,
            ),
        ),
        goes_to_the_other_member(
            s,
            id,
            t,
            ServerMessageView::RelayAnswer { sdp },
            planned(
                s,
                id,
                ClientMessageView::Answer { transfer_id: t, sdp },
                now,
                new_transfer_id,
                new_token,
            ),
        ),
{
    lemma_partner(s, id, t);
}

proof fn lemma_partner(s: StateView, id: u128, t: Seq<char>)
    ensures
        forall|other: u128| #[trigger]
            is_other_member(s, id, t, other) ==> partner(s, id, t) == Ok::<u128, AppErrorView>(
                other,
            ),
        partner(s, id, t) matches Ok(other) ==> is_other_member(s, id, t, other),
{
}

/// A candidate that is not blank goes to the other member of the session as it is,
/// whatever stands beside it; a candidate is refused as empty if and only if it is
/// blank.
pub proof fn candidate_goes_to_the_other_member(
    s: StateView,
    id: u128,
    t: Seq<char>,
    candidate: Seq<char>,
    sdp_mid: Option<Seq<char>>,
    sdp_mline_index: Option<u16>,
    now: u64,
    new_transfer_id: Seq<char>,
    new_token: Seq<char>,
)
    ensures
        ({
            let result = planned(
                s,
                id,
                ClientMessageView::IceCandidate {
                    transfer_id: t,
                    candidate,
                    sdp_mid,
                    sdp_mline_index,
                },
                now,
                new_transfer_id,
                new_token,
            );
            let is_blank = forall|i: int|
                0 <= i < candidate.len() ==> is_white_space(#[trigger] candidate[i]);
            &&& is_blank <==> result == Err::<Plan, AppErrorView>(
                error_with(ErrorCode::MalformedMessage, "Empty ICE candidate"@),
            )
            &&& !is_blank ==> goes_to_the_other_member(
                s,
                id,
                t,
                ServerMessageView::RelayIceCandidate { candidate, sdp_mid, sdp_mline_index },
                result,
            )
        }),
{
    lemma_partner(s, id, t);
    assert(is_blank_text(candidate) <==> forall|i: int|
        0 <= i < candidate.len() ==> is_white_space(#[trigger] candidate[i]));
}

// Heartbeats.

/// A heartbeat of any connected peer is noted at its time and acknowledged to the
/// peer, and changes nothing else.
pub proof fn heartbeat_is_noted(
    s: StateView,
    id: u128,
    now: u64,
    new_transfer_id: Seq<char>,
    new_token: Seq<char>,
    after: StateView,
    error: Option<AppErrorView>,
)
    requires
        handled(
            s,
            id,
            ClientMessageView::Heartbeat,
            now,
            new_transfer_id,
            new_token,
            after,
            error,
        ),
    ensures
        s.peers.contains_key(id) ==> after.peers == s.peers.insert(
            id,
            PeerView { last_heartbeat: now, ..s.peers[id] },
        ),
        !s.peers.contains_key(id) ==> after.peers == s.peers,
        after.sessions == s.sessions,
        error is None ==> s.peers.contains_key(id) && after.sent == s.sent + for_one(
            id,
            ServerMessageView::HeartbeatAck,
        ),
        error is Some ==> after.sent == s.sent && error == Some(
            error_with(
                ErrorCode::PeerDisconnected,
                if s.peers.contains_key(id) {
                    "Peer connection closed"@
                } else {
                    "Peer not found"@
                },
            ),
        ),
{
    let m = ClientMessageView::Heartbeat;
    let plan = planned(s, id, m, now, new_transfer_id, new_token)->Ok_0;
    assert(plan.1 == for_one(id, ServerMessageView::HeartbeatAck));
    let n = sending_stops_at_the_first_failure(
        s,
        id,
        m,
        now,
        new_transfer_id,
        new_token,
        after,
        error,
    );
    assert(plan.1.take(1) == plan.1);
    assert(s.sent + plan.1.take(0) == s.sent);
}

/// A sign of life sets the time at which a peer was last heard of, of every
/// connected peer alike, and nothing else.
pub proof fn sign_of_life_sets_the_time(s: StateView, id: u128, now: u64)
    ensures
        s.peers.contains_key(id) ==> differs_in_peer(
            s,
            heard_of(s, id, now),
            id,
            PeerView { last_heartbeat: now, ..s.peers[id] },
        ),
        !s.peers.contains_key(id) ==> heard_of(s, id, now) == s,
{
}

// Sending.

/// A message goes out if and only if its peer is connected and the peer's channel
/// takes it, and is an error in the two other cases.
pub proof fn message_goes_out_where_it_is_taken(s: StateView, d: Delivery, taken: bool)
    ensures
        s.peers.contains_key(d.0) && taken ==> sent(s, d, taken) == (StateView {
            sent: s.sent.push(d),
            ..s
        }) && send_error(s, d.0, taken) is None,
        s.peers.contains_key(d.0) && !taken ==> sent(s, d, taken) == s && send_error(s, d.0, taken)
            == Some(error_with(ErrorCode::PeerDisconnected, "Peer connection closed"@)),
        !s.peers.contains_key(d.0) ==> sent(s, d, taken) == s && send_error(s, d.0, taken) == Some(
            error_with(ErrorCode::PeerDisconnected, "Peer not found"@),
        ),
{
}

proof fn lemma_first_sent(s: StateView, ds: Seq<Delivery>, taken: Seq<bool>, n: int)
    requires
        0 <= n <= ds.len(),
        n <= taken.len(),
        forall|i: int| 0 <= i < n ==> send_error(s, (#[trigger] ds[i]).0, taken[i]) is None,
    ensures
        all_sent(s, ds.take(n), taken) == (StateView { sent: s.sent + ds.take(n), ..s }),
    decreases n,
{
    if n > 0 {
        lemma_first_sent(s, ds, taken, n - 1);
        assert(ds.take(n).drop_last() == ds.take(n - 1));
        assert(send_error(s, ds[n - 1].0, taken[n - 1]) is None);
        assert(s.sent + ds.take(n) == (s.sent + ds.take(n - 1)).push(ds[n - 1]));
    } else {
        assert(s.sent + ds.take(0) == s.sent);
    }
}

/// Each of several messages that go out was answered by its peer's channel, when
/// those before it had gone out.
proof fn lemma_answered_at(s: StateView, ds: Seq<Delivery>, taken: Seq<bool>, i: int)
    requires
        all_answered(s, ds, taken),
        0 <= i < ds.len(),
    ensures
        answered(all_sent(s, ds.take(i), taken), ds[i], taken[i]),
    decreases ds.len(),
{
    if i < ds.len() - 1 {
        lemma_answered_at(s, ds.drop_last(), taken, i);
        assert(ds.drop_last().take(i) == ds.take(i));
    } else {
        assert(ds.take(i) == ds.drop_last());
    }
}

/// Sending messages in two goes is sending them in one; sending one is what it is
/// for that one, and sending none is nothing.
pub proof fn sending_goes_by_turns(
    s: StateView,
    first: Seq<Delivery>,
    second: Seq<Delivery>,
    first_taken: Seq<bool>,
    second_taken: Seq<bool>,
    d: Delivery,
    taken: bool,
)
    requires
        first.len() == first_taken.len(),
        second.len() == second_taken.len(),
    ensures
        all_sent(s, first + second, first_taken + second_taken) == all_sent(
            all_sent(s, first, first_taken),
            second,
            second_taken,
        ),
        all_answered(s, first + second, first_taken + second_taken) <==> all_answered(
            s,
            first,
            first_taken,
        ) && all_answered(all_sent(s, first, first_taken), second, second_taken),
        all_sent(s, seq![d], seq![taken]) == sent(s, d, taken),
        all_answered(s, seq![d], seq![taken]) <==> answered(s, d, taken),
        all_sent(s, Seq::empty(), Seq::empty()) == s,
    decreases second.len(),
{
    let none = Seq::<Delivery>::empty();
    assert(seq![d].drop_last() == none);
    assert(all_sent(s, none, seq![taken]) == s);
    assert(all_answered(s, none, seq![taken]));
    let all = first + second;
    let both = first_taken + second_taken;
    if second.len() > 0 {
        let front = second.drop_last();
        let front_taken = second_taken.drop_last();
        sending_goes_by_turns(s, first, front, first_taken, front_taken, d, taken);
        assert(all.drop_last() == first + front);
        assert(all.last() == second.last());
        lemma_answers_that_count(s, first + front, both, first_taken + front_taken);
        lemma_answers_that_count(
            all_sent(s, first, first_taken),
            front,
            second_taken,
            front_taken,
        );
    } else {
        assert(all == first);
        assert(both == first_taken);
    }
}

proof fn lemma_answers_that_count(s: StateView, ds: Seq<Delivery>, a: Seq<bool>, b: Seq<bool>)
    requires
        ds.len() <= a.len(),
        ds.len() <= b.len(),
        forall|i: int| 0 <= i < ds.len() ==> a[i] == b[i],
    ensures
        all_sent(s, ds, a) == all_sent(s, ds, b),
        all_answered(s, ds, a) == all_answered(s, ds, b),
    decreases ds.len(),
{
    if ds.len() > 0 {
        lemma_answers_that_count(s, ds.drop_last(), a, b);
    }
}

/// What is listed for sending is listed one for one: each message for its peer, and
/// under version 1 where it is listed without a version.
pub proof fn messages_are_listed_one_for_one(
    v: Seq<(u128, VersionedServerMessage)>,
    w: Seq<(u128, ServerMessage)>,
    i: int,
)
    ensures
        deliveries(v).len() == v.len(),
        0 <= i < v.len() ==> deliveries(v)[i] == (
            v[i].0,
            MessageView { version: v[i].1.version@, payload: v[i].1.payload@ },
        ),
        addressed(w).len() == w.len(),
        0 <= i < w.len() ==> addressed(w)[i] == (
            w[i].0,
            MessageView { version: "1"@, payload: w[i].1@ },
        ),
{
}

/// The messages of a plan other than a farewell's go out in order, as far as they
/// reach their peers: the first that does not is the error, and nothing goes out
/// behind it. What else the plan does is done in any case.
pub proof fn sending_stops_at_the_first_failure(
    s: StateView,
    id: u128,
    message: ClientMessageView,
    now: u64,
    new_transfer_id: Seq<char>,
    new_token: Seq<char>,
    after: StateView,
    error: Option<AppErrorView>,
) -> (n: int)
    requires
        handled(s, id, message, now, new_transfer_id, new_token, after, error),
        planned(s, id, message, now, new_transfer_id, new_token) is Ok,
        !(message is Disconnect),
    ensures
        ({
            let plan = planned(s, id, message, now, new_transfer_id, new_token)->Ok_0;
            &&& 0 <= n <= plan.1.len()
            &&& after == (StateView { sent: plan.0.sent + plan.1.take(n), ..plan.0 })
            &&& error is None <==> n == plan.1.len()
            &&& n < plan.1.len() ==> error == Some(
                error_with(
                    ErrorCode::PeerDisconnected,
                    if plan.0.peers.contains_key(plan.1[n].0) {
                        "Peer connection closed"@
                    } else {
                        "Peer not found"@
                    },
                ),
            )
            &&& forall|i: int|
                0 <= i < n ==> plan.0.peers.contains_key((#[trigger] plan.1[i]).0) && has_answered(
                    plan.0.sent + plan.1.take(i),
                    plan.1[i],
                    true,
                )
            &&& n < plan.1.len() && plan.0.peers.contains_key(plan.1[n].0) ==> has_answered(
                plan.0.sent + plan.1.take(n),
                plan.1[n],
                false,
            )
        }),
{
    let plan = planned(s, id, message, now, new_transfer_id, new_token)->Ok_0;
    let taken = choose|taken: Seq<bool>| #[trigger]
        sent_in_turn(plan.0, plan.1, taken, after, error);
    let m = taken.len() as int;
    let asked = plan.1.take(m);
    let k = if error is None {
        m
    } else {
        m - 1
    };
    assert forall|i: int| 0 <= i < k implies send_error(
        plan.0,
        (#[trigger] plan.1[i]).0,
        taken[i],
    ) is None by {
        if i == m - 1 {
            assert(plan.1[m - 1] == plan.1[i]);
        }
    }
    assert forall|i: int| 0 <= i < m implies answered(
        StateView { sent: plan.0.sent + plan.1.take(i), ..plan.0 },
        #[trigger] plan.1[i],
        taken[i],
    ) by {
        lemma_answered_at(plan.0, asked, taken, i);
        assert(asked.take(i) == plan.1.take(i));
        assert(asked[i] == plan.1[i]);
        lemma_first_sent(plan.0, plan.1, taken, i);
    }
    assert forall|i: int| 0 <= i < k implies has_answered(
        plan.0.sent + plan.1.take(i),
        #[trigger] plan.1[i],
        true,
    ) && plan.0.peers.contains_key(plan.1[i].0) by {
        assert(send_error(plan.0, plan.1[i].0, taken[i]) is None);
    }
    if error is None {
        lemma_first_sent(plan.0, plan.1, taken, m);
        m
    } else {
        lemma_first_sent(plan.0, plan.1, taken, m - 1);
        assert(plan.1.take(m).drop_last() == plan.1.take(m - 1));
        assert(plan.1.take(m).last() == plan.1[m - 1]);
        let before = all_sent(plan.0, plan.1.take(m - 1), taken);
        assert(after == sent(before, plan.1[m - 1], taken[m - 1]));
        m - 1
    }
}

/// A farewell never fails. The peer is gone, whatever becomes of the news, and the
/// news, where it is taken, is all that goes out.
pub proof fn farewell_never_fails(
    s: StateView,
    id: u128,
    now: u64,
    new_transfer_id: Seq<char>,
    new_token: Seq<char>,
    after: StateView,
    error: Option<AppErrorView>,
)
    requires
        handled(
            s,
            id,
            ClientMessageView::Disconnect,
            now,
            new_transfer_id,
            new_token,
            after,
            error,
        ),
    ensures
        error is None,
        ({
            let left = removed(s, id);
            let news = removal_news(s, id);
            &&& after.peers == left.peers
            &&& after.sessions == left.sessions
            &&& after.config == s.config
            &&& after.clock == s.clock
            &&& news.len() == 0 ==> after.sent == s.sent
            &&& news.len() <= 1
            &&& news.len() == 1 && !left.peers.contains_key(news[0].0) ==> after.sent == s.sent
            &&& news.len() == 1 && left.peers.contains_key(news[0].0) ==> exists|taken: bool|
                #[trigger] has_answered(s.sent, news[0], taken) && after.sent == (if taken {
                    s.sent.push(news[0])
                } else {
                    s.sent
                })
        }),
{
    let plan = planned(s, id, ClientMessageView::Disconnect, now, new_transfer_id, new_token)->Ok_0;
    let taken = choose|taken: Seq<bool>|
        taken.len() == plan.1.len() && all_answered(plan.0, plan.1, taken) && after
            == #[trigger] all_sent(plan.0, plan.1, taken);
    if plan.1.len() == 1 {
        assert(plan.1.drop_last() == Seq::<Delivery>::empty());
        assert(all_sent(plan.0, plan.1.drop_last(), taken) == plan.0);
        assert(answered(plan.0, plan.1[0], taken[0]));
    }
}

/// Of a message for a connected peer, the peer's channel has been asked, and has
/// answered, when what had gone out before had; of one for a peer that is not
/// connected nothing is asked.
pub proof fn connected_peer_is_asked(s: StateView, d: Delivery, taken: bool)
    ensures
        s.peers.contains_key(d.0) ==> (answered(s, d, taken) <==> has_answered(s.sent, d, taken)),
        !s.peers.contains_key(d.0) ==> answered(s, d, taken),
{
}

} // verus!
