//! Laws on sessions and the peers in them.
use tokio::sync::mpsc::UnboundedSender;
use vstd::prelude::*;

use crate::errors::{refusal, AppErrorView, ErrorCode};
use crate::ids::{id_text, id_text_reads_back};
use crate::laws::messages::{dealt_with_as_planned, message_keeps_peers, sending_only_adds};
use crate::models::{
    versioned, ClientMessageView, Role, ServerMessageView, VersionedServerMessage,
};
use crate::rules::{
    all_lapsed, all_removed, approve_error, cleaned, connect_error, connected, expired_ids, expiry,
    gone, is_expired, join_error, lapsed, removal_news, removed, session_of, stale_ids, Delivery,
    PeerView, SessionView, StateView,
};
use crate::signaling::{all_sent, handled, heard_of, partner, planned};
use crate::ws_handler::{answer_reaction, charged_state, counted, frame_reaction, Frame};

verus! {

/// Whether a session stands under its own id, its sender is connected, is in it
/// and is a sender, and its receiver, if connected, is a receiver.
pub open spec fn is_sound(s: StateView, transfer_id: Seq<char>) -> bool {
    let session = s.sessions[transfer_id];
    &&& session.transfer_id == transfer_id
    &&& session.sender_id is Some
    &&& s.has_role(session.sender_id->0, Role::Sender)
    &&& s.peers[session.sender_id->0].session_id == Some(transfer_id)
    &&& session.receiver_id matches Some(r) ==> s.peers.contains_key(r) ==> s.peers[r].role == Some(
        Role::Receiver,
    )
}

/// Whether every peer stands under its own id and every session is sound.
pub open spec fn is_consistent(s: StateView) -> bool {
    &&& forall|k: u128| s.peers.contains_key(k) ==> (#[trigger] s.peers[k]).id == k
    &&& forall|t: Seq<char>| #[trigger] s.sessions.contains_key(t) ==> is_sound(s, t)
}

/// Whether an id is neither a connected peer's nor named by a session.
pub open spec fn is_unused(s: StateView, id: u128) -> bool {
    &&& !s.peers.contains_key(id)
    &&& forall|t: Seq<char>| #[trigger]
        s.sessions.contains_key(t) ==> s.sessions[t].sender_id != Some(id)
            && s.sessions[t].receiver_id != Some(id)
}

/// A server without peers and sessions is consistent.
pub proof fn starts_consistent(s: StateView)
    requires
        s.peers == Map::<u128, PeerView>::empty(),
        s.sessions == Map::<Seq<char>, SessionView>::empty(),
    ensures
        is_consistent(s),
{
}

/// A connection under an unused id leaves a consistent server consistent.
pub proof fn connecting_keeps_consistency(
    s: StateView,
    id: u128,
    tx: UnboundedSender<VersionedServerMessage>,
    now: u64,
)
    requires
        is_consistent(s),
        is_unused(s, id),
    ensures
        is_consistent(connected(s, id, tx, now)),
{
    let after = connected(s, id, tx, now);
    assert forall|t: Seq<char>| #[trigger] after.sessions.contains_key(t) implies is_sound(
        after,
        t,
    ) by {
        assert(is_sound(s, t));
    }
}

/// Peers that change in nothing but their limits and their last sign of life leave
/// a consistent server consistent.
proof fn lemma_same_standing(s: StateView, after: StateView)
    requires
        is_consistent(s),
        after.sessions == s.sessions,
        forall|k: u128| #[trigger]
            after.peers.contains_key(k) == s.peers.contains_key(k) && (s.peers.contains_key(k)
                ==> after.peers[k].id == s.peers[k].id && after.peers[k].role == s.peers[k].role
                && after.peers[k].session_id == s.peers[k].session_id),
    ensures
        is_consistent(after),
{
    assert forall|k: u128| after.peers.contains_key(k) implies (#[trigger] after.peers[k]).id
        == k by {
        assert(s.peers[k].id == k);
    }
    assert forall|t: Seq<char>| #[trigger] after.sessions.contains_key(t) implies is_sound(
        after,
        t,
    ) by {
        assert(is_sound(s, t));
        let session = s.sessions[t];
        assert(after.peers.contains_key(session.sender_id->0));
        if let Some(r) = session.receiver_id {
            assert(after.peers.contains_key(r) == s.peers.contains_key(r));
        }
    }
}

/// Sending messages leaves a consistent server consistent.
pub proof fn sending_keeps_consistency(s: StateView, ds: Seq<Delivery>, taken: Seq<bool>)
    requires
        is_consistent(s),
    ensures
        is_consistent(all_sent(s, ds, taken)),
{
    let _ = sending_only_adds(s, ds, taken);
    lemma_same_standing(s, all_sent(s, ds, taken));
}

/// Signs of life, charges for messages and counts of bad ones leave a consistent
/// server consistent.
pub proof fn bookkeeping_keeps_consistency(s: StateView, id: u128, now: u64)
    requires
        is_consistent(s),
    ensures
        is_consistent(heard_of(s, id, now)),
        is_consistent(charged_state(s, id, now)),
        is_consistent(counted(s, id)),
{
    lemma_same_standing(s, heard_of(s, id, now));
    lemma_same_standing(s, charged_state(s, id, now));
    lemma_same_standing(s, counted(s, id));
}

/// A frame that comes in leaves a consistent server consistent.
pub proof fn frame_keeps_consistency(s: StateView, id: u128, frame: Frame, now: u64)
    requires
        is_consistent(s),
    ensures
        is_consistent(frame_reaction(s, id, frame, now).0),
{
    bookkeeping_keeps_consistency(s, id, now);
    bookkeeping_keeps_consistency(charged_state(s, id, now), id, now);
}

/// The answer to a message leaves a consistent server consistent.
pub proof fn answer_keeps_consistency(s: StateView, id: u128, error: Option<AppErrorView>)
    requires
        is_consistent(s),
    ensures
        is_consistent(answer_reaction(s, id, error).0),
{
    bookkeeping_keeps_consistency(s, id, 0);
}

/// A peer that leaves leaves a consistent server consistent.
pub proof fn leaving_keeps_consistency(s: StateView, id: u128)
    requires
        is_consistent(s),
    ensures
        is_consistent(removed(s, id)),
{
    let after = removed(s, id);
    assert forall|t: Seq<char>| #[trigger] after.sessions.contains_key(t) implies is_sound(
        after,
        t,
    ) by {
        assert(s.sessions.contains_key(t));
        assert(is_sound(s, t));
        if let Some(own) = session_of(s, id) {
            assert(is_sound(s, own));
        }
    }
}

/// Peers that leave one after the other leave a consistent server consistent.
pub proof fn all_leaving_keeps_consistency(s: StateView, ids: Seq<u128>)
    requires
        is_consistent(s),
    ensures
        is_consistent(all_removed(s, ids)),
    decreases ids.len(),
{
    if ids.len() > 0 {
        all_leaving_keeps_consistency(s, ids.drop_last());
        leaving_keeps_consistency(all_removed(s, ids.drop_last()), ids.last());
    }
}

/// A session that expires leaves a consistent server consistent.
pub proof fn expiry_keeps_consistency(s: StateView, transfer_id: Seq<char>)
    requires
        is_consistent(s),
    ensures
        is_consistent(lapsed(s, transfer_id)),
{
    let after = lapsed(s, transfer_id);
    assert forall|t: Seq<char>| #[trigger] after.sessions.contains_key(t) implies is_sound(
        after,
        t,
    ) by {
        assert(is_sound(s, t));
        if s.sessions.contains_key(transfer_id) {
            assert(is_sound(s, transfer_id));
        }
    }
}

/// Sessions that expire one after the other leave a consistent server
/// consistent.
pub proof fn all_expiry_keeps_consistency(s: StateView, ids: Seq<Seq<char>>)
    requires
        is_consistent(s),
    ensures
        is_consistent(all_lapsed(s, ids)),
    decreases ids.len(),
{
    if ids.len() > 0 {
        all_expiry_keeps_consistency(s, ids.drop_last());
        expiry_keeps_consistency(all_lapsed(s, ids.drop_last()), ids.last());
    }
}

/// Clearing away silent peers and expired sessions leaves a consistent server
/// consistent.
pub proof fn cleaning_keeps_consistency(
    s: StateView,
    peers: Seq<u128>,
    sessions: Seq<Seq<char>>,
    now: u64,
)
    requires
        is_consistent(s),
    ensures
        is_consistent(cleaned(s, peers, sessions, now)),
{
    let left = all_removed(s, stale_ids(s, peers, now));
    all_leaving_keeps_consistency(s, stale_ids(s, peers, now));
    all_expiry_keeps_consistency(left, expired_ids(left, sessions, now));
}

proof fn lemma_plan_keeps_consistency(
    s: StateView,
    id: u128,
    message: ClientMessageView,
    now: u64,
    new_transfer_id: Seq<char>,
    new_token: Seq<char>,
)
    requires
        is_consistent(s),
        planned(s, id, message, now, new_transfer_id, new_token) is Ok,
    ensures
        is_consistent((planned(s, id, message, now, new_transfer_id, new_token)->Ok_0).0),
{
    let after = (planned(s, id, message, now, new_transfer_id, new_token)->Ok_0).0;
    match message {
        ClientMessageView::Heartbeat => {
            bookkeeping_keeps_consistency(s, id, now);
        },
        ClientMessageView::Disconnect => {
            leaving_keeps_consistency(s, id);
        },
        _ => {
            assert forall|t: Seq<char>| #[trigger] after.sessions.contains_key(t) implies is_sound(
                after,
                t,
            ) by {
                if s.sessions.contains_key(t) {
                    assert(is_sound(s, t));
                }
            }
        },
    }
}

/// A client's message leaves a consistent server consistent.
pub proof fn message_keeps_consistency(
    s: StateView,
    id: u128,
    message: ClientMessageView,
    now: u64,
    new_transfer_id: Seq<char>,
    new_token: Seq<char>,
    after: StateView,
    error: Option<AppErrorView>,
)
    requires
        is_consistent(s),
        handled(s, id, message, now, new_transfer_id, new_token, after, error),
    ensures
        is_consistent(after),
{
    let plan = planned(s, id, message, now, new_transfer_id, new_token);
    if plan is Ok {
        lemma_plan_keeps_consistency(s, id, message, now, new_transfer_id, new_token);
        let r = dealt_with_as_planned(
            s,
            id,
            message,
            now,
            new_transfer_id,
            new_token,
            after,
            error,
        );
        sending_keeps_consistency(plan->Ok_0.0, r.0, r.1);
    }
}

/// In a consistent server, whoever is let in to ask for a session asks a sender
/// that is connected.
pub proof fn join_request_has_a_sender(
    s: StateView,
    receiver: u128,
    transfer_id: Seq<char>,
    now: u64,
)
    requires
        is_consistent(s),
        join_error(s, receiver, transfer_id, now) is None,
    ensures
        s.sessions[transfer_id].sender_id is Some,
        s.has_role(s.sessions[transfer_id].sender_id->0, Role::Sender),
        s.sessions[transfer_id].sender_id != Some(receiver),
{
    assert(is_sound(s, transfer_id));
}

/// In a consistent server, no session has one peer as its sender and its receiver,
/// and the news of a peer that leaves is never for that peer.
pub proof fn nobody_is_their_own_partner(s: StateView, transfer_id: Seq<char>, id: u128, i: int)
    requires
        is_consistent(s),
    ensures
        s.sessions.contains_key(transfer_id) ==> s.sessions[transfer_id].sender_id
            != s.sessions[transfer_id].receiver_id,
        0 <= i < removal_news(s, id).len() ==> removal_news(s, id)[i].0 != id,
{
    if s.sessions.contains_key(transfer_id) {
        assert(is_sound(s, transfer_id));
    }
    if let Some(own) = session_of(s, id) {
        assert(is_sound(s, own));
    }
}

// The number of connections.

/// The number of connections stays within the cap when a connection is taken
/// in.
pub proof fn connecting_keeps_the_cap(
    s: StateView,
    id: u128,
    tx: UnboundedSender<VersionedServerMessage>,
    now: u64,
)
    requires
        s.peers.dom().finite(),
        connect_error(s) is None,
    ensures
        connected(s, id, tx, now).peers.dom().finite(),
        connected(s, id, tx, now).peers.len() <= s.config.max_connections,
{
    assert(connected(s, id, tx, now).peers.dom() == s.peers.dom().insert(id));
}

/// No client's message adds a connection.
pub proof fn message_keeps_the_cap(
    s: StateView,
    id: u128,
    message: ClientMessageView,
    now: u64,
    new_transfer_id: Seq<char>,
    new_token: Seq<char>,
    after: StateView,
    error: Option<AppErrorView>,
)
    requires
        s.peers.dom().finite(),
        handled(s, id, message, now, new_transfer_id, new_token, after, error),
    ensures
        after.peers.dom().finite(),
        after.peers.len() <= s.peers.len(),
{
    assert forall|q: u128| after.peers.dom().contains(q) implies s.peers.dom().contains(q) by {
        message_keeps_peers(
            s,
            id,
            message,
            now,
            new_transfer_id,
            new_token,
            after,
            error,
            q,
        );
    }
    assert(after.peers.dom().subset_of(s.peers.dom()));
    vstd::set_lib::lemma_len_subset(after.peers.dom(), s.peers.dom());
}

/// No frame that comes in, and no answer, adds or takes away a connection.
pub proof fn frames_keep_the_connections(
    s: StateView,
    id: u128,
    frame: Frame,
    now: u64,
    error: Option<AppErrorView>,
)
    ensures
        frame_reaction(s, id, frame, now).0.peers.dom() == s.peers.dom(),
        answer_reaction(s, id, error).0.peers.dom() == s.peers.dom(),
{
}

// Leaving.

/// A peer that has left is not connected any more, and everyone else still is.
pub proof fn leaving_takes_one_peer(s: StateView, id: u128, q: u128)
    ensures
        removed(s, id).peers.contains_key(q) == (s.peers.contains_key(q) && q != id),
{
}

/// Leaving twice is leaving once, and is told once.
pub proof fn leaving_twice_is_leaving_once(s: StateView, id: u128)
    ensures
        removed(removed(s, id), id) == removed(s, id),
        removal_news(removed(s, id), id) == Seq::<Delivery>::empty(),
{
    let after = removed(s, id);
    assert(after.without_peer(id).peers == after.peers);
}

/// When a session's sender leaves, the session is closed; its receiver, if it
/// has one, is told, and, if connected, is free to join another.
pub proof fn sender_leaving_closes_the_session(s: StateView, transfer_id: Seq<char>)
    requires
        is_consistent(s),
        s.sessions.contains_key(transfer_id),
    ensures
        ({
            let sender = s.sessions[transfer_id].sender_id->0;
            let after = removed(s, sender);
            &&& !after.sessions.contains_key(transfer_id)
            &&& forall|t: Seq<char>|
                t != transfer_id ==> (#[trigger] after.sessions.contains_key(t)
                    == s.sessions.contains_key(t))
            &&& match s.sessions[transfer_id].receiver_id {
                Some(r) => {
                    &&& removal_news(s, sender) == seq![(r, gone(sender, Role::Sender))]
                    &&& after.peers.contains_key(r) ==> after.peers[r].session_id is None
                },
                None => removal_news(s, sender) == Seq::<Delivery>::empty(),
            }
        }),
{
    assert(is_sound(s, transfer_id));
}

/// When the receiver of the session that it is in leaves, the session stays open
/// for another receiver to join, and the sender is told.
pub proof fn receiver_leaving_frees_the_place(
    s: StateView,
    transfer_id: Seq<char>,
    receiver: u128,
    other: u128,
    now: u64,
)
    requires
        is_consistent(s),
        s.sessions.contains_key(transfer_id),
        s.sessions[transfer_id].receiver_id == Some(receiver),
        s.peers.contains_key(receiver),
        s.peers[receiver].session_id == Some(transfer_id),
        other != receiver,
        s.has_role(other, Role::Receiver),
        s.peers[other].session_id is None,
        !is_expired(s.sessions[transfer_id], now),
    ensures
        ({
            let after = removed(s, receiver);
            let sender = s.sessions[transfer_id].sender_id->0;
            &&& after.sessions.contains_key(transfer_id)
            &&& after.sessions[transfer_id] == (SessionView {
                receiver_id: None,
                ..s.sessions[transfer_id]
            })
            &&& after.has_role(sender, Role::Sender)
            &&& removal_news(s, receiver) == seq![(sender, gone(receiver, Role::Receiver))]
            &&& join_error(after, other, transfer_id, now) is None
        }),
{
    assert(is_sound(s, transfer_id));
}

// From a session's beginning to the members speaking to each other.

/// A connected sender without a session can create one, and a connected receiver
/// without a session can ask to join it until it expires; the sender is then
/// told an id by which it can approve the receiver with the token that it got.
/// After that the two speak to each other, and no other receiver can join. None
/// of the three messages is refused; if one fails, a client's channel is closed.
pub proof fn transfer_can_be_arranged(
    s: StateView,
    sender: u128,
    receiver: u128,
    transfer_id: Seq<char>,
    token: Seq<char>,
    times: (u64, u64, u64),
    drawn: (Seq<char>, Seq<char>),
    states: (StateView, StateView, StateView),
    errors: (Option<AppErrorView>, Option<AppErrorView>, Option<AppErrorView>),
)
    requires
        s.has_role(sender, Role::Sender),
        s.peers[sender].session_id is None,
        s.has_role(receiver, Role::Receiver),
        s.peers[receiver].session_id is None,
        times.1 <= expiry(s, times.0),
        times.2 <= expiry(s, times.0),
        handled(
            s,
            sender,
            ClientMessageView::CreateSession,
            times.0,
            transfer_id,
            token,
            states.0,
            errors.0,
        ),
        handled(
            states.0,
            receiver,
            ClientMessageView::JoinSession { transfer_id },
            times.1,
            drawn.0,
            drawn.1,
            states.1,
            errors.1,
        ),
        handled(
            states.1,
            sender,
            approval(transfer_id, token, receiver),
            times.2,
            drawn.0,
            drawn.1,
            states.2,
            errors.2,
        ),
    ensures
        planned(
            s,
            sender,
            ClientMessageView::CreateSession,
            times.0,
            transfer_id,
            token,
        ) matches Ok(plan) && plan.1 == seq![
            (sender, versioned(ServerMessageView::SessionCreated { transfer_id, token })),
        ],
        planned(
            states.0,
            receiver,
            ClientMessageView::JoinSession { transfer_id },
            times.1,
            drawn.0,
            drawn.1,
        ) matches Ok(plan) && plan.1 == seq![
            (
                sender,
                versioned(ServerMessageView::JoinRequest { receiver_id: id_text(receiver) }),
            ),
        ],
        planned(
            states.1,
            sender,
            approval(transfer_id, token, receiver),
            times.2,
            drawn.0,
            drawn.1,
        ) matches Ok(plan) && plan.1 == seq![
            (receiver, versioned(ServerMessageView::SessionJoined { transfer_id })),
            (
                sender,
                versioned(
                    ServerMessageView::PeerJoined {
                        peer_id: id_text(receiver),
                        role: Role::Receiver,
                    },
                ),
            ),
        ],
        errors.0 is Some ==> errors.0 == Some(channel_closed()),
        errors.1 is Some ==> errors.1 == Some(channel_closed()),
        errors.2 is Some ==> errors.2 == Some(channel_closed()),
        states.2.peers[sender].session_id == Some(transfer_id),
        states.2.peers[receiver].session_id == Some(transfer_id),
        partner(states.2, sender, transfer_id) == Ok::<u128, AppErrorView>(receiver),
        partner(states.2, receiver, transfer_id) == Ok::<u128, AppErrorView>(sender),
        forall|other: u128, now: u64|
            states.2.has_role(other, Role::Receiver) && states.2.peers[other].session_id is None
                && now <= expiry(s, times.0) ==> (#[trigger] join_error(
                states.2,
                other,
                transfer_id,
                now,
            )) == Some(refusal(ErrorCode::SessionFull, "Session already occupied"@)),
{
    assert(sender != receiver);
    let c = ClientMessageView::CreateSession;
    let j = ClientMessageView::JoinSession { transfer_id };
    let a = approval(transfer_id, token, receiver);
    let p1 = planned(s, sender, c, times.0, transfer_id, token)->Ok_0;
    let r1 = dealt_with_as_planned(
        s,
        sender,
        c,
        times.0,
        transfer_id,
        token,
        states.0,
        errors.0,
    );
    let _ = sending_only_adds(p1.0, r1.0, r1.1);
    let p2 = planned(states.0, receiver, j, times.1, drawn.0, drawn.1)->Ok_0;
    let r2 = dealt_with_as_planned(
        states.0,
        receiver,
        j,
        times.1,
        drawn.0,
        drawn.1,
        states.1,
        errors.1,
    );
    let _ = sending_only_adds(p2.0, r2.0, r2.1);
    id_text_reads_back(receiver);
    let p3 = planned(states.1, sender, a, times.2, drawn.0, drawn.1)->Ok_0;
    let r3 = dealt_with_as_planned(
        states.1,
        sender,
        a,
        times.2,
        drawn.0,
        drawn.1,
        states.2,
        errors.2,
    );
    let _ = sending_only_adds(p3.0, r3.0, r3.1);
}

/// The message by which a sender approves a receiver.
pub open spec fn approval(
    transfer_id: Seq<char>,
    token: Seq<char>,
    receiver: u128,
) -> ClientMessageView {
    ClientMessageView::ApproveJoin { transfer_id, token, receiver_id: id_text(receiver) }
}

/// The error of a message that a connected peer's channel did not take.
pub open spec fn channel_closed() -> AppErrorView {
    refusal(ErrorCode::PeerDisconnected, "Peer connection closed"@)
}

/// After it has expired, a session can neither be joined nor be given a
/// receiver.
pub proof fn expired_session_is_closed_to_all(
    s: StateView,
    transfer_id: Seq<char>,
    now: u64,
    peer: u128,
    token: Seq<char>,
    receiver: u128,
)
    requires
        s.sessions.contains_key(transfer_id),
        is_expired(s.sessions[transfer_id], now),
    ensures
        join_error(s, peer, transfer_id, now) is Some,
        approve_error(s, peer, transfer_id, token, receiver, now) is Some,
{
}

} // verus!
