//! Laws on what a client's message does.
use vstd::prelude::*;

use crate::errors::{refusal, AppErrorView, ErrorCode};
use crate::ids::{id_number, id_number_fits};
use crate::models::{versioned, ClientMessageView, Role, ServerMessageView};
use crate::rules::{
    all_lapse_news, all_lapsed, all_removal_news, all_removed, cleaning_news, create_error,
    created, expired_ids, is_expired, register_error, registered, removal_news, removed, stale_ids,
    walks, Delivery, PeerView, SessionView, StateView,
};
use crate::signaling::{all_sent, handled, partner, planned, send_error, sent_in_turn};
use crate::ws_handler::{answer_reaction, error_reply, frame_reaction, Frame};

verus! {

/// Whether a peer is still who it was: its id, its channel, its role once it has
/// one, its limits.
pub open spec fn same_peer(before: PeerView, after: PeerView) -> bool {
    &&& after.id == before.id
    &&& before.role is Some ==> after.role == before.role
    &&& after.tx == before.tx
    &&& after.rate_limit_tokens == before.rate_limit_tokens
    &&& after.rate_limit_last_check == before.rate_limit_last_check
    &&& after.rate_limit_spent == before.rate_limit_spent
    &&& after.bad_message_count == before.bad_message_count
}

/// Whether messages are some of others, in their order.
pub open spec fn is_part_of(some: Seq<Delivery>, all: Seq<Delivery>) -> bool
    decreases all.len(),
{
    if all.len() == 0 {
        some.len() == 0
    } else {
        is_part_of(some, all.drop_last()) || (some.len() > 0 && some.last() == all.last()
            && is_part_of(some.drop_last(), all.drop_last()))
    }
}

/// Sending changes nothing but what has gone out, and nothing goes out but what is
/// sent, each message once at most and in order.
pub proof fn sending_only_adds(s: StateView, ds: Seq<Delivery>, taken: Seq<bool>) -> (out: Seq<
    Delivery,
>)
    ensures
        all_sent(s, ds, taken) == (StateView { sent: s.sent + out, ..s }),
        is_part_of(out, ds),
    decreases ds.len(),
{
    if ds.len() > 0 {
        let before = sending_only_adds(s, ds.drop_last(), taken);
        if s.peers.contains_key(ds.last().0) && taken[ds.len() - 1] {
            let out = before.push(ds.last());
            assert(out.drop_last() == before);
            assert(s.sent + out == (s.sent + before).push(ds.last()));
            out
        } else {
            before
        }
    } else {
        assert(s.sent + Seq::<Delivery>::empty() == s.sent);
        Seq::empty()
    }
}

/// What a message that is dealt with leaves is what its plan says, with the
/// messages sent that it says, as far as they got.
pub proof fn dealt_with_as_planned(
    s: StateView,
    id: u128,
    message: ClientMessageView,
    now: u64,
    new_transfer_id: Seq<char>,
    new_token: Seq<char>,
    after: StateView,
    error: Option<AppErrorView>,
) -> (r: (Seq<Delivery>, Seq<bool>))
    requires
        handled(s, id, message, now, new_transfer_id, new_token, after, error),
        planned(s, id, message, now, new_transfer_id, new_token) is Ok,
    ensures
        ({
            let plan = planned(s, id, message, now, new_transfer_id, new_token)->Ok_0;
            r.0.is_prefix_of(plan.1) && after == all_sent(plan.0, r.0, r.1)
        }),
{
    let plan = planned(s, id, message, now, new_transfer_id, new_token)->Ok_0;
    if message is Disconnect {
        let taken = choose|taken: Seq<bool>|
            taken.len() == plan.1.len() && after == #[trigger] all_sent(plan.0, plan.1, taken);
        (plan.1, taken)
    } else {
        let taken = choose|taken: Seq<bool>| #[trigger]
            sent_in_turn(plan.0, plan.1, taken, after, error);
        (plan.1.take(taken.len() as int), taken)
    }
}

/// A client's message connects nobody, and leaves everyone who stays connected
/// with the channel that they have, the role they registered in, and the limits
/// they had.
pub proof fn message_keeps_peers(
    s: StateView,
    id: u128,
    message: ClientMessageView,
    now: u64,
    new_transfer_id: Seq<char>,
    new_token: Seq<char>,
    after: StateView,
    error: Option<AppErrorView>,
    q: u128,
)
    requires
        handled(s, id, message, now, new_transfer_id, new_token, after, error),
        after.peers.contains_key(q),
    ensures
        s.peers.contains_key(q),
        same_peer(s.peers[q], after.peers[q]),
{
    let plan = planned(s, id, message, now, new_transfer_id, new_token);
    if plan is Ok {
        let r = dealt_with_as_planned(
            s,
            id,
            message,
            now,
            new_transfer_id,
            new_token,
            after,
            error,
        );
        let _ = sending_only_adds(plan->Ok_0.0, r.0, r.1);
    }
}

/// What goes out when a client's message is dealt with is some of the messages of
/// its plan, each once at most and in order, and nothing else; nothing goes out
/// where it is refused.
pub proof fn only_the_plan_goes_out(
    s: StateView,
    id: u128,
    message: ClientMessageView,
    now: u64,
    new_transfer_id: Seq<char>,
    new_token: Seq<char>,
    after: StateView,
    error: Option<AppErrorView>,
) -> (out: Seq<Delivery>)
    requires
        handled(s, id, message, now, new_transfer_id, new_token, after, error),
    ensures
        after.sent == s.sent + out,
        match planned(s, id, message, now, new_transfer_id, new_token) {
            Ok(plan) => is_part_of(out, plan.1),
            Err(_) => out.len() == 0,
        },
{
    let plan = planned(s, id, message, now, new_transfer_id, new_token);
    if plan is Ok {
        let r = dealt_with_as_planned(
            s,
            id,
            message,
            now,
            new_transfer_id,
            new_token,
            after,
            error,
        );
        let out = sending_only_adds(plan->Ok_0.0, r.0, r.1);
        assert(r.0 == (plan->Ok_0).1.take(r.0.len() as int));
        lemma_part_of_prefix(out, (plan->Ok_0).1, r.0.len() as int);
        out
    } else {
        assert(s.sent + Seq::<Delivery>::empty() == s.sent);
        Seq::empty()
    }
}

proof fn lemma_part_of_prefix(some: Seq<Delivery>, all: Seq<Delivery>, n: int)
    requires
        0 <= n <= all.len(),
        is_part_of(some, all.take(n)),
    ensures
        is_part_of(some, all),
    decreases all.len() - n,
{
    if n < all.len() {
        assert(all.take(n + 1).drop_last() == all.take(n));
        lemma_part_of_prefix(some, all, n + 1);
    } else {
        assert(all.take(n) == all);
    }
}

proof fn lemma_all_taken(s: StateView, ds: Seq<Delivery>, taken: Seq<bool>)
    requires
        ds.len() <= taken.len(),
        forall|i: int|
            0 <= i < ds.len() ==> s.peers.contains_key((#[trigger] ds[i]).0) && taken[i],
    ensures
        all_sent(s, ds, taken) == (StateView { sent: s.sent + ds, ..s }),
    decreases ds.len(),
{
    if ds.len() > 0 {
        let front = ds.drop_last();
        assert forall|i: int| 0 <= i < front.len() implies s.peers.contains_key(
            (#[trigger] front[i]).0,
        ) && taken[i] by {
            assert(front[i] == ds[i]);
        }
        lemma_all_taken(s, front, taken);
        assert(ds.last() == ds[ds.len() - 1]);
        assert(s.sent + ds == (s.sent + front).push(ds.last()));
    } else {
        assert(s.sent + ds == s.sent);
    }
}

/// When a message other than a farewell is dealt with without an error, all the
/// messages of its plan go out to connected peers, in order, and nothing else.
pub proof fn without_error_all_arrives(
    s: StateView,
    id: u128,
    message: ClientMessageView,
    now: u64,
    new_transfer_id: Seq<char>,
    new_token: Seq<char>,
    after: StateView,
)
    requires
        !(message is Disconnect),
        handled(s, id, message, now, new_transfer_id, new_token, after, None),
    ensures
        planned(s, id, message, now, new_transfer_id, new_token) matches Ok(plan) && after == (
        StateView { sent: s.sent + plan.1, ..plan.0 }) && forall|i: int|
            0 <= i < plan.1.len() ==> plan.0.peers.contains_key((#[trigger] plan.1[i]).0),
{
    let plan = planned(s, id, message, now, new_transfer_id, new_token)->Ok_0;
    let taken = choose|taken: Seq<bool>| #[trigger]
        sent_in_turn(plan.0, plan.1, taken, after, None);
    assert(plan.1.take(taken.len() as int) == plan.1);
    assert forall|i: int| 0 <= i < taken.len() implies #[trigger] taken[i]
        && plan.0.peers.contains_key(plan.1[i].0) by {
        assert(send_error(plan.0, plan.1[i].0, taken[i]) is None);
    }
    assert forall|i: int| 0 <= i < plan.1.len() implies plan.0.peers.contains_key(
        (#[trigger] plan.1[i]).0,
    ) by {
        assert(taken[i]);
    }
    assert forall|i: int| 0 <= i < plan.1.len() implies plan.0.peers.contains_key(
        (#[trigger] plan.1[i]).0,
    ) && taken[i] by {
        assert(taken[i]);
    }
    lemma_all_taken(plan.0, plan.1, taken);
}

/// A request that is refused changes nothing, reaches nobody, and is answered
/// with the refusal's code and message.
pub proof fn refusal_changes_nothing(
    s: StateView,
    id: u128,
    message: ClientMessageView,
    now: u64,
    new_transfer_id: Seq<char>,
    new_token: Seq<char>,
    after: StateView,
    error: Option<AppErrorView>,
)
    requires
        handled(s, id, message, now, new_transfer_id, new_token, after, error),
        planned(s, id, message, now, new_transfer_id, new_token) is Err,
    ensures
        after == s,
        ({
            let e = planned(s, id, message, now, new_transfer_id, new_token)->Err_0;
            error == Some(e) && answer_reaction(after, id, error).1.reply == Some(
                error_reply(e.code, e.message),
            )
        }),
{
}

/// Every error is told to the client that caused it; a message that is dealt
/// with without one is not answered in this way.
pub proof fn errors_are_answered(s: StateView, id: u128, error: Option<AppErrorView>)
    ensures
        answer_reaction(s, id, error).1.reply == (match error {
            Some(e) => Some(error_reply(e.code, e.message)),
            None => None,
        }),
{
}

/// A peer registers once: after that, registering again is refused, whatever
/// the role.
pub proof fn registration_is_final(s: StateView, id: u128, role: Role)
    requires
        register_error(s, id) is None,
    ensures
        registered(s, id, role).has_role(id, role),
        register_error(registered(s, id, role), id) == Some(
            refusal(ErrorCode::AlreadyRegistered, "Peer already registered"@),
        ),
{
}

/// A sender has one session at a time.
pub proof fn one_session_per_sender(
    s: StateView,
    sender: u128,
    transfer_id: Seq<char>,
    token: Seq<char>,
    now: u64,
)
    requires
        create_error(s, sender) is None,
    ensures
        create_error(created(s, sender, transfer_id, token, now), sender) == Some(
            refusal(ErrorCode::AlreadyRegistered, "Sender already has active session"@),
        ),
{
}

/// A session gets a receiver in one way only: a message by the session's sender
/// that approves the receiver and gives the session's token, before the session
/// has expired.
pub proof fn receiver_needs_approval(
    s: StateView,
    id: u128,
    message: ClientMessageView,
    now: u64,
    new_transfer_id: Seq<char>,
    new_token: Seq<char>,
    after: StateView,
    error: Option<AppErrorView>,
    transfer_id: Seq<char>,
    receiver: u128,
)
    requires
        handled(s, id, message, now, new_transfer_id, new_token, after, error),
        after.sessions.contains_key(transfer_id),
        after.sessions[transfer_id].receiver_id == Some(receiver),
        !(s.sessions.contains_key(transfer_id) && s.sessions[transfer_id].receiver_id == Some(
            receiver,
        )),
    ensures
        s.sessions.contains_key(transfer_id),
        message matches ClientMessageView::ApproveJoin { transfer_id: t, token, receiver_id } && t
            == transfer_id && token == s.sessions[transfer_id].token && id_number(receiver_id)
            == Some(receiver as nat),
        s.sessions[transfer_id].sender_id == Some(id),
        s.has_role(id, Role::Sender),
        s.has_role(receiver, Role::Receiver),
        !is_expired(s.sessions[transfer_id], now),
{
    let plan = planned(s, id, message, now, new_transfer_id, new_token);
    if plan is Ok {
        let r = dealt_with_as_planned(
            s,
            id,
            message,
            now,
            new_transfer_id,
            new_token,
            after,
            error,
        );
        let _ = sending_only_adds(plan->Ok_0.0, r.0, r.1);
        if let ClientMessageView::ApproveJoin { transfer_id: t, token, receiver_id } = message {
            id_number_fits(receiver_id);
        }
    }
}

/// The two members of a session speak to each other.
pub proof fn partners_are_mutual(s: StateView, a: u128, b: u128, transfer_id: Seq<char>)
    requires
        partner(s, a, transfer_id) == Ok::<u128, AppErrorView>(b),
    ensures
        partner(s, b, transfer_id) == Ok::<u128, AppErrorView>(a),
{
}

/// The session that an offer, an answer or a candidate is meant for, and what
/// is passed on.
pub open spec fn relay_of(message: ClientMessageView) -> Option<(Seq<char>, ServerMessageView)> {
    match message {
        ClientMessageView::Offer { transfer_id, sdp } => Some(
            (transfer_id, ServerMessageView::RelayOffer { sdp }),
        ),
        ClientMessageView::Answer { transfer_id, sdp } => Some(
            (transfer_id, ServerMessageView::RelayAnswer { sdp }),
        ),
        ClientMessageView::IceCandidate { transfer_id, candidate, sdp_mid, sdp_mline_index } =>
            Some(
            (
                transfer_id,
                ServerMessageView::RelayIceCandidate { candidate, sdp_mid, sdp_mline_index },
            ),
        ),
        _ => None,
    }
}

/// Offers, answers and candidates go unchanged to the other member of the
/// session and to nobody else, and change nothing; from one who is not a member
/// they do not go at all.
pub proof fn relay_reaches_only_the_partner(
    s: StateView,
    id: u128,
    message: ClientMessageView,
    now: u64,
    new_transfer_id: Seq<char>,
    new_token: Seq<char>,
)
    requires
        relay_of(message) is Some,
    ensures
        ({
            let (transfer_id, payload) = relay_of(message)->0;
            match planned(s, id, message, now, new_transfer_id, new_token) {
                Ok(plan) => {
                    &&& plan.0 == s
                    &&& partner(s, id, transfer_id) is Ok
                    &&& plan.1 == seq![(partner(s, id, transfer_id)->Ok_0, versioned(payload))]
                },
                Err(e) => partner(s, id, transfer_id) is Err || e == refusal(
                    ErrorCode::MalformedMessage,
                    "Empty ICE candidate"@,
                ),
            }
        }),
        ({
            let transfer_id = (relay_of(message)->0).0;
            s.sessions.contains_key(transfer_id) && s.sessions[transfer_id].sender_id != Some(id)
                && s.sessions[transfer_id].receiver_id != Some(id) ==> planned(
                s,
                id,
                message,
                now,
                new_transfer_id,
                new_token,
            ) is Err && partner(s, id, transfer_id) == Err::<u128, AppErrorView>(
                refusal(ErrorCode::Unauthorized, "Not session member"@),
            )
        }),
{
}

/// An offer, an answer or a candidate that is dealt with without an error has
/// been taken, unchanged, by the channel of the other member of the session, and
/// nothing else has happened.
pub proof fn relay_arrives(
    s: StateView,
    id: u128,
    message: ClientMessageView,
    now: u64,
    new_transfer_id: Seq<char>,
    new_token: Seq<char>,
    after: StateView,
)
    requires
        relay_of(message) is Some,
        handled(s, id, message, now, new_transfer_id, new_token, after, None),
    ensures
        ({
            let (transfer_id, payload) = relay_of(message)->0;
            partner(s, id, transfer_id) matches Ok(target) && s.peers.contains_key(target) && after
                == (StateView { sent: s.sent.push((target, versioned(payload))), ..s })
        }),
{
    without_error_all_arrives(s, id, message, now, new_transfer_id, new_token, after);
    let plan = planned(s, id, message, now, new_transfer_id, new_token)->Ok_0;
    assert(plan.0.peers.contains_key(plan.1[0].0));
    assert(s.sent + plan.1 == s.sent.push(plan.1[0]));
}

/// A session's token is told to the client that creates the session, and to
/// nobody else.
pub proof fn token_goes_to_its_sender(
    s: StateView,
    id: u128,
    message: ClientMessageView,
    now: u64,
    new_transfer_id: Seq<char>,
    new_token: Seq<char>,
    i: int,
)
    requires
        planned(s, id, message, now, new_transfer_id, new_token) matches Ok(plan) && 0 <= i
            < plan.1.len() && plan.1[i].1.payload is SessionCreated,
    ensures
        message is CreateSession,
        (planned(s, id, message, now, new_transfer_id, new_token)->Ok_0).1[i] == (
            id,
            versioned(
                ServerMessageView::SessionCreated {
                    transfer_id: new_transfer_id,
                    token: new_token,
                },
            ),
        ),
{
}

/// Whether two states differ in nothing but the tokens of their sessions.
pub open spec fn same_but_tokens(a: StateView, b: StateView) -> bool {
    &&& a.peers == b.peers
    &&& a.config == b.config
    &&& a.clock == b.clock
    &&& a.sent == b.sent
    &&& a.sessions.dom() == b.sessions.dom()
    &&& forall|t: Seq<char>| #[trigger]
        a.sessions.contains_key(t) ==> a.sessions[t] == (SessionView {
            token: a.sessions[t].token,
            ..b.sessions[t]
        })
}

/// Whether two messages differ in nothing but the token that they give, and give
/// the session's token, or another, both alike.
pub open spec fn same_but_token_given(
    a: StateView,
    b: StateView,
    from_a: ClientMessageView,
    from_b: ClientMessageView,
) -> bool {
    match (from_a, from_b) {
        (
            ClientMessageView::ApproveJoin { transfer_id, token, receiver_id },
            ClientMessageView::ApproveJoin {
                transfer_id: other_transfer_id,
                token: other_token,
                receiver_id: other_receiver_id,
            },
        ) => {
            &&& transfer_id == other_transfer_id
            &&& receiver_id == other_receiver_id
            &&& (token == a.sessions[transfer_id].token) == (other_token
                == b.sessions[transfer_id].token)
        },
        _ => from_a == from_b,
    }
}

/// No token stands in any message but the one that tells it to the client that
/// creates the session, nor in any refusal: whatever the tokens are, what goes
/// out is the same, but for whether a token that is given is the session's.
pub proof fn tokens_stand_in_no_other_message(
    a: StateView,
    b: StateView,
    id: u128,
    from_a: ClientMessageView,
    from_b: ClientMessageView,
    now: u64,
    new_transfer_id: Seq<char>,
    token_in_a: Seq<char>,
    token_in_b: Seq<char>,
)
    requires
        same_but_tokens(a, b),
        same_but_token_given(a, b, from_a, from_b),
        !(from_a is CreateSession),
    ensures
        match (
            planned(a, id, from_a, now, new_transfer_id, token_in_a),
            planned(b, id, from_b, now, new_transfer_id, token_in_b),
        ) {
            (Ok(plan_a), Ok(plan_b)) => plan_a.1 == plan_b.1,
            (Err(e), Err(f)) => e == f,
            _ => false,
        },
{
    match from_a {
        ClientMessageView::JoinSession { transfer_id } => {
            assert(a.sessions.dom().contains(transfer_id) == b.sessions.dom().contains(
                transfer_id,
            ));
        },
        ClientMessageView::ApproveJoin { transfer_id, .. } => {
            assert(a.sessions.dom().contains(transfer_id) == b.sessions.dom().contains(
                transfer_id,
            ));
        },
        ClientMessageView::Disconnect => {
            lemma_removed_same_but_tokens(a, b, id);
        },
        _ => {
            if let Some(r) = relay_of(from_a) {
                assert(a.sessions.dom().contains(r.0) == b.sessions.dom().contains(r.0));
            }
        },
    }
}

proof fn lemma_removed_same_but_tokens(a: StateView, b: StateView, id: u128)
    requires
        same_but_tokens(a, b),
    ensures
        same_but_tokens(removed(a, id), removed(b, id)),
        removal_news(a, id) == removal_news(b, id),
{
    if a.peers.contains_key(id) {
        if let Some(t) = a.peers[id].session_id {
            assert(a.sessions.dom().contains(t) == b.sessions.dom().contains(t));
        }
    }
    let x = removed(a, id);
    let y = removed(b, id);
    assert(x.peers == y.peers);
    assert(x.sessions.dom() == y.sessions.dom());
    assert forall|t: Seq<char>| #[trigger] x.sessions.contains_key(t) implies x.sessions[t] == (
    SessionView { token: x.sessions[t].token, ..y.sessions[t] }) by {
        assert(a.sessions.contains_key(t));
    }
}

proof fn lemma_all_removed_same_but_tokens(a: StateView, b: StateView, ids: Seq<u128>)
    requires
        same_but_tokens(a, b),
    ensures
        same_but_tokens(all_removed(a, ids), all_removed(b, ids)),
        all_removal_news(a, ids) == all_removal_news(b, ids),
    decreases ids.len(),
{
    if ids.len() > 0 {
        let front = ids.drop_last();
        lemma_all_removed_same_but_tokens(a, b, front);
        lemma_removed_same_but_tokens(all_removed(a, front), all_removed(b, front), ids.last());
    }
}

proof fn lemma_all_lapsed_same_but_tokens(a: StateView, b: StateView, ids: Seq<Seq<char>>)
    requires
        same_but_tokens(a, b),
    ensures
        same_but_tokens(all_lapsed(a, ids), all_lapsed(b, ids)),
        all_lapse_news(a, ids) == all_lapse_news(b, ids),
    decreases ids.len(),
{
    if ids.len() > 0 {
        let front = ids.drop_last();
        lemma_all_lapsed_same_but_tokens(a, b, front);
        let x = all_lapsed(a, front);
        let y = all_lapsed(b, front);
        assert(x.sessions.dom().contains(ids.last()) == y.sessions.dom().contains(ids.last()));
        let u = all_lapsed(a, ids);
        let v = all_lapsed(b, ids);
        assert(u.peers == v.peers);
        assert(u.sessions.dom() == v.sessions.dom());
        assert forall|t: Seq<char>| #[trigger] u.sessions.contains_key(t) implies u.sessions[t]
            == (SessionView { token: u.sessions[t].token, ..v.sessions[t] }) by {
            assert(x.sessions.contains_key(t));
        }
    }
}

proof fn lemma_overdue_same_but_tokens(
    a: StateView,
    b: StateView,
    peers: Seq<u128>,
    sessions: Seq<Seq<char>>,
    now: u64,
)
    requires
        same_but_tokens(a, b),
        forall|i: int| 0 <= i < sessions.len() ==> a.sessions.contains_key(#[trigger] sessions[i]),
    ensures
        stale_ids(a, peers, now) == stale_ids(b, peers, now),
        expired_ids(a, sessions, now) == expired_ids(b, sessions, now),
    decreases peers.len() + sessions.len(),
{
    if peers.len() > 0 {
        lemma_overdue_same_but_tokens(a, b, peers.drop_last(), sessions, now);
    }
    if sessions.len() > 0 {
        let front = sessions.drop_last();
        assert forall|i: int| 0 <= i < front.len() implies a.sessions.contains_key(
            #[trigger] front[i],
        ) by {
            assert(front[i] == sessions[i]);
        }
        lemma_overdue_same_but_tokens(a, b, peers, front, now);
        assert(a.sessions.contains_key(sessions[sessions.len() - 1]));
    }
}

/// No token stands in the news of a peer that leaves or of clearing away.
pub proof fn tokens_stand_in_no_news(
    a: StateView,
    b: StateView,
    id: u128,
    peers: Seq<u128>,
    sessions: Seq<Seq<char>>,
    now: u64,
)
    requires
        same_but_tokens(a, b),
        walks(a, peers, sessions, now),
    ensures
        removal_news(a, id) == removal_news(b, id),
        cleaning_news(a, peers, sessions, now) == cleaning_news(b, peers, sessions, now),
{
    lemma_removed_same_but_tokens(a, b, id);
    lemma_overdue_same_but_tokens(a, b, peers, Seq::empty(), now);
    let stale = stale_ids(a, peers, now);
    lemma_all_removed_same_but_tokens(a, b, stale);
    let x = all_removed(a, stale);
    let y = all_removed(b, stale);
    assert forall|i: int| 0 <= i < sessions.len() implies x.sessions.contains_key(
        #[trigger] sessions[i],
    ) by {
        assert(sessions.to_set().contains(sessions[i]));
    }
    lemma_overdue_same_but_tokens(x, y, peers, sessions, now);
    lemma_all_lapsed_same_but_tokens(x, y, expired_ids(x, sessions, now));
}

/// What is answered on a connection goes to that connection: neither a frame that
/// comes in nor an answer sends anything to any peer's channel.
pub proof fn answers_go_to_nobody_else(
    s: StateView,
    id: u128,
    frame: Frame,
    now: u64,
    error: Option<AppErrorView>,
)
    ensures
        frame_reaction(s, id, frame, now).0.sent == s.sent,
        answer_reaction(s, id, error).0.sent == s.sent,
{
}

/// Every message that goes out bears the protocol version.
pub proof fn deliveries_bear_the_version(
    s: StateView,
    id: u128,
    message: ClientMessageView,
    now: u64,
    new_transfer_id: Seq<char>,
    new_token: Seq<char>,
    i: int,
)
    requires
        planned(s, id, message, now, new_transfer_id, new_token) matches Ok(plan) && 0 <= i
            < plan.1.len(),
    ensures
        (planned(s, id, message, now, new_transfer_id, new_token)->Ok_0).1[i].1.version == "1"@,
{
}

/// Every answer on a connection bears the protocol version.
pub proof fn replies_bear_the_version(
    s: StateView,
    id: u128,
    frame: Frame,
    now: u64,
    error: Option<AppErrorView>,
)
    ensures
        frame_reaction(s, id, frame, now).1.reply matches Some(m) ==> m.version == "1"@,
        answer_reaction(s, id, error).1.reply matches Some(m) ==> m.version == "1"@,
{
}

} // verus!
