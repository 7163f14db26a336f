//! Laws on peers that leave and sessions that expire, and on who is told.
use vstd::prelude::*;

use crate::ids::id_text;
use crate::laws::requests::for_one;
use crate::laws::sessions::{all_leaving_keeps_consistency, is_consistent, is_sound};
use crate::models::{Role, ServerMessageView};
use crate::rules::{
    all_lapse_news, all_lapsed, all_removal_news, all_removed, cleaned, cleaning_news, expired_ids,
    is_expired, is_stale, lapse_news, lapsed, removal_news, removed, stale_ids, Delivery, PeerView,
    SessionView, StateView,
};

verus! {

/// The news, for one peer, that another is gone that had this role.
pub open spec fn told_gone(to: u128, id: u128, role: Role) -> Seq<Delivery> {
    for_one(to, ServerMessageView::PeerDisconnected { peer_id: id_text(id), role })
}

/// The news, for one peer, that its session has expired.
pub open spec fn told_expired(to: u128) -> Seq<Delivery> {
    for_one(
        to,
        ServerMessageView::Error { code: "SESSION_EXPIRED"@, message: "Session expired"@ },
    )
}

/// Whether a connected peer is in this session, and the session is open.
pub open spec fn is_in(s: StateView, id: u128, t: Seq<char>) -> bool {
    s.peers.contains_key(id) && s.peers[id].session_id == Some(t) && s.sessions.contains_key(t)
}

// One peer.

/// Whoever leaves, exactly that peer is not connected any more; of the others
/// nothing changes but, for the other member of the session that the peer was in,
/// the session; and neither the settings nor the clock nor what has gone out
/// change.
pub proof fn leaving_leaves_the_others_alone(s: StateView, id: u128, q: u128)
    ensures
        removed(s, id).config == s.config,
        removed(s, id).clock == s.clock,
        removed(s, id).sent == s.sent,
        removed(s, id).peers.contains_key(q) <==> s.peers.contains_key(q) && q != id,
        s.peers.contains_key(q) && q != id ==> removed(s, id).peers[q] == (PeerView {
            session_id: removed(s, id).peers[q].session_id,
            ..s.peers[q]
        }),
        s.peers.contains_key(q) && q != id && !(exists|t: Seq<char>|
            #[trigger] is_in(s, id, t) && (s.sessions[t].sender_id == Some(q)
                || s.sessions[t].receiver_id == Some(q))) ==> removed(s, id).peers[q]
            == s.peers[q],
{
    if s.peers.contains_key(id) {
        if let Some(t) = s.peers[id].session_id {
            assert(s.sessions.contains_key(t) ==> is_in(s, id, t));
        }
    }
}

/// A peer that leaves and is neither the sender nor the receiver of the session
/// that it is in, or is in none that is open, leaves every session and every other
/// peer as it was, and nobody is told.
pub proof fn outsider_leaves_silently(s: StateView, id: u128)
    requires
        forall|t: Seq<char>| #[trigger]
            is_in(s, id, t) ==> s.sessions[t].sender_id != Some(id) && s.sessions[t].receiver_id
                != Some(id),
    ensures
        removed(s, id).sessions == s.sessions,
        removed(s, id).peers == s.peers.remove(id),
        removal_news(s, id) == Seq::<Delivery>::empty(),
{
    if s.peers.contains_key(id) {
        if let Some(t) = s.peers[id].session_id {
            if s.sessions.contains_key(t) {
                assert(is_in(s, id, t));
            }
        }
    } else {
        assert(s.peers.remove(id) == s.peers);
    }
}

/// A sender that leaves closes the session that it is in and no other. The
/// session's receiver, where it has one, and nobody else, is told, and, if it is
/// connected, is in no session; everybody else is as before.
pub proof fn sender_takes_its_session_along(s: StateView, id: u128, t: Seq<char>)
    requires
        is_in(s, id, t),
        s.sessions[t].sender_id == Some(id),
    ensures
        removed(s, id).sessions == s.sessions.remove(t),
        match s.sessions[t].receiver_id {
            None => {
                &&& removed(s, id).peers == s.peers.remove(id)
                &&& removal_news(s, id) == Seq::<Delivery>::empty()
            },
            Some(r) => {
                &&& removal_news(s, id) == told_gone(r, id, Role::Sender)
                &&& removed(s, id).peers == (if r != id && s.peers.contains_key(r) {
                    s.peers.remove(id).insert(
                        r,
                        PeerView { session_id: None, ..s.peers[r] },
                    )
                } else {
                    s.peers.remove(id)
                })
            },
        },
{
}

/// A receiver that leaves frees its place in the session that it is in, and changes
/// nothing else of it or of any other. The session's sender, and nobody else, is
/// told, and, if it is connected, is in the session.
pub proof fn receiver_frees_its_place(s: StateView, id: u128, t: Seq<char>)
    requires
        is_in(s, id, t),
        s.sessions[t].sender_id != Some(id),
        s.sessions[t].receiver_id == Some(id),
    ensures
        removed(s, id).sessions == s.sessions.insert(
            t,
            SessionView { receiver_id: None, ..s.sessions[t] },
        ),
        match s.sessions[t].sender_id {
            None => {
                &&& removed(s, id).peers == s.peers.remove(id)
                &&& removal_news(s, id) == Seq::<Delivery>::empty()
            },
            Some(p) => {
                &&& removal_news(s, id) == told_gone(p, id, Role::Receiver)
                &&& removed(s, id).peers == (if s.peers.contains_key(p) {
                    s.peers.remove(id).insert(
                        p,
                        PeerView { session_id: Some(t), ..s.peers[p] },
                    )
                } else {
                    s.peers.remove(id)
                })
            },
        },
{
}

// Several peers.

/// Letting peers leave in two goes is letting them leave in one: what the second
/// go finds is what the first has left, and the news of the second comes behind
/// that of the first. Letting one leave is what it is for that one, and letting
/// none leave is nothing.
pub proof fn leaving_goes_by_turns(s: StateView, first: Seq<u128>, second: Seq<u128>, id: u128)
    ensures
        all_removed(s, first + second) == all_removed(all_removed(s, first), second),
        all_removal_news(s, first + second) == all_removal_news(s, first) + all_removal_news(
            all_removed(s, first),
            second,
        ),
        all_removed(s, seq![id]) == removed(s, id),
        all_removal_news(s, seq![id]) == removal_news(s, id),
        all_removed(s, Seq::empty()) == s,
        all_removal_news(s, Seq::empty()) == Seq::<Delivery>::empty(),
    decreases second.len(),
{
    assert(seq![id].drop_last() == Seq::<u128>::empty());
    assert(all_removed(s, seq![id].drop_last()) == s);
    assert(all_removal_news(s, seq![id].drop_last()) == Seq::<Delivery>::empty());
    assert(all_removal_news(s, seq![id]) == removal_news(s, id));
    let all = first + second;
    if second.len() > 0 {
        leaving_goes_by_turns(s, first, second.drop_last(), id);
        assert(all.drop_last() == first + second.drop_last());
        assert(all.last() == second.last());
        let mid = all_removed(s, first);
        assert(all_removal_news(s, all) == all_removal_news(s, first) + (all_removal_news(
            mid,
            second.drop_last(),
        ) + removal_news(all_removed(mid, second.drop_last()), second.last())));
    } else {
        assert(all == first);
        assert(all_removal_news(s, first) + Seq::<Delivery>::empty() == all_removal_news(s, first));
    }
}

/// Of peers that leave one after the other, the news is the news of each: all that
/// is told when one of them leaves, given who has left before it, is in it.
pub proof fn no_news_is_left_out(s: StateView, ids: Seq<u128>, i: int, d: Delivery)
    requires
        0 <= i < ids.len(),
        removal_news(all_removed(s, ids.take(i)), ids[i]).contains(d),
    ensures
        all_removal_news(s, ids).contains(d),
{
    let first = ids.take(i);
    let rest = ids.skip(i);
    let mid = all_removed(s, first);
    let one = seq![ids[i]];
    let later = ids.skip(i + 1);
    assert(first + rest == ids);
    assert(one + later == rest);
    leaving_goes_by_turns(s, first, rest, ids[i]);
    leaving_goes_by_turns(mid, one, later, ids[i]);
    let a = all_removal_news(s, first);
    let b = removal_news(mid, ids[i]);
    let c = all_removal_news(all_removed(mid, one), later);
    let j = choose|j: int| 0 <= j < b.len() && b[j] == d;
    assert(all_removal_news(s, ids) == a + (b + c));
    assert((a + (b + c))[a.len() + j] == d);
}

/// All news of peers that leave one after the other is told when one of them
/// leaves.
pub proof fn no_news_is_made_up(s: StateView, ids: Seq<u128>, d: Delivery) -> (i: int)
    requires
        all_removal_news(s, ids).contains(d),
    ensures
        0 <= i < ids.len(),
        removal_news(all_removed(s, ids.take(i)), ids[i]).contains(d),
    decreases ids.len(),
{
    let front = ids.drop_last();
    let n = ids.len() - 1;
    let a = all_removal_news(s, front);
    let b = removal_news(all_removed(s, front), ids.last());
    let j = choose|j: int| 0 <= j < all_removal_news(s, ids).len() && all_removal_news(s, ids)[j]
        == d;
    assert(all_removal_news(s, ids) == a + b);
    if j < a.len() {
        assert(a[j] == d);
        assert(a.contains(d));
        let i = no_news_is_made_up(s, front, d);
        assert(front.take(i) == ids.take(i));
        i
    } else {
        assert(b[j - a.len()] == d);
        assert(ids.take(n) == front);
        n
    }
}

/// Whether this session is the only one, if any, that names a peer as its receiver.
pub open spec fn receives_only_in(s: StateView, id: u128, t: Seq<char>) -> bool {
    forall|u: Seq<char>| #[trigger]
        s.sessions.contains_key(u) && s.sessions[u].receiver_id == Some(id) ==> u == t
}

/// Peers that leave touch neither the members of a session that stay, nor the
/// session.
proof fn lemma_members_stay(
    s: StateView,
    ids: Seq<u128>,
    t: Seq<char>,
    sender: u128,
    receiver: u128,
)
    requires
        is_consistent(s),
        s.sessions.contains_key(t),
        s.sessions[t].sender_id == Some(sender),
        s.sessions[t].receiver_id == Some(receiver),
        s.peers.contains_key(receiver),
        receives_only_in(s, receiver, t),
        !ids.contains(sender),
        !ids.contains(receiver),
    ensures
        ({
            let after = all_removed(s, ids);
            &&& after.sessions.contains_key(t)
            &&& after.sessions[t] == s.sessions[t]
            &&& after.peers.contains_key(sender)
            &&& after.peers.contains_key(receiver)
            &&& after.peers[sender].session_id == s.peers[sender].session_id
            &&& after.peers[receiver].session_id == s.peers[receiver].session_id
            &&& after.peers[receiver].role == s.peers[receiver].role
            &&& receives_only_in(after, receiver, t)
        }),
    decreases ids.len(),
{
    assert(is_sound(s, t));
    if ids.len() > 0 {
        let front = ids.drop_last();
        let last = ids.last();
        assert(ids[ids.len() - 1] == last);
        assert forall|x: u128| front.contains(x) implies ids.contains(x) by {
            let i = choose|i: int| 0 <= i < front.len() && front[i] == x;
            assert(ids[i] == x);
        }
        lemma_members_stay(s, front, t, sender, receiver);
        let before = all_removed(s, front);
        all_leaving_keeps_consistency(s, front);
        assert(is_sound(before, t));
        if before.peers.contains_key(last) {
            if let Some(own) = before.peers[last].session_id {
                if before.sessions.contains_key(own) {
                    assert(is_sound(before, own));
                    assert(before.sessions[own].receiver_id == Some(receiver) ==> own == t);
                }
            }
        }
        let after = all_removed(s, ids);
        assert forall|u: Seq<char>| #[trigger]
            after.sessions.contains_key(u) && after.sessions[u].receiver_id == Some(
                receiver,
            ) implies u == t by {
            assert(before.sessions.contains_key(u));
        }
    }
}

/// The first place at which a sequence holds something.
proof fn lemma_first(ids: Seq<u128>, x: u128) -> (i: int)
    requires
        ids.contains(x),
    ensures
        0 <= i < ids.len(),
        ids[i] == x,
        !ids.take(i).contains(x),
    decreases ids.len(),
{
    let front = ids.drop_last();
    if front.contains(x) {
        let i = lemma_first(front, x);
        assert(front.take(i) == ids.take(i));
        i
    } else {
        let k = choose|k: int| 0 <= k < ids.len() && ids[k] == x;
        if k < ids.len() - 1 {
            assert(front[k] == x);
        }
        assert(ids.take(ids.len() - 1) == front);
        ids.len() - 1
    }
}

proof fn lemma_take_contains(ids: Seq<u128>, i: int, x: u128)
    requires
        0 <= i <= ids.len(),
        ids.take(i).contains(x),
    ensures
        ids.contains(x),
{
    let k = choose|k: int| 0 <= k < i && ids.take(i)[k] == x;
    assert(ids[k] == x);
}

/// When several peers leave, the sender of every session whose receiver is among
/// them, and that stays itself, is told that the receiver is gone, however many
/// leave and in whatever order.
pub proof fn every_sender_left_behind_is_told(
    s: StateView,
    ids: Seq<u128>,
    t: Seq<char>,
    sender: u128,
    receiver: u128,
)
    requires
        is_consistent(s),
        s.sessions.contains_key(t),
        s.sessions[t].sender_id == Some(sender),
        s.sessions[t].receiver_id == Some(receiver),
        s.peers.contains_key(receiver),
        s.peers[receiver].session_id == Some(t),
        receives_only_in(s, receiver, t),
        ids.contains(receiver),
        !ids.contains(sender),
    ensures
        all_removal_news(s, ids).contains(told_gone(sender, receiver, Role::Receiver)[0]),
{
    let i = lemma_first(ids, receiver);
    let first = ids.take(i);
    if first.contains(sender) {
        lemma_take_contains(ids, i, sender);
    }
    lemma_members_stay(s, first, t, sender, receiver);
    let before = all_removed(s, first);
    all_leaving_keeps_consistency(s, first);
    assert(is_sound(s, t));
    assert(is_sound(before, t));
    assert(is_in(before, receiver, t));
    receiver_frees_its_place(before, receiver, t);
    let news = told_gone(sender, receiver, Role::Receiver);
    assert(removal_news(before, receiver) == news);
    assert(news[0] == news[0] && news.len() == 1);
    assert(news.contains(news[0]));
    no_news_is_left_out(s, ids, i, news[0]);
}

/// When several peers leave, the receiver of every session whose sender is among
/// them, and that stays itself, is told that the sender is gone, however many leave
/// and in whatever order.
pub proof fn every_receiver_left_behind_is_told(
    s: StateView,
    ids: Seq<u128>,
    t: Seq<char>,
    sender: u128,
    receiver: u128,
)
    requires
        is_consistent(s),
        s.sessions.contains_key(t),
        s.sessions[t].sender_id == Some(sender),
        s.sessions[t].receiver_id == Some(receiver),
        s.peers.contains_key(receiver),
        receives_only_in(s, receiver, t),
        ids.contains(sender),
        !ids.contains(receiver),
    ensures
        all_removal_news(s, ids).contains(told_gone(receiver, sender, Role::Sender)[0]),
{
    let i = lemma_first(ids, sender);
    let first = ids.take(i);
    if first.contains(receiver) {
        lemma_take_contains(ids, i, receiver);
    }
    lemma_members_stay(s, first, t, sender, receiver);
    let before = all_removed(s, first);
    all_leaving_keeps_consistency(s, first);
    assert(is_sound(s, t));
    assert(is_sound(before, t));
    assert(is_in(before, sender, t));
    sender_takes_its_session_along(before, sender, t);
    let news = told_gone(receiver, sender, Role::Sender);
    assert(removal_news(before, sender) == news);
    assert(news.len() == 1);
    assert(news.contains(news[0]));
    no_news_is_left_out(s, ids, i, news[0]);
}

// Sessions that expire.

/// A session is expired exactly from the moment after its time on, whatever else
/// is known of it.
pub proof fn session_expires_after_its_time(session: SessionView, now: u64)
    ensures
        is_expired(session, now) <==> now > session.expires_at,
{
}

/// A peer has gone silent exactly when more whole seconds than the timeout have
/// passed since it was last heard of, whatever else is known of it.
pub proof fn peer_is_silent_after_the_timeout(s: StateView, p: PeerView, now: u64)
    ensures
        is_stale(s, p, now) <==> now - p.last_heartbeat >= (s.config.heartbeat_timeout_seconds + 1)
            * 1_000_000_000,
{
    let d = now - p.last_heartbeat;
    let n = s.config.heartbeat_timeout_seconds as int;
    if d > 0 {
        assert(d / 1_000_000_000 > n <==> d >= (n + 1) * 1_000_000_000) by (nonlinear_arith)
            requires
                d > 0,
                n >= 0,
        ;
    }
}

/// A session that expires is closed, and no other is touched; its sender and its
/// receiver, where they are connected, are in none, and nothing else changes. Its
/// sender, and nobody else, is told.
pub proof fn expired_session_is_closed(s: StateView, t: Seq<char>, q: u128)
    ensures
        lapsed(s, t).sessions == s.sessions.remove(t),
        lapsed(s, t).config == s.config,
        lapsed(s, t).clock == s.clock,
        lapsed(s, t).sent == s.sent,
        lapsed(s, t).peers.contains_key(q) <==> s.peers.contains_key(q),
        s.peers.contains_key(q) ==> lapsed(s, t).peers[q] == (if s.sessions.contains_key(t) && (
        s.sessions[t].sender_id == Some(q) || s.sessions[t].receiver_id == Some(q)) {
            PeerView { session_id: None, ..s.peers[q] }
        } else {
            s.peers[q]
        }),
        lapse_news(s, t) == (if s.sessions.contains_key(t) && s.sessions[t].sender_id is Some {
            told_expired(s.sessions[t].sender_id->0)
        } else {
            Seq::<Delivery>::empty()
        }),
{
    if !s.sessions.contains_key(t) {
        assert(s.sessions.remove(t) == s.sessions);
    }
}

/// Closing sessions in two goes is closing them in one; closing one is what it is
/// for that one, and closing none is nothing.
pub proof fn expiry_goes_by_turns(
    s: StateView,
    first: Seq<Seq<char>>,
    second: Seq<Seq<char>>,
    t: Seq<char>,
)
    ensures
        all_lapsed(s, first + second) == all_lapsed(all_lapsed(s, first), second),
        all_lapse_news(s, first + second) == all_lapse_news(s, first) + all_lapse_news(
            all_lapsed(s, first),
            second,
        ),
        all_lapsed(s, seq![t]) == lapsed(s, t),
        all_lapse_news(s, seq![t]) == lapse_news(s, t),
        all_lapsed(s, Seq::empty()) == s,
        all_lapse_news(s, Seq::empty()) == Seq::<Delivery>::empty(),
    decreases second.len(),
{
    assert(seq![t].drop_last() == Seq::<Seq<char>>::empty());
    assert(all_lapsed(s, seq![t].drop_last()) == s);
    assert(all_lapse_news(s, seq![t].drop_last()) == Seq::<Delivery>::empty());
    assert(all_lapse_news(s, seq![t]) == lapse_news(s, t));
    let all = first + second;
    if second.len() > 0 {
        expiry_goes_by_turns(s, first, second.drop_last(), t);
        assert(all.drop_last() == first + second.drop_last());
        assert(all.last() == second.last());
        let mid = all_lapsed(s, first);
        assert(all_lapse_news(s, all) == all_lapse_news(s, first) + (all_lapse_news(
            mid,
            second.drop_last(),
        ) + lapse_news(all_lapsed(mid, second.drop_last()), second.last())));
    } else {
        assert(all == first);
        assert(all_lapse_news(s, first) + Seq::<Delivery>::empty() == all_lapse_news(s, first));
    }
}

/// When several sessions expire, the sender of each is told, however many expire
/// and in whatever order.
pub proof fn every_sender_is_told_of_expiry(
    s: StateView,
    ids: Seq<Seq<char>>,
    t: Seq<char>,
    sender: u128,
)
    requires
        ids.contains(t),
        s.sessions.contains_key(t),
        s.sessions[t].sender_id == Some(sender),
    ensures
        all_lapse_news(s, ids).contains(told_expired(sender)[0]),
    decreases ids.len(),
{
    let front = ids.drop_last();
    let a = all_lapse_news(s, front);
    let b = lapse_news(all_lapsed(s, front), ids.last());
    let d = told_expired(sender)[0];
    assert(all_lapse_news(s, ids) == a + b);
    if front.contains(t) {
        every_sender_is_told_of_expiry(s, front, t, sender);
        let j = choose|j: int| 0 <= j < a.len() && a[j] == d;
        assert((a + b)[j] == d);
    } else {
        let k = choose|k: int| 0 <= k < ids.len() && ids[k] == t;
        if k < ids.len() - 1 {
            assert(front[k] == t);
        }
        lemma_lapsing_spares(s, front, t);
        expired_session_is_closed(all_lapsed(s, front), t, sender);
        assert(b == told_expired(sender));
        assert((a + b)[a.len() as int] == d);
    }
}

proof fn lemma_lapsing_spares(s: StateView, ids: Seq<Seq<char>>, t: Seq<char>)
    requires
        s.sessions.contains_key(t),
        !ids.contains(t),
    ensures
        all_lapsed(s, ids).sessions.contains_key(t),
        all_lapsed(s, ids).sessions[t] == s.sessions[t],
    decreases ids.len(),
{
    if ids.len() > 0 {
        let front = ids.drop_last();
        assert forall|x: Seq<char>| front.contains(x) implies ids.contains(x) by {
            let i = choose|i: int| 0 <= i < front.len() && front[i] == x;
            assert(ids[i] == x);
        }
        assert(ids[ids.len() - 1] == ids.last());
        lemma_lapsing_spares(s, front, t);
        expired_session_is_closed(all_lapsed(s, front), ids.last(), 0);
    }
}

// Clearing away.

/// The peers that are found silent are those walked, in the order of the walk, of
/// which nothing has been heard for longer than the timeout: one after the other,
/// each is found or not by itself alone.
pub proof fn silent_peers_are_found_one_by_one(s: StateView, keys: Seq<u128>, key: u128, now: u64)
    ensures
        stale_ids(s, Seq::empty(), now) == Seq::<u128>::empty(),
        stale_ids(s, keys.push(key), now) == (if now - s.peers[key].last_heartbeat >= (
        s.config.heartbeat_timeout_seconds + 1) * 1_000_000_000 {
            stale_ids(s, keys, now).push(s.peers[key].id)
        } else {
            stale_ids(s, keys, now)
        }),
{
    peer_is_silent_after_the_timeout(s, s.peers[key], now);
    assert(keys.push(key).drop_last() == keys);
}

/// The sessions that are found expired are those walked, in the order of the walk,
/// whose time is over: one after the other, each is found or not by itself alone.
pub proof fn expired_sessions_are_found_one_by_one(
    s: StateView,
    keys: Seq<Seq<char>>,
    key: Seq<char>,
    now: u64,
)
    ensures
        expired_ids(s, Seq::empty(), now) == Seq::<Seq<char>>::empty(),
        expired_ids(s, keys.push(key), now) == (if now > s.sessions[key].expires_at {
            expired_ids(s, keys, now).push(s.sessions[key].transfer_id)
        } else {
            expired_ids(s, keys, now)
        }),
{
    assert(keys.push(key).drop_last() == keys);
}

/// Clearing away is letting the silent peers leave, then closing the sessions of
/// those left that have expired; the news is that of both, none left out.
pub proof fn clearing_away_is_both(
    s: StateView,
    peers: Seq<u128>,
    sessions: Seq<Seq<char>>,
    now: u64,
    d: Delivery,
)
    ensures
        ({
            let silent = stale_ids(s, peers, now);
            let left = all_removed(s, silent);
            let expired = expired_ids(left, sessions, now);
            &&& cleaned(s, peers, sessions, now) == all_lapsed(left, expired)
            &&& cleaning_news(s, peers, sessions, now).len() == all_removal_news(s, silent).len()
                + all_lapse_news(left, expired).len()
            &&& cleaning_news(s, peers, sessions, now).contains(d) <==> all_removal_news(
                s,
                silent,
            ).contains(d) || all_lapse_news(left, expired).contains(d)
        }),
{
    let silent = stale_ids(s, peers, now);
    let left = all_removed(s, silent);
    let a = all_removal_news(s, silent);
    let b = all_lapse_news(left, expired_ids(left, sessions, now));
    let c = cleaning_news(s, peers, sessions, now);
    assert(c == a + b);
    if a.contains(d) {
        let i = choose|i: int| 0 <= i < a.len() && a[i] == d;
        assert(c[i] == d);
    }
    if b.contains(d) {
        let i = choose|i: int| 0 <= i < b.len() && b[i] == d;
        assert(c[a.len() + i] == d);
    }
    if c.contains(d) {
        let i = choose|i: int| 0 <= i < c.len() && c[i] == d;
        if i < a.len() {
            assert(a[i] == d);
        } else {
            assert(b[i - a.len()] == d);
        }
    }
}

} // verus!
