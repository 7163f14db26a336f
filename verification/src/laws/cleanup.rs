//! Laws on clearing away silent peers and expired sessions.
use vstd::prelude::*;

use crate::errors::AppErrorView;
use crate::laws::leaving::{
    clearing_away_is_both, every_receiver_left_behind_is_told, every_sender_is_told_of_expiry,
    every_sender_left_behind_is_told, peer_is_silent_after_the_timeout, receives_only_in,
    told_expired, told_gone,
};
use crate::laws::requests::{heartbeat_is_noted, sending_stops_at_the_first_failure};
use crate::laws::sessions::{is_consistent, is_sound};
use crate::models::{ClientMessageView, Role};
use crate::rules::{
    all_lapse_news, all_lapsed, all_removal_news, all_removed, cleaned, cleaning_news, expired_ids,
    expiry_message, is_expired, is_stale, lapse_news, lapsed, lists, removed, seconds_between,
    session_of, stale_ids, walks, Delivery, StateView,
};
use crate::signaling::{handled, heard_of};

verus! {

/// Whether every peer and every session stands under its own id, a session's
/// sender, if connected, is in the session, and no session's receiver is a
/// session's sender.
pub open spec fn is_orderly(s: StateView) -> bool {
    &&& forall|k: u128| s.peers.contains_key(k) ==> (#[trigger] s.peers[k]).id == k
    &&& forall|t: Seq<char>| #[trigger] s.sessions.contains_key(t) ==> is_owned(s, t)
    &&& forall|t: Seq<char>, u: Seq<char>|
        #![trigger s.sessions.contains_key(t), s.sessions.contains_key(u)]
        s.sessions.contains_key(t) && s.sessions.contains_key(u)
            && s.sessions[t].receiver_id is Some ==> s.sessions[t].receiver_id
            != s.sessions[u].sender_id
}

/// Whether a session stands under its own id, and its sender, if connected, is in
/// it.
pub open spec fn is_owned(s: StateView, t: Seq<char>) -> bool {
    &&& s.sessions[t].transfer_id == t
    &&& s.sessions[t].sender_id matches Some(p) ==> s.peers.contains_key(p)
        ==> s.peers[p].session_id == Some(t)
}

/// A consistent server is orderly.
pub proof fn consistent_is_orderly(s: StateView)
    requires
        is_consistent(s),
    ensures
        is_orderly(s),
{
    assert forall|t: Seq<char>| #[trigger] s.sessions.contains_key(t) implies is_owned(s, t) by {
        assert(is_sound(s, t));
    }
    assert forall|t: Seq<char>, u: Seq<char>|
        #![trigger s.sessions.contains_key(t), s.sessions.contains_key(u)]
        s.sessions.contains_key(t) && s.sessions.contains_key(u)
            && s.sessions[t].receiver_id is Some implies s.sessions[t].receiver_id
        != s.sessions[u].sender_id by {
        assert(is_sound(s, t));
        assert(is_sound(s, u));
    }
}

/// Peers that leave one after the other leave an orderly server orderly.
proof fn lemma_all_removed_orderly(s: StateView, ids: Seq<u128>)
    requires
        is_orderly(s),
    ensures
        is_orderly(all_removed(s, ids)),
    decreases ids.len(),
{
    if ids.len() > 0 {
        let before = all_removed(s, ids.drop_last());
        lemma_all_removed_orderly(s, ids.drop_last());
        let after = all_removed(s, ids);
        assert(after == removed(before, ids.last()));
        assert forall|t: Seq<char>| #[trigger] after.sessions.contains_key(t) implies is_owned(
            after,
            t,
        ) by {
            assert(before.sessions.contains_key(t));
            assert(is_owned(before, t));
            if let Some(own) = session_of(before, ids.last()) {
                assert(before.sessions.contains_key(own));
                assert(is_owned(before, own));
            }
        }
        assert forall|t: Seq<char>, u: Seq<char>|
            #![trigger after.sessions.contains_key(t), after.sessions.contains_key(u)]
            after.sessions.contains_key(t) && after.sessions.contains_key(u)
                && after.sessions[t].receiver_id is Some implies after.sessions[t].receiver_id
            != after.sessions[u].sender_id by {
            assert(before.sessions.contains_key(t) && before.sessions.contains_key(u));
        }
    }
}

/// A peer that leaves takes the session that it sends for along.
proof fn lemma_all_removed_closes(s: StateView, ids: Seq<u128>, p: u128, t: Seq<char>)
    requires
        is_orderly(s),
        ids.contains(p),
        s.peers.contains_key(p),
        s.sessions.contains_key(t),
        s.sessions[t].sender_id == Some(p),
    ensures
        !all_removed(s, ids).sessions.contains_key(t),
    decreases ids.len(),
{
    let front = ids.drop_last();
    lemma_contains(ids, p);
    let before = all_removed(s, front);
    if front.contains(p) {
        lemma_all_removed_closes(s, front, p, t);
        lemma_all_removed_sessions(before, seq![ids.last()], t);
        assert(seq![ids.last()].drop_last() == Seq::<u128>::empty());
        reveal_with_fuel(all_removed, 2);
    } else {
        lemma_all_removed_orderly(s, front);
        lemma_all_removed_peers(s, front, p);
        lemma_all_removed_sessions(s, front, t);
        if before.sessions.contains_key(t) {
            assert(is_owned(before, t));
        }
    }
}

/// What a sequence holds is its last entry and what stands before.
proof fn lemma_contains<A>(keys: Seq<A>, x: A)
    requires
        keys.len() > 0,
    ensures
        keys.contains(x) == (keys.drop_last().contains(x) || x == keys.last()),
{
    let front = keys.drop_last();
    if keys.contains(x) && x != keys.last() {
        let i = choose|i: int| 0 <= i < keys.len() && keys[i] == x;
        assert(front[i] == x);
    }
    if front.contains(x) {
        let i = choose|i: int| 0 <= i < front.len() && front[i] == x;
        assert(keys[i] == x);
    }
    assert(keys[keys.len() - 1] == keys.last());
}

proof fn lemma_stale_ids(s: StateView, keys: Seq<u128>, now: u64, q: u128)
    requires
        forall|i: int| 0 <= i < keys.len() ==> s.peers[#[trigger] keys[i]].id == keys[i],
    ensures
        stale_ids(s, keys, now).contains(q) == (keys.contains(q) && is_stale(s, s.peers[q], now)),
    decreases keys.len(),
{
    if keys.len() > 0 {
        let front = keys.drop_last();
        lemma_stale_ids(s, front, now, q);
        let before = stale_ids(s, front, now);
        let after = stale_ids(s, keys, now);
        lemma_contains(keys, q);
        if is_stale(s, s.peers[keys.last()], now) {
            lemma_contains(after, q);
            assert(after.drop_last() == before);
        }
    }
}

proof fn lemma_expired_ids(s: StateView, keys: Seq<Seq<char>>, now: u64, t: Seq<char>)
    requires
        forall|i: int|
            0 <= i < keys.len() ==> s.sessions[#[trigger] keys[i]].transfer_id == keys[i],
    ensures
        expired_ids(s, keys, now).contains(t) == (keys.contains(t) && is_expired(
            s.sessions[t],
            now,
        )),
    decreases keys.len(),
{
    if keys.len() > 0 {
        let front = keys.drop_last();
        lemma_expired_ids(s, front, now, t);
        let before = expired_ids(s, front, now);
        let after = expired_ids(s, keys, now);
        lemma_contains(keys, t);
        if is_expired(s.sessions[keys.last()], now) {
            lemma_contains(after, t);
            assert(after.drop_last() == before);
        }
    }
}

/// Peers that leave take nobody else along, nor anyone's last sign of life.
proof fn lemma_all_removed_peers(s: StateView, ids: Seq<u128>, q: u128)
    ensures
        all_removed(s, ids).peers.contains_key(q) == (s.peers.contains_key(q) && !ids.contains(q)),
        all_removed(s, ids).peers.contains_key(q) ==> all_removed(s, ids).peers[q].last_heartbeat
            == s.peers[q].last_heartbeat,
        all_removed(s, ids).config == s.config,
    decreases ids.len(),
{
    if ids.len() > 0 {
        let front = ids.drop_last();
        lemma_all_removed_peers(s, front, q);
        lemma_contains(ids, q);
    }
}

/// Peers that leave open no session, and close none but those that they send
/// for.
proof fn lemma_all_removed_sessions(s: StateView, ids: Seq<u128>, t: Seq<char>)
    ensures
        ({
            let after = all_removed(s, ids);
            &&& after.sessions.contains_key(t) ==> s.sessions.contains_key(t)
            &&& after.sessions.contains_key(t) ==> after.sessions[t].expires_at
                == s.sessions[t].expires_at && after.sessions[t].transfer_id
                == s.sessions[t].transfer_id && after.sessions[t].sender_id
                == s.sessions[t].sender_id && after.sessions[t].token == s.sessions[t].token
            &&& s.sessions.contains_key(t) && (s.sessions[t].sender_id matches Some(p)
                ==> !ids.contains(p)) ==> after.sessions.contains_key(t)
        }),
    decreases ids.len(),
{
    if ids.len() > 0 {
        let front = ids.drop_last();
        lemma_all_removed_sessions(s, front, t);
        if let Some(p) = s.sessions[t].sender_id {
            lemma_contains(ids, p);
        }
    }
}

/// Sessions that expire take no peer and no other session along.
proof fn lemma_all_lapsed(s: StateView, ids: Seq<Seq<char>>, q: u128, t: Seq<char>)
    ensures
        ({
            let after = all_lapsed(s, ids);
            &&& after.peers.contains_key(q) == s.peers.contains_key(q)
            &&& s.peers.contains_key(q) ==> after.peers[q].last_heartbeat
                == s.peers[q].last_heartbeat
            &&& after.sessions.contains_key(t) == (s.sessions.contains_key(t) && !ids.contains(t))
            &&& after.sessions.contains_key(t) ==> after.sessions[t] == s.sessions[t]
            &&& after.config == s.config
        }),
    decreases ids.len(),
{
    if ids.len() > 0 {
        let front = ids.drop_last();
        lemma_all_lapsed(s, front, q, t);
        lemma_contains(ids, t);
    }
}

proof fn lemma_listed<K>(keys: Seq<K>, set: Set<K>, k: K)
    requires
        lists(keys, set),
    ensures
        keys.contains(k) == set.contains(k),
{
    assert(keys.to_set().contains(k) == keys.contains(k));
}

/// Clearing away leaves exactly the peers that have not gone silent, whatever
/// the order in which the tables are walked.
pub proof fn cleaning_leaves_live_peers(
    s: StateView,
    peers: Seq<u128>,
    sessions: Seq<Seq<char>>,
    now: u64,
    q: u128,
)
    requires
        is_orderly(s),
        walks(s, peers, sessions, now),
    ensures
        cleaned(s, peers, sessions, now).peers.contains_key(q) == (s.peers.contains_key(q)
            && !is_stale(s, s.peers[q], now)),
{
    assert forall|i: int| 0 <= i < peers.len() implies s.peers[#[trigger] peers[i]].id
        == peers[i] by {
        assert(peers.contains(peers[i]));
        lemma_listed(peers, s.peers.dom(), peers[i]);
    }
    let stale = stale_ids(s, peers, now);
    lemma_stale_ids(s, peers, now, q);
    lemma_listed(peers, s.peers.dom(), q);
    let left = all_removed(s, stale);
    lemma_all_removed_peers(s, stale, q);
    lemma_all_lapsed(left, expired_ids(left, sessions, now), q, Seq::empty());
}

/// A peer that has given a sign of life within the timeout is not cleared away.
pub proof fn sign_of_life_keeps_a_peer(
    s: StateView,
    id: u128,
    heard_at: u64,
    peers: Seq<u128>,
    sessions: Seq<Seq<char>>,
    now: u64,
)
    requires
        is_orderly(s),
        s.peers.contains_key(id),
        seconds_between(heard_at, now) <= s.config.heartbeat_timeout_seconds,
        walks(heard_of(s, id, heard_at), peers, sessions, now),
    ensures
        cleaned(heard_of(s, id, heard_at), peers, sessions, now).peers.contains_key(id),
{
    let heard = heard_of(s, id, heard_at);
    assert forall|t: Seq<char>| #[trigger] heard.sessions.contains_key(t) implies is_owned(
        heard,
        t,
    ) by {
        assert(is_owned(s, t));
    }
    assert(is_orderly(heard)) by {
        assert forall|t: Seq<char>, u: Seq<char>|
            #![trigger heard.sessions.contains_key(t), heard.sessions.contains_key(u)]
            heard.sessions.contains_key(t) && heard.sessions.contains_key(u)
                && heard.sessions[t].receiver_id is Some implies heard.sessions[t].receiver_id
            != heard.sessions[u].sender_id by {
            assert(s.sessions.contains_key(t) && s.sessions.contains_key(u));
        }
    }
    cleaning_leaves_live_peers(heard_of(s, id, heard_at), peers, sessions, now, id);
}

/// A heartbeat of any connected peer keeps the peer: clearing away within the
/// timeout after it leaves the peer connected.
pub proof fn heartbeat_keeps_a_peer(
    s: StateView,
    id: u128,
    heard_at: u64,
    new_transfer_id: Seq<char>,
    new_token: Seq<char>,
    after: StateView,
    error: Option<AppErrorView>,
    peers: Seq<u128>,
    sessions: Seq<Seq<char>>,
    now: u64,
)
    requires
        is_orderly(s),
        s.peers.contains_key(id),
        handled(
            s,
            id,
            ClientMessageView::Heartbeat,
            heard_at,
            new_transfer_id,
            new_token,
            after,
            error,
        ),
        now - heard_at < (s.config.heartbeat_timeout_seconds + 1) * 1_000_000_000,
        walks(after, peers, sessions, now),
    ensures
        after.peers[id].last_heartbeat == heard_at,
        cleaned(after, peers, sessions, now).peers.contains_key(id),
{
    heartbeat_is_noted(s, id, heard_at, new_transfer_id, new_token, after, error);
    let _ = sending_stops_at_the_first_failure(
        s,
        id,
        ClientMessageView::Heartbeat,
        heard_at,
        new_transfer_id,
        new_token,
        after,
        error,
    );
    assert(is_orderly(after)) by {
        assert forall|t: Seq<char>| #[trigger] after.sessions.contains_key(t) implies is_owned(
            after,
            t,
        ) by {
            assert(s.sessions.contains_key(t));
            assert(is_owned(s, t));
        }
        assert forall|t: Seq<char>, u: Seq<char>|
            #![trigger after.sessions.contains_key(t), after.sessions.contains_key(u)]
            after.sessions.contains_key(t) && after.sessions.contains_key(u)
                && after.sessions[t].receiver_id is Some implies after.sessions[t].receiver_id
            != after.sessions[u].sender_id by {
            assert(s.sessions.contains_key(t) && s.sessions.contains_key(u));
        }
    }
    peer_is_silent_after_the_timeout(after, after.peers[id], now);
    cleaning_leaves_live_peers(after, peers, sessions, now, id);
}

/// Clearing away finds exactly the peers that have gone silent.
proof fn lemma_silent(s: StateView, peers: Seq<u128>, now: u64, q: u128)
    requires
        is_orderly(s),
        lists(peers, s.peers.dom()),
    ensures
        stale_ids(s, peers, now).contains(q) <==> s.peers.contains_key(q) && is_stale(
            s,
            s.peers[q],
            now,
        ),
{
    assert forall|i: int| 0 <= i < peers.len() implies s.peers[#[trigger] peers[i]].id
        == peers[i] by {
        assert(peers.contains(peers[i]));
        lemma_listed(peers, s.peers.dom(), peers[i]);
    }
    lemma_stale_ids(s, peers, now, q);
    lemma_listed(peers, s.peers.dom(), q);
}

/// When peers are cleared away, every member of a session that stays is told that
/// the other, where it has gone silent, is gone, however many are cleared away at
/// once.
pub proof fn clearing_away_tells_whoever_stays(
    s: StateView,
    peers: Seq<u128>,
    sessions: Seq<Seq<char>>,
    now: u64,
    t: Seq<char>,
    sender: u128,
    receiver: u128,
)
    requires
        is_consistent(s),
        walks(s, peers, sessions, now),
        s.sessions.contains_key(t),
        s.sessions[t].sender_id == Some(sender),
        s.sessions[t].receiver_id == Some(receiver),
        s.peers.contains_key(receiver),
        s.peers[receiver].session_id == Some(t),
        receives_only_in(s, receiver, t),
    ensures
        ({
            let silent = (s.config.heartbeat_timeout_seconds + 1) * 1_000_000_000;
            let news = cleaning_news(s, peers, sessions, now);
            &&& now - s.peers[receiver].last_heartbeat >= silent && now
                - s.peers[sender].last_heartbeat < silent ==> news.contains(
                told_gone(sender, receiver, Role::Receiver)[0],
            )
            &&& now - s.peers[sender].last_heartbeat >= silent && now
                - s.peers[receiver].last_heartbeat < silent ==> news.contains(
                told_gone(receiver, sender, Role::Sender)[0],
            )
        }),
{
    consistent_is_orderly(s);
    assert(is_sound(s, t));
    lemma_silent(s, peers, now, sender);
    lemma_silent(s, peers, now, receiver);
    peer_is_silent_after_the_timeout(s, s.peers[sender], now);
    peer_is_silent_after_the_timeout(s, s.peers[receiver], now);
    let ids = stale_ids(s, peers, now);
    if ids.contains(receiver) && !ids.contains(sender) {
        every_sender_left_behind_is_told(s, ids, t, sender, receiver);
        clearing_away_is_both(
            s,
            peers,
            sessions,
            now,
            told_gone(sender, receiver, Role::Receiver)[0],
        );
    }
    if ids.contains(sender) && !ids.contains(receiver) {
        every_receiver_left_behind_is_told(s, ids, t, sender, receiver);
        clearing_away_is_both(
            s,
            peers,
            sessions,
            now,
            told_gone(receiver, sender, Role::Sender)[0],
        );
    }
}

/// When sessions are cleared away, the sender of each that has expired, and that
/// stays itself, is told, however many are cleared away at once.
pub proof fn clearing_away_tells_of_every_expiry(
    s: StateView,
    peers: Seq<u128>,
    sessions: Seq<Seq<char>>,
    now: u64,
    t: Seq<char>,
    sender: u128,
)
    requires
        is_orderly(s),
        walks(s, peers, sessions, now),
        s.sessions.contains_key(t),
        s.sessions[t].sender_id == Some(sender),
        s.peers.contains_key(sender),
        now > s.sessions[t].expires_at,
        now - s.peers[sender].last_heartbeat < (s.config.heartbeat_timeout_seconds + 1)
            * 1_000_000_000,
    ensures
        cleaning_news(s, peers, sessions, now).contains(told_expired(sender)[0]),
{
    let stale = stale_ids(s, peers, now);
    let left = all_removed(s, stale);
    lemma_silent(s, peers, now, sender);
    peer_is_silent_after_the_timeout(s, s.peers[sender], now);
    lemma_all_removed_sessions(s, stale, t);
    assert forall|i: int| 0 <= i < sessions.len() implies left.sessions[
        #[trigger] sessions[i]
    ].transfer_id == sessions[i] by {
        assert(sessions.contains(sessions[i]));
        lemma_listed(sessions, left.sessions.dom(), sessions[i]);
        lemma_all_removed_sessions(s, stale, sessions[i]);
        assert(is_owned(s, sessions[i]));
    }
    lemma_listed(sessions, left.sessions.dom(), t);
    lemma_expired_ids(left, sessions, now, t);
    every_sender_is_told_of_expiry(left, expired_ids(left, sessions, now), t, sender);
    clearing_away_is_both(s, peers, sessions, now, told_expired(sender)[0]);
}

/// Clearing away adds no connection.
pub proof fn cleaning_keeps_the_cap(
    s: StateView,
    peers: Seq<u128>,
    sessions: Seq<Seq<char>>,
    now: u64,
)
    requires
        s.peers.dom().finite(),
    ensures
        cleaned(s, peers, sessions, now).peers.dom().finite(),
        cleaned(s, peers, sessions, now).peers.len() <= s.peers.len(),
{
    let after = cleaned(s, peers, sessions, now);
    let left = all_removed(s, stale_ids(s, peers, now));
    assert forall|q: u128| after.peers.dom().contains(q) implies s.peers.dom().contains(q) by {
        lemma_all_removed_peers(s, stale_ids(s, peers, now), q);
        lemma_all_lapsed(left, expired_ids(left, sessions, now), q, Seq::empty());
    }
    vstd::set_lib::lemma_len_subset(after.peers.dom(), s.peers.dom());
}

/// Clearing away leaves exactly the sessions that have not expired and whose
/// sender has not gone silent, whatever the order in which the tables are
/// walked.
pub proof fn cleaning_leaves_live_sessions(
    s: StateView,
    peers: Seq<u128>,
    sessions: Seq<Seq<char>>,
    now: u64,
    t: Seq<char>,
)
    requires
        is_orderly(s),
        walks(s, peers, sessions, now),
    ensures
        cleaned(s, peers, sessions, now).sessions.contains_key(t) == (s.sessions.contains_key(t)
            && !is_expired(s.sessions[t], now) && !(s.sessions[t].sender_id matches Some(p)
            && s.peers.contains_key(p) && is_stale(s, s.peers[p], now))),
{
    assert forall|i: int| 0 <= i < peers.len() implies s.peers[#[trigger] peers[i]].id
        == peers[i] by {
        assert(peers.contains(peers[i]));
        lemma_listed(peers, s.peers.dom(), peers[i]);
    }
    let stale = stale_ids(s, peers, now);
    let left = all_removed(s, stale);
    assert forall|i: int| 0 <= i < sessions.len() implies left.sessions[
        #[trigger] sessions[i]
    ].transfer_id == sessions[i] by {
        assert(sessions.contains(sessions[i]));
        lemma_listed(sessions, left.sessions.dom(), sessions[i]);
        lemma_all_removed_sessions(s, stale, sessions[i]);
        assert(is_owned(s, sessions[i]));
    }
    lemma_all_removed_sessions(s, stale, t);
    lemma_listed(sessions, left.sessions.dom(), t);
    lemma_expired_ids(left, sessions, now, t);
    lemma_all_lapsed(left, expired_ids(left, sessions, now), 0, t);
    if s.sessions.contains_key(t) {
        if let Some(p) = s.sessions[t].sender_id {
            lemma_stale_ids(s, peers, now, p);
            lemma_listed(peers, s.peers.dom(), p);
            if s.peers.contains_key(p) && is_stale(s, s.peers[p], now) {
                lemma_all_removed_closes(s, stale, p, t);
            }
        }
    }
}

proof fn lemma_none_stale(s: StateView, keys: Seq<u128>, now: u64)
    requires
        forall|i: int| 0 <= i < keys.len() ==> !is_stale(s, s.peers[#[trigger] keys[i]], now),
    ensures
        stale_ids(s, keys, now) == Seq::<u128>::empty(),
    decreases keys.len(),
{
    if keys.len() > 0 {
        let front = keys.drop_last();
        assert forall|i: int| 0 <= i < front.len() implies !is_stale(
            s,
            s.peers[#[trigger] front[i]],
            now,
        ) by {
            assert(front[i] == keys[i]);
        }
        lemma_none_stale(s, front, now);
        assert(keys.last() == keys[keys.len() - 1]);
    }
}

proof fn lemma_none_expired(s: StateView, keys: Seq<Seq<char>>, now: u64)
    requires
        forall|i: int| 0 <= i < keys.len() ==> !is_expired(s.sessions[#[trigger] keys[i]], now),
    ensures
        expired_ids(s, keys, now) == Seq::<Seq<char>>::empty(),
    decreases keys.len(),
{
    if keys.len() > 0 {
        let front = keys.drop_last();
        assert forall|i: int| 0 <= i < front.len() implies !is_expired(
            s.sessions[#[trigger] front[i]],
            now,
        ) by {
            assert(front[i] == keys[i]);
        }
        lemma_none_expired(s, front, now);
        assert(keys.last() == keys[keys.len() - 1]);
    }
}

/// Clearing away a second time at the same moment changes nothing and tells
/// nobody, whatever the orders in which the tables are walked.
pub proof fn cleaning_twice_is_cleaning_once(
    s: StateView,
    peers: Seq<u128>,
    sessions: Seq<Seq<char>>,
    now: u64,
    peers_again: Seq<u128>,
    sessions_again: Seq<Seq<char>>,
)
    requires
        is_orderly(s),
        walks(s, peers, sessions, now),
        walks(cleaned(s, peers, sessions, now), peers_again, sessions_again, now),
    ensures
        cleaned(cleaned(s, peers, sessions, now), peers_again, sessions_again, now) == cleaned(
            s,
            peers,
            sessions,
            now,
        ),
        cleaning_news(cleaned(s, peers, sessions, now), peers_again, sessions_again, now)
            == Seq::<Delivery>::empty(),
{
    let after = cleaned(s, peers, sessions, now);
    let stale = stale_ids(s, peers, now);
    let left = all_removed(s, stale);
    let expired = expired_ids(left, sessions, now);
    assert forall|i: int| 0 <= i < peers_again.len() implies !is_stale(
        after,
        after.peers[#[trigger] peers_again[i]],
        now,
    ) by {
        let q = peers_again[i];
        assert(peers_again.contains(q));
        lemma_listed(peers_again, after.peers.dom(), q);
        cleaning_leaves_live_peers(s, peers, sessions, now, q);
        lemma_all_removed_peers(s, stale, q);
        lemma_all_lapsed(left, expired, q, Seq::empty());
    }
    lemma_none_stale(after, peers_again, now);
    assert(all_removed(after, Seq::<u128>::empty()) == after);
    assert forall|i: int| 0 <= i < sessions_again.len() implies !is_expired(
        after.sessions[#[trigger] sessions_again[i]],
        now,
    ) by {
        let t = sessions_again[i];
        assert(sessions_again.contains(t));
        lemma_listed(sessions_again, after.sessions.dom(), t);
        cleaning_leaves_live_sessions(s, peers, sessions, now, t);
        lemma_all_lapsed(left, expired, 0, t);
        lemma_all_removed_sessions(s, stale, t);
    }
    lemma_none_expired(after, sessions_again, now);
    assert(all_lapsed(after, Seq::<Seq<char>>::empty()) == after);
    assert(all_removal_news(after, Seq::<u128>::empty()) == Seq::<Delivery>::empty());
    assert(all_lapse_news(after, Seq::<Seq<char>>::empty()) == Seq::<Delivery>::empty());
}

/// The sender of a session that is closed because it has expired is told so, and
/// is free to create another.
pub proof fn expiry_is_told_to_the_sender(s: StateView, transfer_id: Seq<char>)
    requires
        is_consistent(s),
        s.sessions.contains_key(transfer_id),
    ensures
        ({
            let sender = s.sessions[transfer_id].sender_id->0;
            let after = lapsed(s, transfer_id);
            &&& lapse_news(s, transfer_id) == seq![(sender, expiry_message())]
            &&& !after.sessions.contains_key(transfer_id)
            &&& after.peers.contains_key(sender)
            &&& after.peers[sender].session_id is None
        }),
{
    assert(is_sound(s, transfer_id));
}

/// All news of clearing away bears the protocol version.
pub proof fn cleaning_news_bears_the_version(
    s: StateView,
    peers: Seq<u128>,
    sessions: Seq<Seq<char>>,
    now: u64,
    i: int,
)
    requires
        0 <= i < cleaning_news(s, peers, sessions, now).len(),
    ensures
        cleaning_news(s, peers, sessions, now)[i].1.version == "1"@,
{
    let stale = stale_ids(s, peers, now);
    let left = all_removed(s, stale);
    lemma_removal_news_version(s, stale);
    lemma_lapse_news_version(left, expired_ids(left, sessions, now));
}

proof fn lemma_removal_news_version(s: StateView, ids: Seq<u128>)
    ensures
        forall|i: int|
            0 <= i < all_removal_news(s, ids).len() ==> (#[trigger] all_removal_news(
                s,
                ids,
            )[i]).1.version == "1"@,
    decreases ids.len(),
{
    if ids.len() > 0 {
        lemma_removal_news_version(s, ids.drop_last());
    }
}

proof fn lemma_lapse_news_version(s: StateView, ids: Seq<Seq<char>>)
    ensures
        forall|i: int|
            0 <= i < all_lapse_news(s, ids).len() ==> (#[trigger] all_lapse_news(
                s,
                ids,
            )[i]).1.version == "1"@,
    decreases ids.len(),
{
    if ids.len() > 0 {
        lemma_lapse_news_version(s, ids.drop_last());
    }
}

} // verus!
