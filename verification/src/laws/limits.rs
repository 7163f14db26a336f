//! Laws on what a client may send, and how much of it.
use tokio::sync::mpsc::UnboundedSender;
use vstd::prelude::*;

use crate::clock::SECOND;
use crate::errors::{AppErrorView, ErrorCode};
use crate::models::VersionedServerMessage;
use crate::rules::{new_peer, PeerView, StateView};
use crate::text::byte_len;
use crate::ws_handler::{
    answer_reaction, can_count, charged, counts, frame_reaction, is_spent, reproached, still_spent,
    text_reaction, within_limit, Frame, Next,
};

verus! {

/// A peer after it has sent messages at these times.
pub open spec fn charged_for_all(p: PeerView, times: Seq<u64>) -> PeerView
    decreases times.len(),
{
    if times.len() == 0 {
        p
    } else {
        charged(charged_for_all(p, times.drop_last()), times.last())
    }
}

/// How many of the messages that a peer sends at these times are let through.
pub open spec fn let_through(p: PeerView, times: Seq<u64>) -> nat
    decreases times.len(),
{
    if times.len() == 0 {
        0
    } else {
        let before = times.drop_last();
        let_through(p, before) + (if within_limit(charged_for_all(p, before), times.last()) {
            1nat
        } else {
            0
        })
    }
}

/// Whether times come one after the other, from a start on.
pub open spec fn in_order(start: u64, times: Seq<u64>) -> bool {
    &&& forall|i: int| 0 <= i < times.len() ==> start <= #[trigger] times[i]
    &&& forall|i: int, j: int| 0 <= i <= j < times.len() ==> times[i] <= times[j]
}

/// Whether no more than thirty of these times, which come one after the other, lie
/// within a minute: of any thirty-one, the last is more than a minute after the
/// first.
pub open spec fn is_moderate(times: Seq<u64>) -> bool {
    forall|i: int| 30 <= i < times.len() ==> (#[trigger] times[i]) - times[i - 30] > 60 * SECOND
}

proof fn lemma_filter_len(s: Seq<u64>, keep: spec_fn(u64) -> bool)
    ensures
        s.filter(keep).len() <= s.len(),
    decreases s.len(),
{
    reveal(Seq::filter);
    if s.len() > 0 {
        lemma_filter_len(s.drop_last(), keep);
    }
}

/// The number of times from a moment on.
spec fn count_since(s: Seq<u64>, first: u64) -> nat {
    s.filter(|t: u64| t >= first).len()
}

/// What lies within a minute still counts at its end.
proof fn lemma_minute_counts(s: Seq<u64>, first: u64, now: u64)
    requires
        now - first <= 60 * SECOND,
    ensures
        count_since(s.filter(|then: u64| counts(then, now)), first) == count_since(s, first),
    decreases s.len(),
{
    reveal(Seq::filter);
    if s.len() > 0 {
        let front = s.drop_last();
        lemma_minute_counts(front, first, now);
        let kept = front.filter(|then: u64| counts(then, now));
        if counts(s.last(), now) {
            assert(kept.push(s.last()).drop_last() == kept);
        }
    }
}

proof fn lemma_hand(p: PeerView, times: Seq<u64>)
    requires
        p.rate_limit_spent.len() <= 30,
    ensures
        charged_for_all(p, times).rate_limit_spent.len() <= 30,
    decreases times.len(),
{
    if times.len() > 0 {
        let q = charged_for_all(p, times.drop_last());
        lemma_hand(p, times.drop_last());
        lemma_filter_len(q.rate_limit_spent, |then: u64| counts(then, times.last()));
    }
}

proof fn lemma_minute(p: PeerView, times: Seq<u64>, first: u64)
    requires
        forall|i: int|
            0 <= i < times.len() ==> first <= (#[trigger] times[i]) && times[i] - first <= 60
                * SECOND,
    ensures
        let_through(p, times) <= count_since(charged_for_all(p, times).rate_limit_spent, first),
    decreases times.len(),
{
    reveal(Seq::filter);
    if times.len() > 0 {
        let before = times.drop_last();
        let now = times[times.len() - 1];
        lemma_minute(p, before, first);
        let q = charged_for_all(p, before);
        let still = still_spent(q, now);
        lemma_minute_counts(q.rate_limit_spent, first, now);
        if within_limit(q, now) {
            assert(still.push(now).drop_last() == still);
        }
    }
}

/// Of a client's messages in any minute, thirty at most are let through, whatever
/// it sent before.
pub proof fn thirty_in_any_minute(
    id: u128,
    tx: UnboundedSender<VersionedServerMessage>,
    start: u64,
    before: Seq<u64>,
    times: Seq<u64>,
    first: u64,
)
    requires
        forall|i: int|
            0 <= i < times.len() ==> first <= (#[trigger] times[i]) && times[i] - first <= 60
                * SECOND,
    ensures
        let_through(charged_for_all(new_peer(id, tx, start), before), times) <= 30,
{
    let p = charged_for_all(new_peer(id, tx, start), before);
    lemma_hand(new_peer(id, tx, start), before);
    lemma_hand(p, times);
    lemma_minute(p, times, first);
    lemma_filter_len(charged_for_all(p, times).rate_limit_spent, |t: u64| t >= first);
}

/// Of a client's messages in the first minute of its connection, thirty at most
/// are let through.
pub proof fn thirty_a_minute(
    id: u128,
    tx: UnboundedSender<VersionedServerMessage>,
    start: u64,
    times: Seq<u64>,
)
    requires
        in_order(start, times),
        times.len() > 0 ==> times.last() - start <= 60 * SECOND,
    ensures
        let_through(new_peer(id, tx, start), times) <= 30,
{
    assert forall|i: int| 0 <= i < times.len() implies start <= (#[trigger] times[i]) && times[i]
        - start <= 60 * SECOND by {
        assert(times[i] <= times[times.len() - 1]);
    }
    thirty_in_any_minute(id, tx, start, Seq::empty(), times, start);
}

/// Of times that come one after the other, those that count are the last ones.
proof fn lemma_counting_are_last(s: Seq<u64>, now: u64)
    requires
        forall|i: int, j: int| 0 <= i <= j < s.len() ==> s[i] <= s[j],
    ensures
        ({
            let f = s.filter(|then: u64| counts(then, now));
            &&& f.len() <= s.len()
            &&& f == s.skip(s.len() - f.len())
            &&& forall|j: int| 0 <= j < f.len() ==> counts(#[trigger] f[j], now)
        }),
    decreases s.len(),
{
    reveal(Seq::filter);
    if s.len() > 0 {
        let front = s.drop_last();
        lemma_counting_are_last(front, now);
        let g = front.filter(|then: u64| counts(then, now));
        let f = s.filter(|then: u64| counts(then, now));
        if counts(s.last(), now) {
            assert(f == g.push(s.last()));
            assert(f == s.skip(s.len() - f.len()));
        } else {
            if g.len() > 0 {
                assert(counts(g[g.len() - 1], now));
                assert(g[g.len() - 1] == s[s.len() - 2]);
                assert(s[s.len() - 2] <= s[s.len() - 1]);
            }
            assert(f == s.skip(s.len() as int));
        }
    }
}

proof fn lemma_moderate(p: PeerView, times: Seq<u64>)
    requires
        p.rate_limit_spent.len() == 0,
        forall|i: int, j: int| 0 <= i <= j < times.len() ==> times[i] <= times[j],
        is_moderate(times),
    ensures
        let_through(p, times) == times.len(),
        ({
            let spent = charged_for_all(p, times).rate_limit_spent;
            &&& spent.len() <= 30
            &&& spent.len() <= times.len()
            &&& spent == times.skip(times.len() - spent.len())
        }),
    decreases times.len(),
{
    if times.len() > 0 {
        let before = times.drop_last();
        let n = times.len() as int;
        let now = times[n - 1];
        assert(is_moderate(before)) by {
            assert forall|i: int| 30 <= i < before.len() implies (#[trigger] before[i]) - before[i
                - 30] > 60 * SECOND by {
                assert(before[i] == times[i]);
            }
        }
        lemma_moderate(p, before);
        let q = charged_for_all(p, before);
        let spent = q.rate_limit_spent;
        let still = still_spent(q, now);
        lemma_counting_are_last(spent, now);
        assert(still == before.skip(before.len() - still.len()));
        if still.len() >= 30 {
            assert(counts(still[0], now));
            assert(still[0] == times[n - 1 - 30]);
        }
        assert(still.push(now) == times.skip(n - 1 - still.len()));
    } else {
        assert(times.skip(0) == times);
    }
}

/// Of a client that sends no more than thirty messages in any minute, every
/// message is let through.
pub proof fn moderate_client_is_let_through(
    id: u128,
    tx: UnboundedSender<VersionedServerMessage>,
    start: u64,
    times: Seq<u64>,
)
    requires
        in_order(start, times),
        is_moderate(times),
    ensures
        let_through(new_peer(id, tx, start), times) == times.len(),
{
    lemma_moderate(new_peer(id, tx, start), times);
}

/// What a client has in hand is thirty less the messages that count against it.
pub proof fn hand_is_limited(
    id: u128,
    tx: UnboundedSender<VersionedServerMessage>,
    start: u64,
    times: Seq<u64>,
)
    ensures
        ({
            let p = charged_for_all(new_peer(id, tx, start), times);
            p.rate_limit_tokens + p.rate_limit_spent.len() == 30
        }),
{
    lemma_hand(new_peer(id, tx, start), times);
}

/// A bad message is counted, whatever is wrong with it; the third ends the
/// connection, and none before does.
pub proof fn third_bad_message_ends_the_connection(
    s: StateView,
    id: u128,
    code: ErrorCode,
    message: Seq<char>,
)
    requires
        s.peers.contains_key(id),
        s.peers[id].bad_message_count < usize::MAX,
    ensures
        reproached(s, id, code, message).0.peers[id].bad_message_count
            == s.peers[id].bad_message_count + 1,
        reproached(s, id, code, message).1.next == (if s.peers[id].bad_message_count >= 2 {
            Next::Close
        } else {
            Next::Read
        }),
{
}

/// An error of a message that is malformed or not authorized is counted against
/// the client that sent it; no other error is, and no message without one.
pub proof fn abuse_is_counted(s: StateView, id: u128, error: Option<AppErrorView>)
    requires
        s.peers.contains_key(id),
        s.peers[id].bad_message_count < usize::MAX,
    ensures
        answer_reaction(s, id, error).0.peers[id].bad_message_count
            == s.peers[id].bad_message_count + (match error {
            Some(e) => if e.code == ErrorCode::MalformedMessage || e.code
                == ErrorCode::Unauthorized {
                1int
            } else {
                0
            },
            None => 0,
        }),
{
}

/// Of a peer whose connection is kept, one more bad message can always be
/// counted: its count is below three, and stays so while the connection is kept.
pub proof fn kept_connection_can_be_counted(
    s: StateView,
    id: u128,
    frame: Frame,
    now: u64,
    error: Option<AppErrorView>,
)
    requires
        !is_spent(s, id),
    ensures
        can_count(s, id),
        frame_reaction(s, id, frame, now).1.next == Next::Read || frame_reaction(
            s,
            id,
            frame,
            now,
        ).1.next == Next::Decode ==> !is_spent(frame_reaction(s, id, frame, now).0, id),
        answer_reaction(s, id, error).1.next == Next::Read ==> !is_spent(
            answer_reaction(s, id, error).0,
            id,
        ),
{
}

/// Binary data ends the connection with the close code for it, and touches
/// nothing.
pub proof fn binary_data_is_not_accepted(s: StateView, id: u128, now: u64)
    ensures
        frame_reaction(s, id, Frame::Binary, now).0 == s,
        frame_reaction(s, id, Frame::Binary, now).1.next == Next::CloseWith(1003),
{
}

/// A text that is too large ends the connection, and touches nothing, whatever
/// it says.
pub proof fn oversized_text_is_not_read(
    s: StateView,
    id: u128,
    text: Seq<char>,
    now: u64,
    version: Option<Option<Seq<char>>>,
)
    requires
        byte_len(text) > s.config.max_message_size,
    ensures
        text_reaction(s, id, text, now, version).0 == s,
        text_reaction(s, id, text, now, version).1.next == Next::Close,
{
}

/// A text is decoded only where it gives the protocol version.
pub proof fn only_versioned_text_is_decoded(
    s: StateView,
    id: u128,
    text: Seq<char>,
    now: u64,
    version: Option<Option<Seq<char>>>,
)
    requires
        text_reaction(s, id, text, now, version).1.next == Next::Decode,
    ensures
        version == Some(Some("1"@)),
        byte_len(text) <= s.config.max_message_size,
        s.peers.contains_key(id),
        within_limit(s.peers[id], now),
{
}

} // verus!
