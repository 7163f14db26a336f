//! Laws on a connection as a whole.
use vstd::prelude::*;

use crate::errors::{AppErrorView, ErrorCode};
use crate::laws::messages::message_keeps_peers;
use crate::models::{ClientMessageView, ServerMessageView};
use crate::rules::StateView;
use crate::signaling::handled;
use crate::ws_handler::{
    answer_reaction, decoded_reaction, frame_reaction, Frame, Next, OutcomeView,
};

verus! {

/// What happens on a connection: a frame comes in, or a text that passed has been
/// decoded.
pub enum Event {
    Frame { frame: Frame, now: u64 },
    Decoded { message: Option<ClientMessageView> },
}

/// An event on a connection, the state before and after it, and its outcome.
pub struct Step {
    pub before: StateView,
    pub event: Event,
    pub after: StateView,
    pub outcome: OutcomeView,
}

/// Whether the server has reacted to an event as it should.
pub open spec fn is_reaction(id: u128, step: Step) -> bool {
    match step.event {
        Event::Frame { frame, now } => (step.after, step.outcome) == frame_reaction(
            step.before,
            id,
            frame,
            now,
        ),
        Event::Decoded { message } => decoded_reaction(
            step.before,
            id,
            message,
            (step.after, step.outcome),
        ),
    }
}

/// Whether these are the steps on the connection of a peer from its beginning on.
/// Whatever else happens between two of them leaves the peer connected and its
/// count of bad messages as it is, and another step follows only where the
/// connection is kept.
pub open spec fn is_connection(id: u128, steps: Seq<Step>) -> bool {
    &&& forall|i: int|
        0 <= i < steps.len() ==> is_reaction(id, #[trigger] steps[i])
            && steps[i].before.peers.contains_key(id)
    &&& steps.len() > 0 ==> steps[0].before.peers[id].bad_message_count == 0
    &&& forall|i: int|
        0 < i < steps.len() ==> follows(id, steps[i - 1], #[trigger] steps[i])
}

/// Whether a step can follow another on the connection of a peer.
pub open spec fn follows(id: u128, earlier: Step, later: Step) -> bool {
    &&& earlier.outcome.next == Next::Read || earlier.outcome.next == Next::Decode
    &&& earlier.after.peers.contains_key(id)
    &&& later.before.peers[id].bad_message_count == earlier.after.peers[id].bad_message_count
}

/// Whether a text is answered as malformed or not authorized.
pub open spec fn is_bad(step: Step) -> bool {
    &&& !(step.event matches Event::Frame { frame: Frame::Binary, .. })
    &&& step.outcome.reply matches Some(m)
    &&& m.payload matches ServerMessageView::Error { code, .. }
    &&& code == ErrorCode::MalformedMessage.name() || code == ErrorCode::Unauthorized.name()
}

/// The number of bad texts among the steps.
pub open spec fn bad_texts(steps: Seq<Step>) -> nat
    decreases steps.len(),
{
    if steps.len() == 0 {
        0
    } else {
        bad_texts(steps.drop_last()) + (if is_bad(steps.last()) {
            1nat
        } else {
            0
        })
    }
}

/// Codes that have the same name are the same.
pub proof fn codes_have_names_of_their_own(a: ErrorCode, b: ErrorCode)
    requires
        a.name() == b.name(),
    ensures
        a == b,
{
    reveal_strlit("NOT_REGISTERED");
    reveal_strlit("ALREADY_REGISTERED");
    reveal_strlit("INVALID_ROLE");
    reveal_strlit("SESSION_EXPIRED");
    reveal_strlit("SESSION_FULL");
    reveal_strlit("INVALID_SESSION");
    reveal_strlit("UNAUTHORIZED");
    reveal_strlit("PEER_DISCONNECTED");
    reveal_strlit("PEER_NOT_FOUND");
    reveal_strlit("MALFORMED_MESSAGE");
    reveal_strlit("INTERNAL_ERROR");
    reveal_strlit("RATE_LIMIT_EXCEEDED");
    let x = a.name();
    let y = b.name();
    assert(x.len() == y.len());
    assert(x[0] == y[0]);
    assert(x[1] == y[1]);
    assert(x[5] == y[5]);
}

proof fn lemma_answer(s: StateView, id: u128, error: Option<AppErrorView>, step: Step)
    requires
        s.peers.contains_key(id),
        s.peers[id].bad_message_count < 3,
        step.after == answer_reaction(s, id, error).0,
        step.outcome.reply == answer_reaction(s, id, error).1.reply,
        step.outcome.next == answer_reaction(s, id, error).1.next,
        step.event is Decoded,
    ensures
        step.after.peers[id].bad_message_count == s.peers[id].bad_message_count + (if is_bad(step) {
            1int
        } else {
            0
        }),
        step.outcome.next == (if is_bad(step) && s.peers[id].bad_message_count == 2 {
            Next::Close
        } else {
            Next::Read
        }),
{
    if let Some(e) = error {
        if e.code.name() == ErrorCode::MalformedMessage.name() {
            codes_have_names_of_their_own(e.code, ErrorCode::MalformedMessage);
        }
        if e.code.name() == ErrorCode::Unauthorized.name() {
            codes_have_names_of_their_own(e.code, ErrorCode::Unauthorized);
        }
    }
}

proof fn lemma_step(id: u128, step: Step)
    requires
        is_reaction(id, step),
        step.before.peers.contains_key(id),
        step.before.peers[id].bad_message_count < 3,
        step.after.peers.contains_key(id),
    ensures
        step.after.peers[id].bad_message_count == step.before.peers[id].bad_message_count + (
        if is_bad(step) {
            1int
        } else {
            0
        }),
        is_bad(step) ==> step.outcome.next == (if step.before.peers[id].bad_message_count == 2 {
            Next::Close
        } else {
            Next::Read
        }),
{
    match step.event {
        Event::Frame { frame, now } => {
            if ErrorCode::RateLimitExceeded.name() == ErrorCode::MalformedMessage.name() {
                codes_have_names_of_their_own(
                    ErrorCode::RateLimitExceeded,
                    ErrorCode::MalformedMessage,
                );
            }
            if ErrorCode::RateLimitExceeded.name() == ErrorCode::Unauthorized.name() {
                codes_have_names_of_their_own(
                    ErrorCode::RateLimitExceeded,
                    ErrorCode::Unauthorized,
                );
            }
        },
        Event::Decoded { message } => {
            if let Some(m) = message {
                let (now, t, k, dealt, error) = choose|
                    now: u64,
                    t: Seq<char>,
                    k: Seq<char>,
                    dealt: StateView,
                    error: Option<AppErrorView>,
                |
                    #[trigger] handled(step.before, id, m, now, t, k, dealt, error) && step.after
                        == answer_reaction(dealt, id, error).0 && step.outcome.reply
                        == answer_reaction(dealt, id, error).1.reply && step.outcome.next
                        == answer_reaction(dealt, id, error).1.next;
                message_keeps_peers(step.before, id, m, now, t, k, dealt, error, id);
                lemma_answer(dealt, id, error, step);
            }
        },
    }
}

/// On a connection, every text that is malformed or not authorized is counted, and
/// nothing takes from the count: after the first and the second reading goes on,
/// and the third ends the connection.
pub proof fn third_bad_text_ends_the_connection(id: u128, steps: Seq<Step>)
    requires
        is_connection(id, steps),
        steps.len() > 0,
        steps.last().after.peers.contains_key(id),
    ensures
        bad_texts(steps) <= 3,
        steps.last().after.peers[id].bad_message_count == bad_texts(steps),
        is_bad(steps.last()) ==> steps.last().outcome.next == (if bad_texts(steps) == 3 {
            Next::Close
        } else {
            Next::Read
        }),
        bad_texts(steps) == 3 ==> is_bad(steps.last()),
    decreases steps.len(),
{
    let front = steps.drop_last();
    let n = steps.len() as int;
    let step = steps[n - 1];
    assert(is_reaction(id, step));
    if n > 1 {
        assert(follows(id, steps[n - 2], step));
        assert(front.last() == steps[n - 2]);
        assert(is_connection(id, front)) by {
            assert forall|i: int| 0 <= i < front.len() implies is_reaction(id, #[trigger] front[i])
                && front[i].before.peers.contains_key(id) by {
                assert(front[i] == steps[i]);
            }
            assert forall|i: int| 0 < i < front.len() implies follows(
                id,
                front[i - 1],
                #[trigger] front[i],
            ) by {
                assert(front[i] == steps[i] && front[i - 1] == steps[i - 1]);
            }
        }
        third_bad_text_ends_the_connection(id, front);
    } else {
        assert(bad_texts(front) == 0);
    }
    lemma_step(id, step);
}

} // verus!
