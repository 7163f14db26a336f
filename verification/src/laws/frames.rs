//! Laws on what the server does with a connection and with each frame on it.
use vstd::prelude::*;
use vstd::utf8::*;

use crate::clock::is_reading;
use crate::errors::{AppErrorView, ErrorCode};
use crate::laws::privacy::origins_are_let_in_by_name_or_star;
use crate::models::{ClientMessageView, MessageView, ServerMessageView};
use crate::rules::{PeerView, StateView};
use crate::security::{is_code, is_drawn, token_alphabet, transfer_id_alphabet};
use crate::signaling::{codes_are_drawn, handled, logged};
use crate::text::texts;
use crate::ws_handler::{
    admission, answer_reaction, can_count, charged, charged_state, counted, counts,
    decoded_reaction, frame_reaction, is_spent, json_members, text_reaction, within_limit,
    Admission, Frame, Next, OutcomeView, Reaction,
};

verus! {

/// An answer that tells of an error, and what is then done.
pub open spec fn error_told(code: Seq<char>, message: Seq<char>, next: Next) -> OutcomeView {
    OutcomeView {
        reply: Some(
            MessageView {
                version: "1"@,
                payload: ServerMessageView::Error { code, message },
            },
        ),
        next,
        log: None,
    }
}

/// No answer, and what is then done.
pub open spec fn silent(next: Next) -> OutcomeView {
    OutcomeView { reply: None, next, log: None }
}

/// The state with this entry for a peer.
pub open spec fn with_entry(s: StateView, id: u128, p: PeerView) -> StateView {
    StateView { peers: s.peers.insert(id, p), ..s }
}

// Letting in.

/// A connection is let in unless the cap is reached, or the server is in production
/// and its list holds neither the origin nor a star; the cap counts first.
pub proof fn connections_are_let_in_by_cap_and_origin(s: StateView, origin: Seq<char>)
    ensures
        ({
            let full = s.peers.len() >= s.config.max_connections;
            let barred = s.config.environment@ == "production"@ && !texts(
                s.config.allowed_origins@,
            ).contains("*"@) && !texts(s.config.allowed_origins@).contains(origin);
            &&& admission(s, origin) == Admission::CapReached <==> full
            &&& admission(s, origin) == Admission::ForbiddenOrigin <==> !full && barred
            &&& admission(s, origin) == Admission::Accepted <==> !full && !barred
        }),
{
    origins_are_let_in_by_name_or_star(origin, s.config.allowed_origins@);
}

// Limits.

/// Whether a client may send goes by how many of the messages that it was let send
/// are a minute old at most, and by nothing else that is known of it: there must be
/// fewer than thirty.
pub proof fn limit_goes_by_the_last_minute(p: PeerView, now: u64)
    ensures
        within_limit(p, now) <==> p.rate_limit_spent.filter(
            |then: u64| now - then <= 60_000_000_000,
        ).len() < 30,
{
    assert((|then: u64| now - then <= 60_000_000_000) =~= (|then: u64|
        counts(then, now)));
}

/// Charging a client for a message notes the message where it may be sent, forgets
/// those that are more than a minute old, and changes nothing but its limits.
pub proof fn charge_notes_the_message(p: PeerView, now: u64)
    ensures
        ({
            let recent = p.rate_limit_spent.filter(|then: u64| now - then <= 60_000_000_000);
            let q = charged(p, now);
            &&& q == (PeerView {
                rate_limit_tokens: q.rate_limit_tokens,
                rate_limit_last_check: now,
                rate_limit_spent: q.rate_limit_spent,
                ..p
            })
            &&& q.rate_limit_spent == (if recent.len() < 30 {
                recent.push(now)
            } else {
                recent
            })
            &&& q.rate_limit_spent.len() <= 30 ==> q.rate_limit_tokens
                + q.rate_limit_spent.len() == 30
            &&& q.rate_limit_spent.len() > 30 ==> q.rate_limit_tokens == 0
        }),
{
    assert((|then: u64| now - then <= 60_000_000_000) =~= (|then: u64|
        counts(then, now)));
}

/// A charge, and the counting of a bad message, touch the peer that they are for
/// and nothing else; a bad message adds one, and three are too many, whatever else
/// is known of the peer.
pub proof fn bookkeeping_touches_one_peer(s: StateView, id: u128, now: u64)
    ensures
        s.peers.contains_key(id) ==> charged_state(s, id, now) == with_entry(
            s,
            id,
            charged(s.peers[id], now),
        ),
        !s.peers.contains_key(id) ==> charged_state(s, id, now) == s,
        s.peers.contains_key(id) && s.peers[id].bad_message_count < usize::MAX ==> counted(s, id)
            == with_entry(
            s,
            id,
            PeerView {
                bad_message_count: (s.peers[id].bad_message_count + 1) as usize,
                ..s.peers[id]
            },
        ),
        !s.peers.contains_key(id) ==> counted(s, id) == s,
        is_spent(s, id) <==> !s.peers.contains_key(id) || s.peers[id].bad_message_count >= 3,
        can_count(s, id) <==> !s.peers.contains_key(id) || s.peers[id].bad_message_count
            < usize::MAX,
{
}

/// Whether a bad message of a peer is counted and told of: the third ends the
/// connection, and so does one of a peer that is gone.
pub open spec fn is_counted_and_told(
    s: StateView,
    id: u128,
    code: Seq<char>,
    message: Seq<char>,
    r: Reaction,
) -> bool {
    if s.peers.contains_key(id) {
        let count = s.peers[id].bad_message_count;
        &&& r.0 == with_entry(
            s,
            id,
            PeerView { bad_message_count: (count + 1) as usize, ..s.peers[id] },
        )
        &&& count < usize::MAX ==> r.1 == error_told(
            code,
            message,
            if count >= 2 {
                Next::Close
            } else {
                Next::Read
            },
        )
    } else {
        r == (s, error_told(code, message, Next::Close))
    }
}

// Frames.

/// A frame that closes ends the connection; a ping is acknowledged; a pong is a sign
/// of life; binary data is refused and ends the connection with its code. None of
/// them touches anything else, whatever is known of the peer.
pub proof fn frames_without_text_are_dealt_with(s: StateView, id: u128, now: u64)
    ensures
        frame_reaction(s, id, Frame::Close, now) == (s, silent(Next::Close)),
        frame_reaction(s, id, Frame::Ping, now) == (
            s,
            OutcomeView {
                reply: Some(
                    MessageView { version: "1"@, payload: ServerMessageView::HeartbeatAck },
                ),
                next: Next::Read,
                log: None,
            },
        ),
        frame_reaction(s, id, Frame::Pong, now) == (
            if s.peers.contains_key(id) {
                with_entry(s, id, PeerView { last_heartbeat: now, ..s.peers[id] })
            } else {
                s
            },
            silent(Next::Read),
        ),
        frame_reaction(s, id, Frame::Binary, now) == (
            s,
            error_told(
                "MALFORMED_MESSAGE"@,
                "Binary websocket frames are not allowed"@,
                Next::CloseWith(1003),
            ),
        ),
{
}

/// A text that is too large, or comes from a client that is gone or may not send,
/// ends the connection. Any other is charged for, and is decoded if and only if it
/// gives version 1; else it is a bad message.
pub proof fn texts_pass_by_size_limit_and_version(
    s: StateView,
    id: u128,
    text: Seq<char>,
    now: u64,
    version: Option<Option<Seq<char>>>,
)
    ensures
        ({
            let r = text_reaction(s, id, text, now, version);
            if encode_utf8(text).len() > s.config.max_message_size {
                r == (s, error_told("RATE_LIMIT_EXCEEDED"@, "Message too large"@, Next::Close))
            } else if !s.peers.contains_key(id) {
                r == (s, error_told("RATE_LIMIT_EXCEEDED"@, "Rate limit exceeded"@, Next::Close))
            } else {
                let next = with_entry(s, id, charged(s.peers[id], now));
                if s.peers[id].rate_limit_spent.filter(
                    |then: u64| now - then <= 60_000_000_000,
                ).len() >= 30 {
                    r == (
                        next,
                        error_told("RATE_LIMIT_EXCEEDED"@, "Rate limit exceeded"@, Next::Close),
                    )
                } else if version == Some(Some("1"@)) {
                    r == (next, silent(Next::Decode))
                } else {
                    is_counted_and_told(
                        next,
                        id,
                        "MALFORMED_MESSAGE"@,
                        if version is None {
                            "Invalid JSON"@
                        } else {
                            "Unsupported protocol version"@
                        },
                        r,
                    )
                }
            }
        }),
{
    if s.peers.contains_key(id) {
        limit_goes_by_the_last_minute(s.peers[id], now);
    }
}

/// The version of a text is the string under `version` of the JSON object that it
/// writes.
pub proof fn version_is_read_from_the_text(s: StateView, id: u128, text: String, now: u64)
    ensures
        frame_reaction(s, id, Frame::Text(text), now) == text_reaction(
            s,
            id,
            text@,
            now,
            match json_members(text@) {
                None => None,
                Some(members) => if members.contains_key("version"@) {
                    Some(Some(members["version"@]))
                } else {
                    Some(None)
                },
            },
        ),
{
}

// Answers.

/// Whether a connection is answered for how its message was dealt with: not at all
/// where there was no error, else with the error; one that is malformed or not
/// authorized counts as bad, and no other does.
pub open spec fn is_answer(
    s: StateView,
    id: u128,
    error: Option<AppErrorView>,
    r: Reaction,
) -> bool {
    match error {
        None => r == (s, silent(Next::Read)),
        Some(e) => if e.code == ErrorCode::MalformedMessage || e.code == ErrorCode::Unauthorized {
            is_counted_and_told(s, id, e.code.name(), e.message, r)
        } else {
            r == (s, error_told(e.code.name(), e.message, Next::Read))
        },
    }
}

/// Every message is answered for how it was dealt with.
pub proof fn messages_are_answered_for(s: StateView, id: u128, error: Option<AppErrorView>)
    ensures
        is_answer(s, id, error, answer_reaction(s, id, error)),
{
}

/// A text that does not decode to a message is bad.
pub proof fn text_without_a_message_is_bad(s: StateView, id: u128, reaction: Reaction)
    requires
        decoded_reaction(s, id, None, reaction),
    ensures
        is_counted_and_told(s, id, "MALFORMED_MESSAGE"@, "Invalid schema"@, reaction),
{
}

/// A message that was decoded is dealt with at a reading of the server's clock, with
/// codes drawn for a session that it creates, and is answered for and logged as it
/// was dealt with.
pub proof fn decoded_message_is_dealt_with_and_answered_for(
    s: StateView,
    id: u128,
    m: ClientMessageView,
    reaction: Reaction,
)
    requires
        decoded_reaction(s, id, Some(m), reaction),
    ensures
        exists|
            now: u64,
            t: Seq<char>,
            k: Seq<char>,
            dealt: StateView,
            error: Option<AppErrorView>,
        |
            {
                &&& is_reading(s.clock, now)
                &&& m is CreateSession ==> is_code(t, 10, transfer_id_alphabet()) && is_drawn(
                    t,
                    10,
                    transfer_id_alphabet(),
                ) && is_code(k, 32, token_alphabet()) && is_drawn(k, 32, token_alphabet())
                &&& #[trigger] handled(s, id, m, now, t, k, dealt, error)
                &&& reaction.1.log == logged(s, id, m, now, t, k)
                &&& is_answer(
                    dealt,
                    id,
                    error,
                    (reaction.0, OutcomeView { log: None, ..reaction.1 }),
                )
            },
{
    let (now, t, k, dealt, error) = choose|
        now: u64,
        t: Seq<char>,
        k: Seq<char>,
        dealt: StateView,
        error: Option<AppErrorView>,
    |
        {
            &&& is_reading(s.clock, now)
            &&& codes_are_drawn(m, t, k)
            &&& #[trigger] handled(s, id, m, now, t, k, dealt, error)
            &&& reaction.0 == answer_reaction(dealt, id, error).0
            &&& reaction.1 == (OutcomeView {
                log: logged(s, id, m, now, t, k),
                ..answer_reaction(dealt, id, error).1
            })
        };
    messages_are_answered_for(dealt, id, error);
    let r: Reaction = (reaction.0, OutcomeView { log: None, ..reaction.1 });
    assert(r.1 == answer_reaction(dealt, id, error).1);
    assert(is_answer(dealt, id, error, r));
    assert(handled(s, id, m, now, t, k, dealt, error));
}

} // verus!
