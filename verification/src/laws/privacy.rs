//! Laws on what logs show and on whom the server lets in.
use vstd::prelude::*;
use vstd::utf8::*;

use crate::ids::id_text;
use crate::laws::messages::{
    same_but_token_given, same_but_tokens, tokens_stand_in_no_other_message,
};
use crate::laws::texts::numbers_read_back;
use crate::logs::log_line;
use crate::models::ClientMessageView;
use crate::rules::{cap_reached, StateView};
use crate::security::{
    ends_are_whole, is_code, origin_allowed, redacted_ice, redacted_sdp, redacted_token,
    token_alphabet,
};
use crate::signaling::{logged, planned};
use crate::text::{byte_len, decimal, digits_value, texts, unsigned_value};
use crate::ws_handler::{admission, Admission};

verus! {

proof fn lemma_decimal_reads_back(n: nat)
    ensures
        digits_value(decimal(n)) == n,
    decreases n,
{
    let s = decimal(n);
    if n < 10 {
        assert(s.drop_last() == Seq::<char>::empty());
        assert(digits_value(s.drop_last()) == 0);
    } else {
        lemma_decimal_reads_back(n / 10);
        assert(s.drop_last() == decimal(n / 10));
    }
}

proof fn lemma_framed(a: Seq<char>, x: Seq<char>, y: Seq<char>, b: Seq<char>)
    requires
        a + x + b == a + y + b,
    ensures
        x == y,
{
    let u = a + x + b;
    let v = a + y + b;
    assert(u.len() == a.len() + x.len() + b.len());
    assert(v.len() == a.len() + y.len() + b.len());
    assert(u.subrange(a.len() as int, (a.len() + x.len()) as int) == x);
    assert(v.subrange(a.len() as int, (a.len() + y.len()) as int) == y);
}

/// Of a session description or a candidate, logs show its size and nothing else.
pub proof fn only_the_size_is_shown(a: Seq<char>, b: Seq<char>)
    ensures
        redacted_sdp(a) == redacted_sdp(b) <==> byte_len(a) == byte_len(b),
        redacted_ice(a) == redacted_ice(b) <==> byte_len(a) == byte_len(b),
{
    let x = decimal(byte_len(a));
    let y = decimal(byte_len(b));
    lemma_decimal_reads_back(byte_len(a));
    lemma_decimal_reads_back(byte_len(b));
    if redacted_sdp(a) == redacted_sdp(b) {
        lemma_framed("[SDP payload ("@, x, y, " bytes)]"@);
    }
    if redacted_ice(a) == redacted_ice(b) {
        lemma_framed("[ICE Candidate ("@, x, y, " bytes)]"@);
    }
}

/// Whether two messages differ in nothing that logs may show: session
/// descriptions and candidates in their size, the token that an approval gives in
/// nothing.
pub open spec fn looks_alike(a: ClientMessageView, b: ClientMessageView) -> bool {
    match (a, b) {
        (
            ClientMessageView::ApproveJoin { transfer_id, receiver_id, .. },
            ClientMessageView::ApproveJoin { transfer_id: t, receiver_id: r, .. },
        ) => transfer_id == t && receiver_id == r,
        (
            ClientMessageView::Offer { transfer_id, sdp },
            ClientMessageView::Offer { transfer_id: t, sdp: d },
        ) => transfer_id == t && byte_len(sdp) == byte_len(d),
        (
            ClientMessageView::Answer { transfer_id, sdp },
            ClientMessageView::Answer { transfer_id: t, sdp: d },
        ) => transfer_id == t && byte_len(sdp) == byte_len(d),
        (
            ClientMessageView::IceCandidate { transfer_id, candidate, .. },
            ClientMessageView::IceCandidate { transfer_id: t, candidate: c, .. },
        ) => transfer_id == t && byte_len(candidate) == byte_len(c),
        _ => a == b,
    }
}

/// What is logged of a client's message shows a session's token as
/// [`redacted_token`] has it, and of session descriptions and candidates nothing
/// but the size: two messages that differ in nothing else are logged alike.
pub proof fn logs_show_no_more(
    id: u128,
    a: ClientMessageView,
    b: ClientMessageView,
    target: u128,
    new_transfer_id: Seq<char>,
    token_in_a: Seq<char>,
    token_in_b: Seq<char>,
)
    requires
        looks_alike(a, b),
        redacted_token(token_in_a) == redacted_token(token_in_b),
    ensures
        log_line(id, a, target, new_transfer_id, token_in_a) == log_line(
            id,
            b,
            target,
            new_transfer_id,
            token_in_b,
        ),
{
}

/// What is logged of a client's message shows nothing of any token that a session
/// has, but for whether a token that the message gives is the session's.
pub proof fn logs_show_no_kept_token(
    a: StateView,
    b: StateView,
    id: u128,
    from_a: ClientMessageView,
    from_b: ClientMessageView,
    now: u64,
    new_transfer_id: Seq<char>,
    new_token: Seq<char>,
)
    requires
        same_but_tokens(a, b),
        same_but_token_given(a, b, from_a, from_b),
    ensures
        logged(a, id, from_a, now, new_transfer_id, new_token) == logged(
            b,
            id,
            from_b,
            now,
            new_transfer_id,
            new_token,
        ),
{
    if !(from_a is CreateSession) {
        tokens_stand_in_no_other_message(
            a,
            b,
            id,
            from_a,
            from_b,
            now,
            new_transfer_id,
            new_token,
            new_token,
        );
    }
}

/// Of a token of plain characters that is longer than six, logs show the first
/// and the last three; of a shorter one, nothing.
pub proof fn only_the_ends_are_shown(token: Seq<char>)
    requires
        is_ascii_chars(token),
    ensures
        ends_are_whole(token),
        token.len() <= 6 ==> redacted_token(token) == "***"@,
        token.len() > 6 ==> redacted_token(token) == token.take(3) + "..."@ + token.skip(
            token.len() - 3,
        ),
{
    is_ascii_chars_encode_utf8(token);
    let bytes = encode_utf8(token);
    if token.len() > 6 {
        let n = token.len() as int;
        lemma_ascii_boundary(token, 3);
        lemma_ascii_boundary(token, n - 3);
        is_ascii_chars_encode_utf8(token.take(3));
        is_ascii_chars_encode_utf8(token.skip(n - 3));
        assert(encode_utf8(token.take(3)) == bytes.take(3));
        assert(encode_utf8(token.skip(n - 3)) == bytes.skip(n - 3));
        encode_utf8_decode_utf8(token.take(3));
        encode_utf8_decode_utf8(token.skip(n - 3));
    }
}

proof fn lemma_ascii_boundary(s: Seq<char>, i: int)
    requires
        is_ascii_chars(s),
        0 <= i <= s.len(),
    ensures
        is_char_boundary(encode_utf8(s), i),
{
    is_ascii_chars_encode_utf8(s);
    encode_utf8_valid_utf8(s);
    let bytes = encode_utf8(s);
    if i == 0 || i == s.len() {
        is_char_boundary_start_end_of_seq(bytes);
    } else {
        is_char_boundary_iff_is_leading_byte(bytes, i);
    }
}

/// A token that the server draws is made of plain characters, so that logs show
/// six of its thirty-two.
pub proof fn tokens_are_plain(token: Seq<char>)
    requires
        is_code(token, 32, token_alphabet()),
    ensures
        is_ascii_chars(token),
        ends_are_whole(token),
        redacted_token(token) == token.take(3) + "..."@ + token.skip(29),
{
    reveal_strlit("abcdefghijklmnopqrstuvwxyzABCDEFGHIJKLMNOPQRSTUVWXYZ0123456789");
    assert forall|i: int| 0 <= i < token.len() implies (0 <= #[trigger] token[i] as int <= 127) by {
        assert(token_alphabet().contains(token[i]));
    }
    only_the_ends_are_shown(token);
}

/// An origin is let in if and only if the list holds it, letter for letter, or holds
/// a star.
pub proof fn origins_are_let_in_by_name_or_star(origin: Seq<char>, allowed: Seq<String>)
    ensures
        origin_allowed(origin, allowed) <==> texts(allowed).contains("*"@) || texts(
            allowed,
        ).contains(origin),
{
    let names = texts(allowed);
    assert(names.len() == allowed.len());
    assert forall|i: int| 0 <= i < allowed.len() implies names[i] == (#[trigger] allowed[i])@ by {}
    if origin_allowed(origin, allowed) {
        let i = choose|i: int|
            0 <= i < allowed.len() && ((#[trigger] allowed[i])@ == "*"@ || allowed[i]@ == origin);
        assert(names[i] == allowed[i]@);
    }
    if names.contains("*"@) {
        let i = choose|i: int| 0 <= i < names.len() && names[i] == "*"@;
        assert(allowed[i]@ == "*"@);
    }
    if names.contains(origin) {
        let i = choose|i: int| 0 <= i < names.len() && names[i] == origin;
        assert(allowed[i]@ == origin);
    }
}

/// Between its fixed words, what logs show of a session description or a candidate
/// reads back as the size in bytes.
pub proof fn size_that_is_shown_reads_back(s: Seq<char>) -> (digits: Seq<char>)
    ensures
        unsigned_value(digits) == Some(encode_utf8(s).len()),
        redacted_sdp(s) == "[SDP payload ("@ + digits + " bytes)]"@,
        redacted_ice(s) == "[ICE Candidate ("@ + digits + " bytes)]"@,
{
    numbers_read_back(byte_len(s));
    decimal(byte_len(s))
}

/// A token of six bytes at most is not shown at all; of a longer one the first and
/// the last three bytes are, and three points between them.
pub proof fn tokens_are_shown_by_their_ends(token: Seq<char>)
    ensures
        encode_utf8(token).len() <= 6 ==> redacted_token(token) == "***"@,
        encode_utf8(token).len() > 6 ==> redacted_token(token) == decode_utf8(
            encode_utf8(token).subrange(0, 3),
        ) + "..."@ + decode_utf8(
            encode_utf8(token).subrange(
                encode_utf8(token).len() - 3,
                encode_utf8(token).len() as int,
            ),
        ),
        ends_are_whole(token) <==> encode_utf8(token).len() <= 6 || (is_char_boundary(
            encode_utf8(token),
            3,
        ) && is_char_boundary(encode_utf8(token), encode_utf8(token).len() - 3)),
{
    let bytes = encode_utf8(token);
    if bytes.len() > 6 {
        assert(bytes.take(3) == bytes.subrange(0, 3));
        assert(bytes.skip(bytes.len() - 3) == bytes.subrange(
            bytes.len() - 3,
            bytes.len() as int,
        ));
    }
}

/// What is logged of a client's message says what was done, by whom and for whom;
/// nothing is logged of a registration, of a heartbeat and of what is refused.
pub proof fn logs_say_what_was_done(
    s: StateView,
    id: u128,
    m: ClientMessageView,
    now: u64,
    t: Seq<char>,
    k: Seq<char>,
)
    ensures
        ({
            let line = logged(s, id, m, now, t, k);
            match planned(s, id, m, now, t, k) {
                Err(_) => line is None,
                Ok(plan) => match m {
                    ClientMessageView::Register { .. } => line is None,
                    ClientMessageView::Heartbeat => line is None,
                    ClientMessageView::CreateSession => line == Some(
                        "Session created transfer_id="@ + t + " sender="@ + id_text(id)
                            + " token="@ + redacted_token(k),
                    ),
                    ClientMessageView::JoinSession { transfer_id } => line == Some(
                        "Receiver "@ + id_text(id) + " requested join for "@ + transfer_id,
                    ),
                    ClientMessageView::ApproveJoin { .. } => line == Some(
                        "Sender "@ + id_text(id) + " approved receiver "@ + id_text(plan.1[0].0),
                    ),
                    ClientMessageView::Offer { sdp, .. } => line == Some(
                        "Offer"@ + " relay "@ + id_text(id) + " -> "@ + id_text(plan.1[0].0)
                            + " SDP="@ + redacted_sdp(sdp),
                    ),
                    ClientMessageView::Answer { sdp, .. } => line == Some(
                        "Answer"@ + " relay "@ + id_text(id) + " -> "@ + id_text(plan.1[0].0)
                            + " SDP="@ + redacted_sdp(sdp),
                    ),
                    ClientMessageView::IceCandidate { candidate, .. } => line == Some(
                        "ICE"@ + " relay "@ + id_text(id) + " -> "@ + id_text(plan.1[0].0) + " "@
                            + redacted_ice(candidate),
                    ),
                    ClientMessageView::Disconnect => line == Some(
                        "Peer "@ + id_text(id) + " disconnect requested"@,
                    ),
                },
            }
        }),
{
}

/// A server that lists `*` lets every origin in.
pub proof fn star_allows_every_origin(origin: Seq<char>, allowed: Seq<String>, i: int)
    requires
        0 <= i < allowed.len(),
        allowed[i]@ == "*"@,
    ensures
        origin_allowed(origin, allowed),
{
}

/// Outside production, a connection is let in whatever its origin, up to the
/// cap.
pub proof fn development_allows_every_origin(s: StateView, origin: Seq<char>)
    requires
        s.config.environment@ != "production"@,
    ensures
        admission(s, origin) == (if cap_reached(s) {
            Admission::CapReached
        } else {
            Admission::Accepted
        }),
{
}

} // verus!
