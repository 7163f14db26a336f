//! What is logged of a client's message.
use vstd::prelude::*;
use vstd::string::*;

use crate::ids::{id_text, write_id};
use crate::models::{text_of, ClientMessage, ClientMessageView};
use crate::rules::Delivery;
use crate::security::{
    ends_are_whole, redact_ice, redact_sdp, redact_token, redacted_ice, redacted_sdp,
    redacted_token,
};

verus! {

/// Whom the first of the messages that go out is for, or nobody's id where none
/// goes out.
pub open spec fn target_of(ds: Seq<Delivery>) -> u128 {
    if ds.len() > 0 {
        ds[0].0
    } else {
        0
    }
}

/// The line that is logged of a relay.
pub open spec fn relay_line(
    what: Seq<char>,
    id: u128,
    target: u128,
    link: Seq<char>,
    content: Seq<char>,
) -> Seq<char> {
    what + " relay "@ + id_text(id) + " -> "@ + id_text(target) + link + content
}

/// The line that is logged of a client's message that was not refused, where the
/// first of the messages that then went out was for `target`. Tokens, session
/// descriptions and candidates stand in it as logs may show them.
pub open spec fn log_line(
    id: u128,
    message: ClientMessageView,
    target: u128,
    new_transfer_id: Seq<char>,
    new_token: Seq<char>,
) -> Option<Seq<char>> {
    match message {
        ClientMessageView::Register { .. } => None,
        ClientMessageView::CreateSession => Some(
            "Session created transfer_id="@ + new_transfer_id + " sender="@ + id_text(id)
                + " token="@ + redacted_token(new_token),
        ),
        ClientMessageView::JoinSession { transfer_id } => Some(
            "Receiver "@ + id_text(id) + " requested join for "@ + transfer_id,
        ),
        ClientMessageView::ApproveJoin { .. } => Some(
            "Sender "@ + id_text(id) + " approved receiver "@ + id_text(target),
        ),
        ClientMessageView::Offer { sdp, .. } => Some(
            relay_line("Offer"@, id, target, " SDP="@, redacted_sdp(sdp)),
        ),
        ClientMessageView::Answer { sdp, .. } => Some(
            relay_line("Answer"@, id, target, " SDP="@, redacted_sdp(sdp)),
        ),
        ClientMessageView::IceCandidate { candidate, .. } => Some(
            relay_line("ICE"@, id, target, " "@, redacted_ice(candidate)),
        ),
        ClientMessageView::Heartbeat => None,
        ClientMessageView::Disconnect => Some(
            "Peer "@ + id_text(id) + " disconnect requested"@,
        ),
    }
}

fn write_relay_line(what: &str, id: u128, target: u128, link: &str, content: &str) -> (s: String)
    ensures
        s@ == relay_line(what@, id, target, link@, content@),
{
    let mut s = what.to_string();
    s.append(" relay ");
    s.append(write_id(id).as_str());
    s.append(" -> ");
    s.append(write_id(target).as_str());
    s.append(link);
    s.append(content);
    s
}

/// Writes the line that is logged of a client's message that was not refused.
pub fn message_log(
    id: u128,
    message: &ClientMessage,
    target: u128,
    new_transfer_id: &str,
    new_token: &str,
) -> (r: Option<String>)
    requires
        message@ is CreateSession ==> ends_are_whole(new_token@),
    ensures
        text_of(r) == log_line(
            id,
            message@,
            target,
            new_transfer_id@,
            new_token@,
        ),
{
    match message {
        ClientMessage::Register { .. } => None,
        ClientMessage::CreateSession => {
            let mut s = "Session created transfer_id=".to_string();
            s.append(new_transfer_id);
            s.append(" sender=");
            s.append(write_id(id).as_str());
            s.append(" token=");
            s.append(redact_token(new_token).as_str());
            Some(s)
        },
        ClientMessage::JoinSession { transfer_id } => {
            let mut s = "Receiver ".to_string();
            s.append(write_id(id).as_str());
            s.append(" requested join for ");
            s.append(transfer_id.as_str());
            Some(s)
        },
        ClientMessage::ApproveJoin { .. } => {
            let mut s = "Sender ".to_string();
            s.append(write_id(id).as_str());
            s.append(" approved receiver ");
            s.append(write_id(target).as_str());
            Some(s)
        },
        ClientMessage::Offer { sdp, .. } => Some(
            write_relay_line("Offer", id, target, " SDP=", redact_sdp(sdp.as_str()).as_str()),
        ),
        ClientMessage::Answer { sdp, .. } => Some(
            write_relay_line("Answer", id, target, " SDP=", redact_sdp(sdp.as_str()).as_str()),
        ),
        ClientMessage::IceCandidate { candidate, .. } => Some(
            write_relay_line("ICE", id, target, " ", redact_ice(candidate.as_str()).as_str()),
        ),
        ClientMessage::Heartbeat => None,
        ClientMessage::Disconnect => {
            let mut s = "Peer ".to_string();
            s.append(write_id(id).as_str());
            s.append(" disconnect requested");
            Some(s)
        },
    }
}

} // verus!
