//! Laws on what the models of messages, sessions and peers hold of them.
use tokio::sync::mpsc::UnboundedSender;
use vstd::prelude::*;

use crate::models::{
    text_of, ClientMessage, ClientMessageView, Role, ServerMessage, ServerMessageView,
    VersionedServerMessage,
};
use crate::security::{is_code, picked};
use crate::state::{AppState, Peer, PeerFacts, Session};
use crate::tables::{peer_table, sent_through, session_table};

verus! {

/// The model of an optional text holds the text, where there is one.
pub proof fn optional_text_is_kept(s: String)
    ensures
        text_of(Some(s)) == Some(s@),
        text_of(None) == None::<Seq<char>>,
{
}

/// The model of a client's message holds its kind and every field of it.
pub proof fn client_message_is_kept(
    role: Role,
    t: String,
    a: String,
    b: String,
    mid: Option<String>,
    index: Option<u16>,
)
    ensures
        (ClientMessage::Register { role })@ == (ClientMessageView::Register { role }),
        ClientMessage::CreateSession@ == ClientMessageView::CreateSession,
        (ClientMessage::JoinSession { transfer_id: t })@ == (ClientMessageView::JoinSession {
            transfer_id: t@,
        }),
        (ClientMessage::ApproveJoin { transfer_id: t, token: a, receiver_id: b })@ == (
        ClientMessageView::ApproveJoin { transfer_id: t@, token: a@, receiver_id: b@ }),
        (ClientMessage::Offer { transfer_id: t, sdp: a })@ == (ClientMessageView::Offer {
            transfer_id: t@,
            sdp: a@,
        }),
        (ClientMessage::Answer { transfer_id: t, sdp: a })@ == (ClientMessageView::Answer {
            transfer_id: t@,
            sdp: a@,
        }),
        (ClientMessage::IceCandidate {
            transfer_id: t,
            candidate: a,
            sdp_mid: mid,
            sdp_mline_index: index,
        })@ == (ClientMessageView::IceCandidate {
            transfer_id: t@,
            candidate: a@,
            sdp_mid: text_of(mid),
            sdp_mline_index: index,
        }),
        ClientMessage::Heartbeat@ == ClientMessageView::Heartbeat,
        ClientMessage::Disconnect@ == ClientMessageView::Disconnect,
{
}

/// The model of a server's message holds its kind and every field of it.
pub proof fn server_message_is_kept(
    role: Role,
    a: String,
    b: String,
    mid: Option<String>,
    index: Option<u16>,
)
    ensures
        (ServerMessage::Registered { peer_id: a })@ == (ServerMessageView::Registered {
            peer_id: a@,
        }),
        (ServerMessage::SessionCreated { transfer_id: a, token: b })@ == (
        ServerMessageView::SessionCreated { transfer_id: a@, token: b@ }),
        (ServerMessage::JoinRequest { receiver_id: a })@ == (ServerMessageView::JoinRequest {
            receiver_id: a@,
        }),
        (ServerMessage::SessionJoined { transfer_id: a })@ == (ServerMessageView::SessionJoined {
            transfer_id: a@,
        }),
        (ServerMessage::PeerJoined { peer_id: a, role })@ == (ServerMessageView::PeerJoined {
            peer_id: a@,
            role,
        }),
        (ServerMessage::PeerDisconnected { peer_id: a, role })@ == (
        ServerMessageView::PeerDisconnected { peer_id: a@, role }),
        (ServerMessage::RelayOffer { sdp: a })@ == (ServerMessageView::RelayOffer { sdp: a@ }),
        (ServerMessage::RelayAnswer { sdp: a })@ == (ServerMessageView::RelayAnswer { sdp: a@ }),
        (ServerMessage::RelayIceCandidate {
            candidate: a,
            sdp_mid: mid,
            sdp_mline_index: index,
        })@ == (ServerMessageView::RelayIceCandidate {
            candidate: a@,
            sdp_mid: text_of(mid),
            sdp_mline_index: index,
        }),
        ServerMessage::HeartbeatAck@ == ServerMessageView::HeartbeatAck,
        (ServerMessage::Error { code: a, message: b })@ == (ServerMessageView::Error {
            code: a@,
            message: b@,
        }),
{
}

/// The models of a peer, a session and the server hold every field of them.
pub proof fn records_are_kept(p: Peer, session: Session, state: AppState)
    ensures
        p@.id == p.id,
        p@.role == p.role,
        p@.tx == p.tx,
        p@.last_heartbeat == p.last_heartbeat,
        p@.session_id == text_of(p.session_id),
        p@.rate_limit_tokens == p.rate_limit_tokens,
        p@.rate_limit_last_check == p.rate_limit_last_check,
        p@.rate_limit_spent == p.rate_limit_spent@,
        p@.bad_message_count == p.bad_message_count,
        session@.transfer_id == session.transfer_id@,
        session@.token == session.token@,
        session@.sender_id == session.sender_id,
        session@.receiver_id == session.receiver_id,
        session@.created_at == session.created_at,
        session@.expires_at == session.expires_at,
        state@.peers == peer_table(state.peers),
        state@.sessions == session_table(state.sessions),
        state@.config == state.config,
        state@.clock == state.clock,
        state@.sent == sent_through(state.peers),
{
}

/// The facts of a peer, with a handle, are what they are of the peer.
pub proof fn facts_are_kept(f: PeerFacts, tx: UnboundedSender<VersionedServerMessage>)
    ensures
        f.on(tx).id == f.id,
        f.on(tx).role == f.role,
        f.on(tx).tx == tx,
        f.on(tx).last_heartbeat == f.last_heartbeat,
        f.on(tx).session_id == text_of(f.session_id),
        f.on(tx).rate_limit_tokens == f.rate_limit_tokens,
        f.on(tx).rate_limit_last_check == f.rate_limit_last_check,
        f.on(tx).rate_limit_spent == f.rate_limit_spent@,
        f.on(tx).bad_message_count == f.bad_message_count,
{
}

/// A code is as long as it should be and holds characters of its alphabet only; what
/// numbers pick is, place by place, the character that each number says.
pub proof fn codes_are_made_of_their_alphabet(
    s: Seq<char>,
    length: nat,
    alphabet: Seq<char>,
    choices: Seq<usize>,
    i: int,
)
    ensures
        is_code(s, length, alphabet) ==> s.len() == length && (0 <= i < s.len()
            ==> alphabet.contains(s[i])),
        picked(choices, alphabet).len() == choices.len(),
        0 <= i < choices.len() ==> picked(choices, alphabet)[i] == alphabet[choices[i] as int],
{
}

} // verus!
