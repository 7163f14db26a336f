//! The messages that clients and the server exchange.
use vstd::prelude::*;

verus! {

/// What a peer does in a transfer.
#[derive(Debug, Clone, Copy, PartialEq, Eq, Structural)]
pub enum Role {
    Sender,
    Receiver,
}

/// A message from a client.
#[derive(Debug, Clone, PartialEq, Eq)]
pub enum ClientMessage {
    Register { role: Role },
    CreateSession,
    JoinSession { transfer_id: String },
    ApproveJoin { transfer_id: String, token: String, receiver_id: String },
    Offer { transfer_id: String, sdp: String },
    Answer { transfer_id: String, sdp: String },
    IceCandidate {
        transfer_id: String,
        candidate: String,
        sdp_mid: Option<String>,
        sdp_mline_index: Option<u16>,
    },
    Heartbeat,
    Disconnect,
}

/// A message to a client, without the protocol version.
#[derive(Debug, Clone, PartialEq, Eq)]
pub enum ServerMessage {
    Registered { peer_id: String },
    SessionCreated { transfer_id: String, token: String },
    JoinRequest { receiver_id: String },
    SessionJoined { transfer_id: String },
    PeerJoined { peer_id: String, role: Role },
    PeerDisconnected { peer_id: String, role: Role },
    RelayOffer { sdp: String },
    RelayAnswer { sdp: String },
    RelayIceCandidate {
        candidate: String,
        sdp_mid: Option<String>,
        sdp_mline_index: Option<u16>,
    },
    HeartbeatAck,
    Error { code: String, message: String },
}

/// A message to a client, as it goes out.
#[derive(Debug, Clone)]
pub struct VersionedServerMessage {
    pub version: String,
    pub payload: ServerMessage,
}

/// The characters of an optional text.
pub open spec fn text_of(s: Option<String>) -> Option<Seq<char>> {
    match s {
        Some(t) => Some(t@),
        None => None,
    }
}

/// What a [`ClientMessage`] says.
pub enum ClientMessageView {
    Register { role: Role },
    CreateSession,
    JoinSession { transfer_id: Seq<char> },
    ApproveJoin { transfer_id: Seq<char>, token: Seq<char>, receiver_id: Seq<char> },
    Offer { transfer_id: Seq<char>, sdp: Seq<char> },
    Answer { transfer_id: Seq<char>, sdp: Seq<char> },
    IceCandidate {
        transfer_id: Seq<char>,
        candidate: Seq<char>,
        sdp_mid: Option<Seq<char>>,
        sdp_mline_index: Option<u16>,
    },
    Heartbeat,
    Disconnect,
}

impl View for ClientMessage {
    type V = ClientMessageView;

    open spec fn view(&self) -> ClientMessageView {
        match *self {
            ClientMessage::Register { role } => ClientMessageView::Register { role },
            ClientMessage::CreateSession => ClientMessageView::CreateSession,
            ClientMessage::JoinSession { transfer_id } => ClientMessageView::JoinSession {
                transfer_id: transfer_id@,
            },
            ClientMessage::ApproveJoin { transfer_id, token, receiver_id } =>
                ClientMessageView::ApproveJoin {
                transfer_id: transfer_id@,
                token: token@,
                receiver_id: receiver_id@,
            },
            ClientMessage::Offer { transfer_id, sdp } => ClientMessageView::Offer {
                transfer_id: transfer_id@,
                sdp: sdp@,
            },
            ClientMessage::Answer { transfer_id, sdp } => ClientMessageView::Answer {
                transfer_id: transfer_id@,
                sdp: sdp@,
            },
            ClientMessage::IceCandidate { transfer_id, candidate, sdp_mid, sdp_mline_index } =>
                ClientMessageView::IceCandidate {
                transfer_id: transfer_id@,
                candidate: candidate@,
                sdp_mid: text_of(sdp_mid),
                sdp_mline_index,
            },
            ClientMessage::Heartbeat => ClientMessageView::Heartbeat,
            ClientMessage::Disconnect => ClientMessageView::Disconnect,
        }
    }
}

/// What a [`ServerMessage`] says.
pub enum ServerMessageView {
    Registered { peer_id: Seq<char> },
    SessionCreated { transfer_id: Seq<char>, token: Seq<char> },
    JoinRequest { receiver_id: Seq<char> },
    SessionJoined { transfer_id: Seq<char> },
    PeerJoined { peer_id: Seq<char>, role: Role },
    PeerDisconnected { peer_id: Seq<char>, role: Role },
    RelayOffer { sdp: Seq<char> },
    RelayAnswer { sdp: Seq<char> },
    RelayIceCandidate {
        candidate: Seq<char>,
        sdp_mid: Option<Seq<char>>,
        sdp_mline_index: Option<u16>,
    },
    HeartbeatAck,
    Error { code: Seq<char>, message: Seq<char> },
}

impl View for ServerMessage {
    type V = ServerMessageView;

    open spec fn view(&self) -> ServerMessageView {
        match *self {
            ServerMessage::Registered { peer_id } => ServerMessageView::Registered {
                peer_id: peer_id@,
            },
            ServerMessage::SessionCreated { transfer_id, token } =>
                ServerMessageView::SessionCreated { transfer_id: transfer_id@, token: token@ },
            ServerMessage::JoinRequest { receiver_id } => ServerMessageView::JoinRequest {
                receiver_id: receiver_id@,
            },
            ServerMessage::SessionJoined { transfer_id } => ServerMessageView::SessionJoined {
                transfer_id: transfer_id@,
            },
            ServerMessage::PeerJoined { peer_id, role } => ServerMessageView::PeerJoined {
                peer_id: peer_id@,
                role,
            },
            ServerMessage::PeerDisconnected { peer_id, role } =>
                ServerMessageView::PeerDisconnected { peer_id: peer_id@, role },
            ServerMessage::RelayOffer { sdp } => ServerMessageView::RelayOffer { sdp: sdp@ },
            ServerMessage::RelayAnswer { sdp } => ServerMessageView::RelayAnswer { sdp: sdp@ },
            ServerMessage::RelayIceCandidate { candidate, sdp_mid, sdp_mline_index } =>
                ServerMessageView::RelayIceCandidate {
                candidate: candidate@,
                sdp_mid: text_of(sdp_mid),
                sdp_mline_index,
            },
            ServerMessage::HeartbeatAck => ServerMessageView::HeartbeatAck,
            ServerMessage::Error { code, message } => ServerMessageView::Error {
                code: code@,
                message: message@,
            },
        }
    }
}

/// What a [`VersionedServerMessage`] says.
pub struct MessageView {
    pub version: Seq<char>,
    pub payload: ServerMessageView,
}

impl View for VersionedServerMessage {
    type V = MessageView;

    open spec fn view(&self) -> MessageView {
        MessageView { version: self.version@, payload: self.payload@ }
    }
}

/// The payload under the protocol version that the server speaks.
pub open spec fn versioned(payload: ServerMessageView) -> MessageView {
    MessageView { version: "1"@, payload }
}

impl VersionedServerMessage {
    /// Puts the protocol version on a payload.
    pub fn new(payload: ServerMessage) -> (r: Self)
        ensures
            r@ == versioned(payload@),
            r.payload == payload,
    {
        VersionedServerMessage { version: "1".to_string(), payload }
    }
}

} // verus!
