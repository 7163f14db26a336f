//! The tables of connected peers and open sessions, and the channels of the peers.
use dashmap::DashMap;
use std::collections::hash_map::RandomState;
use vstd::prelude::*;

use crate::models::{MessageView, VersionedServerMessage};
use crate::rules::{Delivery, PeerView, SessionView};
use crate::state::{Peer, PeerFacts, Session};

verus! {

#[verifier::external_type_specification]
#[verifier::external_body]
#[verifier::reject_recursive_types(T)]
pub struct ExUnboundedSender<T>(tokio::sync::mpsc::UnboundedSender<T>);

#[verifier::external_type_specification]
#[verifier::external_body]
#[verifier::reject_recursive_types(K)]
#[verifier::reject_recursive_types(V)]
#[verifier::reject_recursive_types(S)]
pub struct ExDashMap<K, V, S>(dashmap::DashMap<K, V, S>);

/// The peers that a table holds, by peer id.
pub uninterp spec fn peer_table(m: DashMap<u128, Peer, RandomState>) -> Map<u128, PeerView>;

/// The messages that channels have taken through the entries of a table since it
/// was made, oldest first, each with the id of the entry.
pub uninterp spec fn sent_through(m: DashMap<u128, Peer, RandomState>) -> Seq<(u128, MessageView)>;

/// The sessions that a table holds, by transfer id.
pub uninterp spec fn session_table(m: DashMap<String, Session, RandomState>) -> Map<
    Seq<char>,
    SessionView,
>;

/// The table of peers with no entry.
pub open spec fn no_peers() -> Map<u128, PeerView> {
    Map::empty()
}

/// The table of sessions with no entry.
pub open spec fn no_sessions() -> Map<Seq<char>, SessionView> {
    Map::empty()
}

/// The table holds this many entries.
pub open spec fn has_entries(table: Map<u128, PeerView>, n: nat) -> bool {
    table.dom().finite() && table.len() == n
}

/// `DashMap::new`: the table is empty, and nothing has been sent through it.
#[verifier::external_body]
pub(crate) fn new_peers() -> (m: DashMap<u128, Peer, RandomState>)
    ensures
        peer_table(m) == no_peers(),
        sent_through(m).len() == 0,
{
    DashMap::new()
}

/// `DashMap::len`: the number of entries.
#[verifier::external_body]
pub(crate) fn peer_count(m: &DashMap<u128, Peer, RandomState>) -> (n: usize)
    ensures
        has_entries(peer_table(*m), n as nat),
{
    m.len()
}

/// Whether the facts are those of the table's entry under this id, and there are
/// none where it has no entry.
pub open spec fn describes(
    r: Option<PeerFacts>,
    table: Map<u128, PeerView>,
    id: u128,
) -> bool {
    match r {
        Some(f) => table.contains_key(id) && table[id] == f.on(table[id].tx),
        None => !table.contains_key(id),
    }
}

/// The table with these facts in the entry under this id, where it has one.
pub open spec fn updated(
    table: Map<u128, PeerView>,
    id: u128,
    facts: PeerFacts,
) -> Map<u128, PeerView> {
    if table.contains_key(id) {
        table.insert(id, facts.on(table[id].tx))
    } else {
        table
    }
}

/// `DashMap::get`: the facts of the entry under this id, where there is one.
#[verifier::external_body]
pub(crate) fn find_peer(m: &DashMap<u128, Peer, RandomState>, id: u128) -> (r: Option<PeerFacts>)
    ensures
        describes(r, peer_table(*m), id),
{
    m.get(&id).map(|entry| entry.facts())
}

/// `DashMap::insert`: the entry stands under this id, in place of any before.
#[verifier::external_body]
pub(crate) fn put_peer(m: &mut DashMap<u128, Peer, RandomState>, id: u128, peer: Peer)
    ensures
        peer_table(*final(m)) == peer_table(*old(m)).insert(id, peer@),
        sent_through(*final(m)) == sent_through(*old(m)),
{
    m.insert(id, peer);
}

/// `DashMap::alter`: the entry under this id, where there is one, has these facts
/// and the handle that it had.
#[verifier::external_body]
pub(crate) fn update_peer(m: &mut DashMap<u128, Peer, RandomState>, id: u128, facts: PeerFacts)
    ensures
        peer_table(*final(m)) == updated(peer_table(*old(m)), id, facts),
        sent_through(*final(m)) == sent_through(*old(m)),
{
    m.alter(&id, |_, peer| peer.with_facts(facts));
}

/// `DashMap::remove`: the entry under this id leaves the table, and its handle is
/// dropped. What comes back is the facts of the entry.
#[verifier::external_body]
pub(crate) fn drop_peer(m: &mut DashMap<u128, Peer, RandomState>, id: u128) -> (r: Option<
    PeerFacts,
>)
    ensures
        peer_table(*final(m)) == peer_table(*old(m)).remove(id),
        sent_through(*final(m)) == sent_through(*old(m)),
        describes(r, peer_table(*old(m)), id),
{
    m.remove(&id).map(|entry| entry.1.facts())
}

/// `UnboundedSender::send` on the handle in the entry that `DashMap::get` finds
/// under this id: the channel takes the message, or, when its receiving half is
/// closed, refuses it. Nothing is sent where there is no entry. Whether the
/// receiving half is open is up to the client's connection.
#[verifier::external_body]
fn channel_send(
    m: &mut DashMap<u128, Peer, RandomState>,
    id: u128,
    message: VersionedServerMessage,
) -> (r: Option<bool>)
    ensures
        r is Some == peer_table(*old(m)).contains_key(id),
        peer_table(*final(m)) == peer_table(*old(m)),
        sent_through(*final(m)) == (if r == Some(true) {
            sent_through(*old(m)).push((id, message@))
        } else {
            sent_through(*old(m))
        }),
{
    let entry = m.get(&id)?;
    Some(entry.tx.send(message).is_ok())
}

/// Whether the channel in a table's entry, when these messages had been sent
/// through the table, was asked to take this message, and answered so.
pub closed spec fn has_answered(history: Seq<Delivery>, d: Delivery, taken: bool) -> bool {
    exists|m: &mut DashMap<u128, Peer, RandomState>, message: VersionedServerMessage|
        #[trigger]
        call_ensures(channel_send, (m, d.0, message), Some(taken)) && sent_through(*m) == history
            && message@ == d.1
}

/// Asks the channel of a peer to take a message. Returns whether it took it, or
/// nothing where the peer is not in the table.
pub(crate) fn hand_over(
    m: &mut DashMap<u128, Peer, RandomState>,
    id: u128,
    message: VersionedServerMessage,
) -> (r: Option<bool>)
    ensures
        r is Some == peer_table(*old(m)).contains_key(id),
        r matches Some(taken) ==> has_answered(sent_through(*old(m)), (id, message@), taken),
        peer_table(*final(m)) == peer_table(*old(m)),
        sent_through(*final(m)) == (if r == Some(true) {
            sent_through(*old(m)).push((id, message@))
        } else {
            sent_through(*old(m))
        }),
{
    let r = channel_send(m, id, message);
    proof {
        if let Some(taken) = r {
            let d: Delivery = (id, message@);
            assert(exists|x: &mut DashMap<u128, Peer, RandomState>| #[trigger]
                call_ensures(channel_send, (x, d.0, message), Some(taken)) && sent_through(*x)
                    == sent_through(*old(m)));
            assert(has_answered(sent_through(*old(m)), d, taken));
        }
    }
    r
}

/// `DashMap::iter`: every id once, in an order that the table's hasher decides.
#[verifier::external_body]
pub(crate) fn peer_ids(m: &DashMap<u128, Peer, RandomState>) -> (ids: Vec<u128>)
    ensures
        ids@.no_duplicates(),
        ids@.to_set() == peer_table(*m).dom(),
{
    m.iter().map(|entry| *entry.key()).collect()
}

/// `DashMap::new`: the table is empty.
#[verifier::external_body]
pub(crate) fn new_sessions() -> (m: DashMap<String, Session, RandomState>)
    ensures
        session_table(m) == no_sessions(),
{
    DashMap::new()
}

/// `DashMap::get`: a copy of the entry under this id, where there is one.
#[verifier::external_body]
pub(crate) fn find_session(
    m: &DashMap<String, Session, RandomState>,
    transfer_id: &str,
) -> (r: Option<Session>)
    ensures
        match r {
            Some(s) => session_table(*m).contains_key(transfer_id@) && s@ == session_table(
                *m,
            )[transfer_id@],
            None => !session_table(*m).contains_key(transfer_id@),
        },
{
    m.get(transfer_id).map(|entry| entry.value().clone())
}

/// `DashMap::insert`: the entry stands under this id, in place of any before.
#[verifier::external_body]
pub(crate) fn put_session(
    m: &mut DashMap<String, Session, RandomState>,
    transfer_id: String,
    session: Session,
)
    ensures
        session_table(*final(m)) == session_table(*old(m)).insert(transfer_id@, session@),
{
    m.insert(transfer_id, session);
}

/// `DashMap::remove`: the entry under this id leaves the table and comes back.
#[verifier::external_body]
pub(crate) fn take_session(
    m: &mut DashMap<String, Session, RandomState>,
    transfer_id: &str,
) -> (r: Option<Session>)
    ensures
        session_table(*final(m)) == session_table(*old(m)).remove(transfer_id@),
        match r {
            Some(s) => session_table(*old(m)).contains_key(transfer_id@) && s@ == session_table(
                *old(m),
            )[transfer_id@],
            None => !session_table(*old(m)).contains_key(transfer_id@),
        },
{
    m.remove(transfer_id).map(|entry| entry.1)
}

/// `DashMap::iter`: every transfer id once, in an order that the table's
/// hasher decides.
#[verifier::external_body]
pub(crate) fn session_ids(m: &DashMap<String, Session, RandomState>) -> (ids: Vec<String>)
    ensures
        ids@.map_values(|s: String| s@).no_duplicates(),
        ids@.map_values(|s: String| s@).to_set() == session_table(*m).dom(),
{
    m.iter().map(|entry| entry.key().clone()).collect()
}

} // verus!
