//! The concurrent maps of the `dashmap` crate, as far as this library uses
//! them.
//!
//! Each table has a name for what it holds. The functions here make one call
//! each and say what the call does to the contents. No entry of a table is
//! borrowed while one of them runs, so none of them blocks.

use std::sync::Arc;

use dashmap::DashMap;
use vstd::prelude::*;

use crate::broker::{SubscriberEntry, SubscriberView};
use crate::packet::{PublishPacket, PublishView};
use crate::request::{IncomingPublish, QoS};
use crate::session::AckSlot;
use crate::wire;

verus! {

/// A map from keys to values.
#[verifier::external_type_specification]
#[verifier::external_body]
#[verifier::reject_recursive_types(K)]
#[verifier::reject_recursive_types(V)]
#[verifier::reject_recursive_types(S)]
pub struct ExDashMap<K, V, S>(dashmap::DashMap<K, V, S>);

/// Nothing is in the map.
pub open spec fn no_entries<K, V>(m: Map<K, V>) -> bool {
    m == Map::<K, V>::empty()
}

// ----------------------------------------------------------------------------
// Inbound publishes by packet identifier
// ----------------------------------------------------------------------------

/// The publishes that a table holds.
pub uninterp spec fn held_publishes(m: DashMap<u16, IncomingPublish>) -> Map<u16, PublishView>;

/// Calls `DashMap::new`: a table without entries.
#[verifier::external_body]
pub(crate) fn new_publishes() -> (r: DashMap<u16, IncomingPublish>)
    ensures
        no_entries(held_publishes(r)),
{
    DashMap::new()
}

/// Calls `DashMap::insert`: the key has the new value, every other key keeps
/// its own.
#[verifier::external_body]
pub(crate) fn put_publish(m: &mut DashMap<u16, IncomingPublish>, id: u16, v: IncomingPublish)
    ensures
        held_publishes(*final(m)) == held_publishes(*old(m)).insert(id, v@),
{
    let _ = m.insert(id, v);
}

/// Calls `DashMap::remove`: takes the entry out and returns its value; nothing
/// happens when there is none.
#[verifier::external_body]
pub(crate) fn take_publish(m: &mut DashMap<u16, IncomingPublish>, id: u16) -> (r: Option<
    IncomingPublish,
>)
    ensures
        held_publishes(*final(m)) == held_publishes(*old(m)).remove(id),
        match r {
            Some(v) => held_publishes(*old(m)).contains_pair(id, v@),
            None => !held_publishes(*old(m)).contains_key(id),
        },
{
    m.remove(&id).map(|e| e.1)
}

/// Calls `DashMap::clear`: no entry is left.
#[verifier::external_body]
pub(crate) fn clear_publishes(m: &mut DashMap<u16, IncomingPublish>)
    ensures
        no_entries(held_publishes(*final(m))),
{
    m.clear()
}

// ----------------------------------------------------------------------------
// Acknowledgement slots by packet identifier
// ----------------------------------------------------------------------------

/// The acknowledgement slots that a table holds.
pub uninterp spec fn held_slots(m: DashMap<u16, AckSlot>) -> Map<u16, AckSlot>;

/// Calls `DashMap::new`: a table without entries.
#[verifier::external_body]
pub(crate) fn new_slots() -> (r: DashMap<u16, AckSlot>)
    ensures
        no_entries(held_slots(r)),
{
    DashMap::new()
}

/// Calls `DashMap::insert`: the key has the new value, every other key keeps
/// its own.
#[verifier::external_body]
pub(crate) fn put_slot(m: &mut DashMap<u16, AckSlot>, id: u16, v: AckSlot)
    ensures
        held_slots(*final(m)) == held_slots(*old(m)).insert(id, v),
{
    let _ = m.insert(id, v);
}

/// Calls `DashMap::remove`: takes the entry out and returns its value; nothing
/// happens when there is none.
#[verifier::external_body]
pub(crate) fn take_slot(m: &mut DashMap<u16, AckSlot>, id: u16) -> (r: Option<AckSlot>)
    ensures
        held_slots(*final(m)) == held_slots(*old(m)).remove(id),
        match r {
            Some(v) => held_slots(*old(m)).contains_pair(id, v),
            None => !held_slots(*old(m)).contains_key(id),
        },
{
    m.remove(&id).map(|e| e.1)
}

/// Calls `DashMap::clear`: no entry is left.
#[verifier::external_body]
pub(crate) fn clear_slots(m: &mut DashMap<u16, AckSlot>)
    ensures
        no_entries(held_slots(*final(m))),
{
    m.clear()
}

// ----------------------------------------------------------------------------
// Outbound packets by packet identifier
// ----------------------------------------------------------------------------

/// The packets that a table holds.
pub uninterp spec fn held_packets(m: DashMap<u16, PublishPacket>) -> Map<u16, PublishView>;

/// Calls `DashMap::new`: a table without entries.
#[verifier::external_body]
pub(crate) fn new_packets() -> (r: DashMap<u16, PublishPacket>)
    ensures
        no_entries(held_packets(r)),
{
    DashMap::new()
}

/// Calls `DashMap::insert`: the key has the new value, every other key keeps
/// its own.
#[verifier::external_body]
pub(crate) fn put_packet(m: &mut DashMap<u16, PublishPacket>, id: u16, v: PublishPacket)
    ensures
        held_packets(*final(m)) == held_packets(*old(m)).insert(id, v@),
{
    let _ = m.insert(id, v);
}

/// Calls `DashMap::remove`: takes the entry out and returns its value; nothing
/// happens when there is none.
#[verifier::external_body]
pub(crate) fn take_packet(m: &mut DashMap<u16, PublishPacket>, id: u16) -> (r: Option<
    PublishPacket,
>)
    ensures
        held_packets(*final(m)) == held_packets(*old(m)).remove(id),
        match r {
            Some(v) => held_packets(*old(m)).contains_pair(id, v@),
            None => !held_packets(*old(m)).contains_key(id),
        },
{
    m.remove(&id).map(|e| e.1)
}

/// Calls `DashMap::clear`: no entry is left.
#[verifier::external_body]
pub(crate) fn clear_packets(m: &mut DashMap<u16, PublishPacket>)
    ensures
        no_entries(held_packets(*final(m))),
{
    m.clear()
}

// ----------------------------------------------------------------------------
// QoS levels by text
// ----------------------------------------------------------------------------

/// The QoS levels that a table holds, by filter or by client.
pub uninterp spec fn held_levels(m: DashMap<Arc<str>, QoS>) -> Map<Seq<char>, QoS>;

/// Calls `DashMap::new`: a table without entries.
#[verifier::external_body]
pub(crate) fn new_levels() -> (r: DashMap<Arc<str>, QoS>)
    ensures
        no_entries(held_levels(r)),
{
    DashMap::new()
}

/// Calls `DashMap::insert`: the key has the new value, every other key keeps
/// its own. Keys with the same characters are the same key.
#[verifier::external_body]
pub(crate) fn put_level(m: &mut DashMap<Arc<str>, QoS>, key: Arc<str>, v: QoS)
    ensures
        held_levels(*final(m)) == held_levels(*old(m)).insert(wire::text(key), v),
{
    let _ = m.insert(key, v);
}

/// Calls `DashMap::remove`: the entry with these characters is gone.
#[verifier::external_body]
pub(crate) fn drop_level(m: &mut DashMap<Arc<str>, QoS>, key: &str)
    ensures
        held_levels(*final(m)) == held_levels(*old(m)).remove(key@),
{
    let _ = m.remove(key);
}

// ----------------------------------------------------------------------------
// Subscribers by filter
// ----------------------------------------------------------------------------

/// The subscribers that a table holds for each filter.
pub uninterp spec fn held_subscriptions(m: DashMap<Arc<str>, DashMap<Arc<str>, QoS>>) -> Map<
    Seq<char>,
    Map<Seq<char>, QoS>,
>;

/// The characters and levels of a list of subscribers.
pub open spec fn subscriber_views(v: Seq<(Arc<str>, QoS)>) -> Seq<(Seq<char>, QoS)> {
    v.map_values(|e: (Arc<str>, QoS)| (wire::text(e.0), e.1))
}

/// The characters and levels of a list of filters with their subscribers.
pub open spec fn walk_views(v: Seq<(Arc<str>, Vec<(Arc<str>, QoS)>)>) -> Seq<
    (Seq<char>, Seq<(Seq<char>, QoS)>),
> {
    v.map_values(|e: (Arc<str>, Vec<(Arc<str>, QoS)>)| (wire::text(e.0), subscriber_views(e.1@)))
}

/// `v` lists the entries of `m`, each of them once, in some order.
pub open spec fn lists<K, V>(v: Seq<(K, V)>, m: Map<K, V>) -> bool {
    &&& forall|i: int| 0 <= i < v.len() ==> m.contains_pair(#[trigger] v[i].0, v[i].1)
    &&& forall|i: int, j: int| 0 <= i < j < v.len() ==> (#[trigger] v[i]).0 != (#[trigger] v[j]).0
    &&& forall|k: K| #[trigger]
        m.contains_key(k) ==> exists|i: int| 0 <= i < v.len() && (#[trigger] v[i]).0 == k
}

/// `walk` lists the filters of `m`, each of them once, in some order, and with
/// each filter its subscribers, each of them once, in some order.
pub open spec fn walks(
    walk: Seq<(Seq<char>, Seq<(Seq<char>, QoS)>)>,
    m: Map<Seq<char>, Map<Seq<char>, QoS>>,
) -> bool {
    &&& forall|i: int|
        0 <= i < walk.len() ==> m.contains_key(#[trigger] walk[i].0) && lists(
            walk[i].1,
            m[walk[i].0],
        )
    &&& forall|i: int, j: int|
        0 <= i < j < walk.len() ==> (#[trigger] walk[i]).0 != (#[trigger] walk[j]).0
    &&& forall|k: Seq<char>| #[trigger]
        m.contains_key(k) ==> exists|i: int| 0 <= i < walk.len() && (#[trigger] walk[i]).0 == k
}

/// Calls `DashMap::new`: a table without entries.
#[verifier::external_body]
pub(crate) fn new_subscriptions() -> (r: DashMap<Arc<str>, DashMap<Arc<str>, QoS>>)
    ensures
        no_entries(held_subscriptions(r)),
{
    DashMap::new()
}

/// Calls `DashMap::insert`: the key has the new value, every other key keeps
/// its own. Keys with the same characters are the same key.
#[verifier::external_body]
pub(crate) fn put_subscribers(
    m: &mut DashMap<Arc<str>, DashMap<Arc<str>, QoS>>,
    filter: Arc<str>,
    v: DashMap<Arc<str>, QoS>,
)
    ensures
        held_subscriptions(*final(m)) == held_subscriptions(*old(m)).insert(
            wire::text(filter),
            held_levels(v),
        ),
{
    let _ = m.insert(filter, v);
}

/// Calls `DashMap::remove`: takes the entry with these characters out and
/// returns its key and value; nothing happens when there is none.
#[verifier::external_body]
pub(crate) fn take_subscribers(
    m: &mut DashMap<Arc<str>, DashMap<Arc<str>, QoS>>,
    filter: &str,
) -> (r: Option<(Arc<str>, DashMap<Arc<str>, QoS>)>)
    ensures
        held_subscriptions(*final(m)) == held_subscriptions(*old(m)).remove(filter@),
        match r {
            Some((k, v)) => wire::text(k) == filter@ && held_subscriptions(*old(m)).contains_pair(
                filter@,
                held_levels(v),
            ),
            None => !held_subscriptions(*old(m)).contains_key(filter@),
        },
{
    m.remove(filter)
}

/// Calls `DashMap::iter` on the table and on each of its values: every entry
/// comes out once. In which order is left open.
#[verifier::external_body]
pub(crate) fn list_subscriptions(m: &DashMap<Arc<str>, DashMap<Arc<str>, QoS>>) -> (r: Vec<
    (Arc<str>, Vec<(Arc<str>, QoS)>),
>)
    ensures
        walks(walk_views(r@), held_subscriptions(*m)),
{
    m.iter().map(
        |e| (e.key().clone(), e.value().iter().map(|s| (s.key().clone(), *s.value())).collect()),
    ).collect()
}

// ----------------------------------------------------------------------------
// Sessions by client
// ----------------------------------------------------------------------------

/// The sessions that a table holds.
pub uninterp spec fn held_sessions(m: DashMap<Arc<str>, SubscriberEntry>) -> Map<
    Seq<char>,
    SubscriberView,
>;

/// Calls `DashMap::new`: a table without entries.
#[verifier::external_body]
pub(crate) fn new_sessions() -> (r: DashMap<Arc<str>, SubscriberEntry>)
    ensures
        no_entries(held_sessions(r)),
{
    DashMap::new()
}

/// Calls `DashMap::insert`: the key has the new value, every other key keeps
/// its own. Keys with the same characters are the same key.
#[verifier::external_body]
pub(crate) fn put_session(
    m: &mut DashMap<Arc<str>, SubscriberEntry>,
    client_id: Arc<str>,
    v: SubscriberEntry,
)
    ensures
        held_sessions(*final(m)) == held_sessions(*old(m)).insert(wire::text(client_id), v@),
{
    let _ = m.insert(client_id, v);
}

/// Calls `DashMap::remove`: takes the entry with these characters out and
/// returns its value; nothing happens when there is none.
#[verifier::external_body]
pub(crate) fn take_session(m: &mut DashMap<Arc<str>, SubscriberEntry>, client_id: &str) -> (r:
    Option<SubscriberEntry>)
    ensures
        held_sessions(*final(m)) == held_sessions(*old(m)).remove(client_id@),
        match r {
            Some(v) => held_sessions(*old(m)).contains_pair(client_id@, v@),
            None => !held_sessions(*old(m)).contains_key(client_id@),
        },
{
    m.remove(client_id).map(|e| e.1)
}

/// Calls `DashMap::get`: the channel of the entry with these characters, when
/// there is one.
#[verifier::external_body]
pub(crate) fn session_channel(m: &DashMap<Arc<str>, SubscriberEntry>, client_id: &str) -> (r:
    Option<u64>)
    ensures
        r == (if held_sessions(*m).contains_key(client_id@) {
            Some(held_sessions(*m)[client_id@].channel)
        } else {
            None
        }),
{
    m.get(client_id).map(|e| e.channel)
}

} // verus!
