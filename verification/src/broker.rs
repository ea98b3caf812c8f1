//! The broker: server-side state for handing messages from one connection to
//! others.
//!
//! The broker owns the connections, by number, the sessions, by client, and the
//! subscriptions, by filter. To publish is to put a PUBLISH into the outbox of
//! the connection of every matching subscriber.

use std::collections::HashMap;
use std::sync::Arc;

use dashmap::DashMap;
use vstd::prelude::*;

use crate::buffers;
use crate::channel::{ChannelView, MqttChannel, WriteView};
use crate::packet::{ConnackReturnCode, ConnectPacket, PublishPacket, PublishView, WillView};
use crate::properties::{Properties, PropertiesView};
use crate::request;
use crate::request::{IncomingPublish, PacketId, QoS, SubackCode, TopicFilter, WillMessage};
use crate::session;
use crate::session::{AckSlot, SessionView};
use crate::tables;
use crate::topic;
use crate::wire;

verus! {

broadcast use vstd::std_specs::hash::group_hash_axioms;

// ----------------------------------------------------------------------------
// Authentication
// ----------------------------------------------------------------------------

/// What an authenticator decides about a CONNECT.
#[derive(Debug, Clone, Copy, PartialEq, Eq, Structural)]
pub struct AuthResult {
    pub accepted: bool,
    pub return_code: ConnackReturnCode,
}

impl AuthResult {
    pub fn accept() -> (r: Self)
        ensures
            r == (AuthResult { accepted: true, return_code: ConnackReturnCode::Accepted }),
    {
        AuthResult { accepted: true, return_code: ConnackReturnCode::Accepted }
    }

    pub fn reject(code: ConnackReturnCode) -> (r: Self)
        ensures
            r == (AuthResult { accepted: false, return_code: code }),
    {
        AuthResult { accepted: false, return_code: code }
    }
}

/// The default authenticator, which accepts every CONNECT.
pub struct AcceptAllAuthenticator;

impl AcceptAllAuthenticator {
    pub fn authenticate(&self, _connect: &ConnectPacket) -> (r: AuthResult)
        ensures
            r == (AuthResult { accepted: true, return_code: ConnackReturnCode::Accepted }),
    {
        AuthResult::accept()
    }
}

// ----------------------------------------------------------------------------
// Sessions
// ----------------------------------------------------------------------------

/// The broker's record of a client.
pub struct SubscriberEntry {
    /// The number of the connection that the client is on.
    pub channel: u64,
    pub filters: DashMap<Arc<str>, QoS>,
    pub will: Option<WillMessage>,
    pub clean_session: bool,
}

/// The view of a client's record.
#[verifier::ext_equal]
pub struct SubscriberView {
    pub channel: u64,
    pub filters: Map<Seq<char>, QoS>,
    pub will: Option<WillView>,
    pub clean_session: bool,
}

/// The view of an optional will message.
pub open spec fn opt_will_message(w: Option<WillMessage>) -> Option<WillView> {
    match w {
        Some(w) => Some(w@),
        None => None,
    }
}

impl View for SubscriberEntry {
    type V = SubscriberView;

    open spec fn view(&self) -> SubscriberView {
        SubscriberView {
            channel: self.channel,
            filters: tables::held_levels(self.filters),
            will: opt_will_message(self.will),
            clean_session: self.clean_session,
        }
    }
}

// ----------------------------------------------------------------------------
// Subscriptions
// ----------------------------------------------------------------------------

/// The subscribers of a filter.
pub open spec fn subscribers(
    subs: Map<Seq<char>, Map<Seq<char>, QoS>>,
    filter: Seq<char>,
) -> Map<Seq<char>, QoS> {
    if subs.contains_key(filter) {
        subs[filter]
    } else {
        Map::empty()
    }
}

/// The subscriptions after a client has subscribed to a filter.
pub open spec fn subscribed(
    subs: Map<Seq<char>, Map<Seq<char>, QoS>>,
    client: Seq<char>,
    filter: Seq<char>,
    qos: QoS,
) -> Map<Seq<char>, Map<Seq<char>, QoS>> {
    subs.insert(filter, subscribers(subs, filter).insert(client, qos))
}

/// The subscriptions after a client has unsubscribed from a filter.
pub open spec fn unsubscribed(
    subs: Map<Seq<char>, Map<Seq<char>, QoS>>,
    client: Seq<char>,
    filter: Seq<char>,
) -> Map<Seq<char>, Map<Seq<char>, QoS>> {
    if subs.contains_key(filter) {
        subs.insert(filter, subs[filter].remove(client))
    } else {
        subs
    }
}

/// The subscriptions without those of a client.
pub open spec fn without_client(
    subs: Map<Seq<char>, Map<Seq<char>, QoS>>,
    client: Seq<char>,
) -> Map<Seq<char>, Map<Seq<char>, QoS>> {
    subs.map_values(|m: Map<Seq<char>, QoS>| m.remove(client))
}

/// The subscribers whose filters match a topic, in the order of a walk over all
/// subscriptions. A client that subscribes with several matching filters comes
/// once for each of them.
pub open spec fn matches(
    walk: Seq<(Seq<char>, Seq<(Seq<char>, QoS)>)>,
    topic: Seq<char>,
) -> Seq<(Seq<char>, QoS)>
    decreases walk.len(),
{
    if walk.len() == 0 {
        Seq::empty()
    } else {
        let before = matches(walk.drop_last(), topic);
        if topic::topic_matches(walk.last().0, topic) {
            before + walk.last().1
        } else {
            before
        }
    }
}

/// Which clients subscribe to which filters.
struct SubscriptionTree {
    subs: DashMap<Arc<str>, DashMap<Arc<str>, QoS>>,
}

impl View for SubscriptionTree {
    type V = Map<Seq<char>, Map<Seq<char>, QoS>>;

    closed spec fn view(&self) -> Map<Seq<char>, Map<Seq<char>, QoS>> {
        tables::held_subscriptions(self.subs)
    }
}

impl SubscriptionTree {
    fn new() -> (r: Self)
        ensures
            r@ == Map::<Seq<char>, Map<Seq<char>, QoS>>::empty(),
    {
        SubscriptionTree { subs: tables::new_subscriptions() }
    }

    fn subscribe(&mut self, client_id: Arc<str>, filter: Arc<str>, qos: QoS)
        ensures
            final(self)@ == subscribed(
                old(self)@,
                wire::text(client_id),
                wire::text(filter),
                qos,
            ),
    {
        let mut set = match tables::take_subscribers(&mut self.subs, &*filter) {
            Some((_, set)) => set,
            None => tables::new_levels(),
        };
        tables::put_level(&mut set, client_id, qos);
        tables::put_subscribers(&mut self.subs, filter, set);
        assert(self@ =~= subscribed(old(self)@, wire::text(client_id), wire::text(filter), qos));
    }

    fn unsubscribe(&mut self, client_id: &str, filter: &str)
        ensures
            final(self)@ == unsubscribed(old(self)@, client_id@, filter@),
    {
        match tables::take_subscribers(&mut self.subs, filter) {
            Some((key, set)) => {
                let mut set = set;
                tables::drop_level(&mut set, client_id);
                tables::put_subscribers(&mut self.subs, key, set);
            },
            None => {},
        }
        assert(self@ =~= unsubscribed(old(self)@, client_id@, filter@));
    }

    /// Removes all subscriptions of a client.
    fn remove_client(&mut self, client_id: &str)
        ensures
            final(self)@ == without_client(old(self)@, client_id@),
    {
        let walk = tables::list_subscriptions(&self.subs);
        let ghost before = self@;
        let ghost views = tables::walk_views(walk@);
        let mut i: usize = 0;
        while i < walk.len()
            invariant
                i <= walk@.len(),
                before == old(self)@,
                views == tables::walk_views(walk@),
                tables::walks(views, before),
                self@.dom() == before.dom(),
                forall|j: int|
                    0 <= j < i ==> self@[#[trigger] views[j].0] == before[views[j].0].remove(
                        client_id@,
                    ),
                forall|j: int|
                    i <= j < views.len() ==> self@[#[trigger] views[j].0] == before[views[j].0],
            decreases walk@.len() - i,
        {
            let ghost mid = self@;
            assert(views[i as int].0 == wire::text(walk@[i as int].0));
            self.unsubscribe(client_id, &*walk[i].0);
            proof {
                let f = views[i as int].0;
                assert(before.contains_key(f));
                assert(mid.contains_key(f));
                assert(self@ == mid.insert(f, before[f].remove(client_id@)));
                assert(self@.dom() =~= before.dom());
                assert forall|j: int| 0 <= j < i + 1 implies self@[#[trigger] views[j].0]
                    == before[views[j].0].remove(client_id@) by {
                    if j < i {
                        assert(views[j].0 != views[i as int].0);
                    }
                }
                assert forall|j: int| i + 1 <= j < views.len() implies self@[#[trigger] views[j].0]
                    == before[views[j].0] by {
                    assert(views[i as int].0 != views[j].0);
                }
            }
            i += 1;
        }
        assert forall|k: Seq<char>| #[trigger] before.contains_key(k) implies self@[k]
            == before[k].remove(client_id@) by {
            let j = choose|j: int| 0 <= j < views.len() && (#[trigger] views[j]).0 == k;
            assert(views[j].0 == k);
        }
        assert(self@ =~= without_client(before, client_id@));
    }

    /// The client and the QoS level of every subscription that matches a topic.
    fn matching(&self, topic: &str) -> (r: Vec<(Arc<str>, QoS)>)
        ensures
            exists|walk: Seq<(Seq<char>, Seq<(Seq<char>, QoS)>)>| #[trigger]
                tables::walks(walk, self@) && tables::subscriber_views(r@) == matches(
                    walk,
                    topic@,
                ),
    {
        let topic_levels = topic::split_levels(topic);
        let walk = tables::list_subscriptions(&self.subs);
        let ghost views = tables::walk_views(walk@);
        let mut results: Vec<(Arc<str>, QoS)> = Vec::new();
        let mut i: usize = 0;
        assert(tables::subscriber_views(results@) =~= matches(views.take(0), topic@));
        while i < walk.len()
            invariant
                i <= walk@.len(),
                views == tables::walk_views(walk@),
                topic::char_levels(topic_levels@) == topic::levels(topic@),
                tables::subscriber_views(results@) == matches(views.take(i as int), topic@),
            decreases walk@.len() - i,
        {
            let (filter, subscribers) = &walk[i];
            let filter_levels = topic::split_levels(&**filter);
            let ghost before = tables::subscriber_views(results@);
            let ghost next = views.take(i + 1);
            assert(next.drop_last() =~= views.take(i as int));
            assert(next.last() == (wire::text(*filter), tables::subscriber_views(subscribers@)));
            if topic::match_levels(&filter_levels, &topic_levels) {
                let mut j: usize = 0;
                assert(tables::subscriber_views(subscribers@.take(0)) =~= Seq::empty());
                while j < subscribers.len()
                    invariant
                        j <= subscribers@.len(),
                        tables::subscriber_views(results@) == before + tables::subscriber_views(
                            subscribers@.take(j as int),
                        ),
                    decreases subscribers@.len() - j,
                {
                    let (client, qos) = &subscribers[j];
                    let ghost so_far = results@;
                    results.push((client.clone(), *qos));
                    proof {
                        let last = (wire::text(*client), *qos);
                        assert(tables::subscriber_views(results@) =~= tables::subscriber_views(
                            so_far,
                        ).push(last));
                        assert(tables::subscriber_views(subscribers@.take(j + 1))
                            =~= tables::subscriber_views(subscribers@.take(j as int)).push(last));
                    }
                    j += 1;
                }
                assert(subscribers@.take(j as int) =~= subscribers@);
            }
            i += 1;
        }
        assert(views.take(i as int) =~= views);
        assert(tables::walks(views, self@));
        results
    }
}

// ----------------------------------------------------------------------------
// The broker
// ----------------------------------------------------------------------------

pub struct Broker {
    sessions: DashMap<Arc<str>, SubscriberEntry>,
    subscriptions: SubscriptionTree,
    channels: HashMap<u64, MqttChannel>,
}

/// What a broker holds.
#[verifier::ext_equal]
pub struct BrokerView {
    /// The sessions, by client.
    pub sessions: Map<Seq<char>, SubscriberView>,
    /// The subscribers and their QoS levels, by filter.
    pub subscriptions: Map<Seq<char>, Map<Seq<char>, QoS>>,
    /// The connections, by number.
    pub channels: Map<u64, ChannelView>,
}

impl View for Broker {
    type V = BrokerView;

    closed spec fn view(&self) -> BrokerView {
        BrokerView {
            sessions: tables::held_sessions(self.sessions),
            subscriptions: self.subscriptions@,
            channels: self.channels@.map_values(|c: MqttChannel| c@),
        }
    }
}

impl BrokerView {
    /// The broker with another state of one connection.
    pub open spec fn with_channel(self, connection: u64, c: ChannelView) -> Self {
        BrokerView { channels: self.channels.insert(connection, c), ..self }
    }

    /// The broker with another record of one client.
    pub open spec fn with_session(self, client: Seq<char>, s: SubscriberView) -> Self {
        BrokerView { sessions: self.sessions.insert(client, s), ..self }
    }

    /// The broker after a command has been sent on a connection.
    pub open spec fn sent(self, connection: u64, cmd: WriteView) -> Self {
        if self.channels.contains_key(connection) {
            self.with_channel(connection, self.channels[connection].sent(cmd))
        } else {
            self
        }
    }

    /// Whether a command that is sent on a connection reaches its writer.
    pub open spec fn reaches(self, connection: u64) -> bool {
        self.channels.contains_key(connection) && self.channels[connection].writing
    }
}

/// The record of a client that has just connected.
pub open spec fn new_session(
    channel: u64,
    will: Option<WillView>,
    clean_session: bool,
) -> SubscriberView {
    SubscriberView { channel, filters: Map::empty(), will, clean_session }
}

/// The broker after a client has been registered.
pub open spec fn registered(
    b: BrokerView,
    client: Seq<char>,
    channel: u64,
    will: Option<WillView>,
    clean_session: bool,
) -> BrokerView {
    BrokerView {
        sessions: b.sessions.insert(client, new_session(channel, will, clean_session)),
        subscriptions: if clean_session {
            without_client(b.subscriptions, client)
        } else {
            b.subscriptions
        },
        ..b
    }
}

/// The broker without a client.
pub open spec fn forgotten(b: BrokerView, client: Seq<char>) -> BrokerView {
    BrokerView {
        sessions: b.sessions.remove(client),
        subscriptions: without_client(b.subscriptions, client),
        ..b
    }
}

/// The PUBLISH that a will comes to.
pub open spec fn will_publish(w: WillView) -> PublishView {
    PublishView {
        properties: PropertiesView::empty(),
        topic: w.topic,
        payload: w.payload,
        dup: false,
        qos: w.qos,
        retain: w.retain,
        packet_id: None,
    }
}

/// `after` is what tearing down the session of a client leaves. Without a
/// session nothing happens. The will is published unless the client has said
/// goodbye.
pub open spec fn unregistered(
    before: BrokerView,
    after: BrokerView,
    client: Seq<char>,
    graceful: bool,
) -> bool {
    if !before.sessions.contains_key(client) {
        after == before
    } else {
        match before.sessions[client].will {
            Some(w) if !graceful => published(
                forgotten(before, client),
                after,
                ""@,
                will_publish(w),
            ),
            _ => after == forgotten(before, client),
        }
    }
}

/// The code that answers a subscription.
pub open spec fn granted(filter: (Seq<char>, QoS)) -> SubackCode {
    if topic::filter_violation(filter.0) is None {
        SubackCode::Granted(filter.1)
    } else {
        SubackCode::Failure
    }
}

/// The broker after a client with a session has subscribed to a list of
/// filters. Those that are no topic filters are left out.
pub open spec fn all_subscribed(
    b: BrokerView,
    client: Seq<char>,
    filters: Seq<(Seq<char>, QoS)>,
) -> BrokerView
    decreases filters.len(),
{
    if filters.len() == 0 {
        b
    } else {
        let (filter, qos) = filters.last();
        let before = all_subscribed(b, client, filters.drop_last());
        if topic::filter_violation(filter) is None {
            let s = before.sessions[client];
            BrokerView {
                subscriptions: subscribed(before.subscriptions, client, filter, qos),
                ..before.with_session(
                    client,
                    SubscriberView { filters: s.filters.insert(filter, qos), ..s },
                )
            }
        } else {
            before
        }
    }
}

/// The broker after a client with a session has unsubscribed from a list of
/// filters.
pub open spec fn all_unsubscribed(
    b: BrokerView,
    client: Seq<char>,
    topics: Seq<Seq<char>>,
) -> BrokerView
    decreases topics.len(),
{
    if topics.len() == 0 {
        b
    } else {
        let filter = topics.last();
        let before = all_unsubscribed(b, client, topics.drop_last());
        let s = before.sessions[client];
        BrokerView {
            subscriptions: unsubscribed(before.subscriptions, client, filter),
            ..before.with_session(
                client,
                SubscriberView { filters: s.filters.remove(filter), ..s },
            )
        }
    }
}

/// A PUBLISH as a subscriber gets it.
pub open spec fn delivered(p: PublishView, qos: QoS, packet_id: Option<PacketId>) -> PublishView {
    PublishView {
        properties: p.properties,
        topic: p.topic,
        payload: p.payload,
        dup: false,
        qos,
        retain: false,
        packet_id,
    }
}

/// A connection after a PUBLISH has been delivered to its subscriber. It goes
/// out at the lower of the two QoS levels; above QoS 0 it gets a packet
/// identifier and is kept until it is acknowledged.
pub open spec fn after_delivery(c: ChannelView, p: PublishView, sub_qos: QoS) -> ChannelView {
    let qos = request::qos_min(p.qos, sub_qos);
    if qos == QoS::AtMostOnce {
        c.sent(WriteView::Publish(delivered(p, qos, None)))
    } else {
        let id = session::next_id(c.session.pkt_counter);
        c.with_session(
            SessionView {
                outbound_inflight: c.session.outbound_inflight.insert(id, p),
                ..c.session.counted()
            },
        ).sent(WriteView::Publish(delivered(p, qos, Some(id))))
    }
}

/// The broker after a PUBLISH has been delivered to one subscriber. The client
/// that it comes from does not get it back.
pub open spec fn delivered_to(
    b: BrokerView,
    subscriber: (Seq<char>, QoS),
    source: Seq<char>,
    p: PublishView,
) -> BrokerView {
    let (client, sub_qos) = subscriber;
    if client == source || !b.sessions.contains_key(client) {
        b
    } else {
        let connection = b.sessions[client].channel;
        if b.channels.contains_key(connection) {
            b.with_channel(connection, after_delivery(b.channels[connection], p, sub_qos))
        } else {
            b
        }
    }
}

/// The broker after a PUBLISH has been delivered to subscribers, one after the
/// other.
pub open spec fn fanned_out(
    b: BrokerView,
    order: Seq<(Seq<char>, QoS)>,
    source: Seq<char>,
    p: PublishView,
) -> BrokerView
    decreases order.len(),
{
    if order.len() == 0 {
        b
    } else {
        delivered_to(fanned_out(b, order.drop_last(), source, p), order.last(), source, p)
    }
}

/// `after` is what publishing leaves: the PUBLISH has been delivered to every
/// matching subscription but those of its source, in the order of some walk
/// over the subscriptions.
pub open spec fn published(
    before: BrokerView,
    after: BrokerView,
    source: Seq<char>,
    p: PublishView,
) -> bool {
    exists|walk: Seq<(Seq<char>, Seq<(Seq<char>, QoS)>)>| #[trigger]
        tables::walks(walk, before.subscriptions) && after == fanned_out(
            before,
            matches(walk, p.topic),
            source,
            p,
        )
}

/// A connection after an outbound PUBLISH has been acknowledged.
pub open spec fn after_ack(c: ChannelView, id: PacketId) -> ChannelView {
    c.with_session(
        SessionView {
            outbound_inflight: c.session.outbound_inflight.remove(id),
            pending_acks: c.session.pending_acks.remove(id),
            ..c.session
        },
    )
}

/// The connection that a client is on, when the broker has it.
pub open spec fn connection_of(b: BrokerView, client: Seq<char>) -> Option<u64> {
    if b.sessions.contains_key(client) && b.channels.contains_key(b.sessions[client].channel) {
        Some(b.sessions[client].channel)
    } else {
        None
    }
}

/// The views of a list of topic filters.
pub open spec fn filter_views(v: Seq<TopicFilter>) -> Seq<(Seq<char>, QoS)> {
    v.map_values(|f: TopicFilter| f@)
}

/// The characters of a list of strings.
pub open spec fn topic_views(v: Seq<Arc<str>>) -> Seq<Seq<char>> {
    v.map_values(|s: Arc<str>| wire::text(s))
}

/// The user-facing form of a PUBLISH.
pub fn incoming_from_packet(p: &PublishPacket) -> (r: IncomingPublish)
    ensures
        r@ == p@,
{
    IncomingPublish {
        properties: p.properties.clone(),
        topic: p.topic.clone(),
        payload: buffers::share_bytes(&p.payload),
        qos: p.qos,
        retain: p.retain,
        dup: p.dup,
        packet_id: p.packet_id,
    }
}

impl Broker {
    pub fn new() -> (r: Self)
        ensures
            r@ == (BrokerView {
                sessions: Map::empty(),
                subscriptions: Map::empty(),
                channels: Map::empty(),
            }),
    {
        let r = Broker {
            sessions: tables::new_sessions(),
            subscriptions: SubscriptionTree::new(),
            channels: HashMap::new(),
        };
        assert(r@.channels =~= Map::empty());
        r
    }

    // ── Connections ──────────────────────────────────────────────

    /// Puts a connection under its number.
    pub fn attach(&mut self, connection: u64, channel: MqttChannel)
        ensures
            final(self)@ == old(self)@.with_channel(connection, channel@),
    {
        self.channels.insert(connection, channel);
        assert(self@.channels =~= old(self)@.channels.insert(connection, channel@));
    }

    /// Takes a connection out.
    pub fn detach(&mut self, connection: u64) -> (r: Option<MqttChannel>)
        ensures
            final(self)@ == (BrokerView {
                channels: old(self)@.channels.remove(connection),
                ..old(self)@
            }),
            match r {
                Some(c) => old(self)@.channels.contains_pair(connection, c@),
                None => !old(self)@.channels.contains_key(connection),
            },
    {
        let r = self.channels.remove(&connection);
        assert(self@.channels =~= old(self)@.channels.remove(connection));
        r
    }

    /// Whether a connection is there and open.
    pub fn is_open(&self, connection: u64) -> (r: bool)
        ensures
            r == (self@.channels.contains_key(connection) && self@.channels[connection].open),
    {
        match self.channels.get(&connection) {
            Some(c) => c.is_open(),
            None => false,
        }
    }

    // ── Session lifecycle ────────────────────────────────────────

    /// Registers a client on a connection. Returns whether an earlier session of
    /// the client is taken up: `clean_session` is off and there was one.
    pub fn register_session(
        &mut self,
        client_id: Arc<str>,
        channel: u64,
        will: Option<WillMessage>,
        clean_session: bool,
    ) -> (r: bool)
        ensures
            r == (!clean_session && old(self)@.sessions.contains_key(wire::text(client_id))),
            final(self)@ == registered(
                old(self)@,
                wire::text(client_id),
                channel,
                opt_will_message(will),
                clean_session,
            ),
    {
        let existing = tables::take_session(&mut self.sessions, &*client_id);
        let session_present = !clean_session && existing.is_some();
        if clean_session {
            self.subscriptions.remove_client(&*client_id);
        }
        let filters = tables::new_levels();
        let entry = SubscriberEntry { channel, filters, will, clean_session };
        tables::put_session(&mut self.sessions, client_id, entry);
        assert(self@.sessions =~= old(self)@.sessions.insert(wire::text(client_id), entry@));
        session_present
    }

    /// Tears a session down. Without a goodbye from the client its will is
    /// published.
    pub fn unregister_session(&mut self, client_id: &str, graceful: bool)
        ensures
            unregistered(old(self)@, final(self)@, client_id@, graceful),
    {
        let entry = match tables::take_session(&mut self.sessions, client_id) {
            Some(e) => e,
            None => {
                assert(self@.sessions =~= old(self)@.sessions);
                return;
            },
        };
        self.subscriptions.remove_client(client_id);
        if !graceful {
            if let Some(will) = entry.will {
                let will_packet = PublishPacket {
                    properties: Properties::default(),
                    topic: will.topic,
                    payload: will.payload,
                    dup: false,
                    qos: will.qos,
                    retain: will.retain,
                    packet_id: None,
                };
                // The will comes from no client, so that nobody is taken for its source.
                self.publish("", will_packet);
            }
        }
    }

    // ── Subscriptions ────────────────────────────────────────────

    /// Subscribes a client to filters and returns a code for each of them. A
    /// client without a session gets nothing but failures.
    pub fn subscribe(&mut self, client_id: &Arc<str>, filters: &[TopicFilter]) -> (r: Vec<
        SubackCode,
    >)
        ensures
            r@.len() == filters@.len(),
            forall|i: int|
                0 <= i < filters@.len() ==> #[trigger] r@[i] == (if old(
                    self,
                )@.sessions.contains_key(wire::text(*client_id)) {
                    granted(filters@[i]@)
                } else {
                    SubackCode::Failure
                }),
            final(self)@ == (if old(self)@.sessions.contains_key(wire::text(*client_id)) {
                all_subscribed(old(self)@, wire::text(*client_id), filter_views(filters@))
            } else {
                old(self)@
            }),
    {
        let ghost client = wire::text(*client_id);
        let mut codes: Vec<SubackCode> = Vec::new();
        let mut i: usize = 0;
        let mut entry = match tables::take_session(&mut self.sessions, &**client_id) {
            Some(e) => e,
            None => {
                assert(self@.sessions =~= old(self)@.sessions);
                while i < filters.len()
                    invariant
                        i <= filters@.len(),
                        codes@.len() == i,
                        forall|j: int| 0 <= j < i ==> codes@[j] == SubackCode::Failure,
                    decreases filters@.len() - i,
                {
                    codes.push(SubackCode::Failure);
                    i += 1;
                }
                return codes;
            },
        };
        let ghost views = filter_views(filters@);
        let ghost so_far = old(self)@;
        assert(views.take(0) =~= Seq::empty());
        assert(so_far.sessions =~= self@.sessions.insert(client, entry@));
        while i < filters.len()
            invariant
                i <= filters@.len(),
                client == wire::text(*client_id),
                views == filter_views(filters@),
                codes@.len() == i,
                forall|j: int| 0 <= j < i ==> #[trigger] codes@[j] == granted(filters@[j]@),
                so_far == all_subscribed(old(self)@, client, views.take(i as int)),
                so_far == self@.with_session(client, entry@),
            decreases filters@.len() - i,
        {
            let tf = &filters[i];
            let ghost before = *self;
            let ghost was = entry@;
            proof {
                let next = views.take(i + 1);
                assert(next.drop_last() =~= views.take(i as int));
                assert(next.last() == tf@);
            }
            match topic::validate_subscribe_filter(&*tf.filter) {
                Ok(_) => {
                    tables::put_level(&mut entry.filters, tf.filter.clone(), tf.qos);
                    self.subscriptions.subscribe(client_id.clone(), tf.filter.clone(), tf.qos);
                    codes.push(SubackCode::Granted(tf.qos));
                },
                Err(_) => {
                    codes.push(SubackCode::Failure);
                },
            }
            proof {
                let after = all_subscribed(old(self)@, client, views.take(i + 1));
                assert(so_far.sessions[client] == was);
                assert(after.sessions =~= self@.sessions.insert(client, entry@));
                so_far = after;
            }
            i += 1;
        }
        assert(views.take(i as int) =~= views);
        tables::put_session(&mut self.sessions, client_id.clone(), entry);
        codes
    }

    /// Unsubscribes a client from filters.
    pub fn unsubscribe(&mut self, client_id: &Arc<str>, topics: &[Arc<str>])
        ensures
            final(self)@ == (if old(self)@.sessions.contains_key(wire::text(*client_id)) {
                all_unsubscribed(old(self)@, wire::text(*client_id), topic_views(topics@))
            } else {
                old(self)@
            }),
    {
        let ghost client = wire::text(*client_id);
        let mut entry = match tables::take_session(&mut self.sessions, &**client_id) {
            Some(e) => e,
            None => {
                assert(self@.sessions =~= old(self)@.sessions);
                return;
            },
        };
        let ghost views = topic_views(topics@);
        let ghost so_far = old(self)@;
        let mut i: usize = 0;
        assert(views.take(0) =~= Seq::empty());
        assert(so_far.sessions =~= self@.sessions.insert(client, entry@));
        while i < topics.len()
            invariant
                i <= topics@.len(),
                client == wire::text(*client_id),
                views == topic_views(topics@),
                so_far == all_unsubscribed(old(self)@, client, views.take(i as int)),
                so_far == self@.with_session(client, entry@),
            decreases topics@.len() - i,
        {
            let ghost was = entry@;
            proof {
                let next = views.take(i + 1);
                assert(next.drop_last() =~= views.take(i as int));
                assert(next.last() == wire::text(topics@[i as int]));
            }
            tables::drop_level(&mut entry.filters, &*topics[i]);
            self.subscriptions.unsubscribe(&**client_id, &*topics[i]);
            proof {
                let after = all_unsubscribed(old(self)@, client, views.take(i + 1));
                assert(so_far.sessions[client] == was);
                assert(after.sessions =~= self@.sessions.insert(client, entry@));
                so_far = after;
            }
            i += 1;
        }
        assert(views.take(i as int) =~= views);
        tables::put_session(&mut self.sessions, client_id.clone(), entry);
    }

    // ── Publishing ───────────────────────────────────────────────

    /// Delivers a PUBLISH to one subscriber.
    fn deliver(&mut self, client: &str, sub_qos: QoS, source: &str, packet: &PublishPacket)
        ensures
            final(self)@ == delivered_to(old(self)@, (client@, sub_qos), source@, packet@),
    {
        if wire::same_text(client, source) {
            return;
        }
        let connection: u64 = match tables::session_channel(&self.sessions, client) {
            Some(c) => c,
            None => {
                return;
            },
        };
        let mut channel = match self.channels.remove(&connection) {
            Some(c) => c,
            None => {
                assert(self@.channels =~= old(self)@.channels);
                return;
            },
        };
        let ghost was = channel@;
        let qos = packet.qos.lower(sub_qos);
        let packet_id = if qos != QoS::AtMostOnce {
            let session = channel.session_mut();
            let id: u16 = session.allocate_packet_id();
            session.hold_outbound(id, packet.clone());
            Some(id)
        } else {
            None
        };
        let adjusted = PublishPacket {
            properties: packet.properties.clone(),
            topic: packet.topic.clone(),
            payload: buffers::share_bytes(&packet.payload),
            dup: false,
            qos,
            retain: false,
            packet_id,
        };
        // The subscriber may have gone just now; that is no failure of the publish.
        let _ = channel.send_publish(adjusted);
        assert(channel@ =~= after_delivery(was, packet@, sub_qos));
        self.channels.insert(connection, channel);
        assert(self@.channels =~= old(self)@.channels.insert(connection, channel@));
    }

    /// Hands a PUBLISH to all matching subscribers but its source.
    pub fn publish(&mut self, source_client_id: &str, packet: PublishPacket)
        ensures
            published(old(self)@, final(self)@, source_client_id@, packet@),
    {
        let matching = self.subscriptions.matching(&*packet.topic);
        let ghost order = tables::subscriber_views(matching@);
        let ghost walk = choose|walk: Seq<(Seq<char>, Seq<(Seq<char>, QoS)>)>| #[trigger]
            tables::walks(walk, self@.subscriptions) && order == matches(walk, packet@.topic);
        let mut i: usize = 0;
        assert(order.take(0) =~= Seq::empty());
        while i < matching.len()
            invariant
                i <= matching@.len(),
                order == tables::subscriber_views(matching@),
                tables::walks(walk, old(self)@.subscriptions),
                order == matches(walk, packet@.topic),
                self@ == fanned_out(
                    old(self)@,
                    order.take(i as int),
                    source_client_id@,
                    packet@,
                ),
            decreases matching@.len() - i,
        {
            let (client, sub_qos) = &matching[i];
            proof {
                let next = order.take(i + 1);
                assert(next.drop_last() =~= order.take(i as int));
                assert(next.last() == (wire::text(*client), *sub_qos));
            }
            self.deliver(&**client, *sub_qos, source_client_id, &packet);
            i += 1;
        }
        assert(order.take(i as int) =~= order);
    }

    // ── Acknowledgements ─────────────────────────────────────────

    /// Takes note that a subscriber has acknowledged a PUBLISH. When an
    /// operation waits for a PUBACK of that identifier, its slot is returned and
    /// is to be given the identifier. A slot of another kind is dropped.
    pub fn ack_outbound(&mut self, client_id: &str, packet_id: PacketId) -> (r: Option<AckSlot>)
        ensures
            match connection_of(old(self)@, client_id@) {
                None => final(self)@ == old(self)@ && r is None,
                Some(n) => {
                    let c = old(self)@.channels[n];
                    let slots = c.session.pending_acks;
                    &&& final(self)@ == old(self)@.with_channel(n, after_ack(c, packet_id))
                    &&& r == (if slots.contains_key(packet_id) && slots[packet_id] is Puback {
                        Some(slots[packet_id])
                    } else {
                        None
                    })
                },
            },
    {
        let connection: u64 = match tables::session_channel(&self.sessions, client_id) {
            Some(c) => c,
            None => {
                return None;
            },
        };
        let mut channel = match self.channels.remove(&connection) {
            Some(c) => c,
            None => {
                assert(self@.channels =~= old(self)@.channels);
                return None;
            },
        };
        let ghost was = channel@;
        let session = channel.session_mut();
        let _ = session.release_outbound(packet_id);
        let slot = session.take_ack(packet_id);
        assert(channel@ =~= after_ack(was, packet_id));
        self.channels.insert(connection, channel);
        assert(self@.channels =~= old(self)@.channels.insert(connection, channel@));
        match slot {
            Some(AckSlot::Puback(tx)) => Some(AckSlot::Puback(tx)),
            _ => None,
        }
    }
}

impl Default for Broker {
    fn default() -> (r: Self)
        ensures
            r@ == (BrokerView {
                sessions: Map::empty(),
                subscriptions: Map::empty(),
                channels: Map::empty(),
            }),
    {
        Self::new()
    }
}

} // verus!
