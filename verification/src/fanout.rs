//! What the broker promises about subscriptions and publishing.

use vstd::prelude::*;

use crate::broker;
use crate::broker::BrokerView;
use crate::channel::{ChannelView, WriteView};
use crate::packet::{PublishView, WillView};
use crate::properties::PropertiesView;
use crate::request;
use crate::request::QoS;
use crate::tables;
use crate::topic;

verus! {

// ----------------------------------------------------------------------------
// Who subscribes to what
// ----------------------------------------------------------------------------

/// A client subscribes, at a QoS level, with a filter that matches a topic.
pub open spec fn subscribes(
    subs: Map<Seq<char>, Map<Seq<char>, QoS>>,
    client: Seq<char>,
    topic: Seq<char>,
    qos: QoS,
) -> bool {
    exists|f: Seq<char>| #[trigger]
        subs.contains_key(f) && topic::topic_matches(f, topic) && subs[f].contains_pair(
            client,
            qos,
        )
}

proof fn matches_of_a_walk(
    walk: Seq<(Seq<char>, Seq<(Seq<char>, QoS)>)>,
    topic: Seq<char>,
    s: (Seq<char>, QoS),
)
    ensures
        broker::matches(walk, topic).contains(s) <==> exists|i: int|
            0 <= i < walk.len() && topic::topic_matches((#[trigger] walk[i]).0, topic)
                && walk[i].1.contains(s),
    decreases walk.len(),
{
    let all = broker::matches(walk, topic);
    if walk.len() > 0 {
        let init = walk.drop_last();
        let before = broker::matches(init, topic);
        let n = walk.len() - 1;
        matches_of_a_walk(init, topic, s);
        assert(forall|i: int| 0 <= i < n ==> #[trigger] init[i] == walk[i]);
        if all.contains(s) {
            let k = choose|k: int| 0 <= k < all.len() && all[k] == s;
            if k < before.len() {
                assert(before[k] == s);
                let i = choose|i: int|
                    0 <= i < init.len() && topic::topic_matches((#[trigger] init[i]).0, topic)
                        && init[i].1.contains(s);
                assert(walk[i] == init[i]);
            } else {
                assert(walk[n].1[k - before.len()] == s);
                assert(walk[n].1.contains(s));
            }
        }
        if exists|i: int|
            0 <= i < walk.len() && topic::topic_matches((#[trigger] walk[i]).0, topic)
                && walk[i].1.contains(s) {
            let i = choose|i: int|
                0 <= i < walk.len() && topic::topic_matches((#[trigger] walk[i]).0, topic)
                    && walk[i].1.contains(s);
            if i < n {
                assert(init[i] == walk[i]);
                assert(before.contains(s));
                let k = choose|k: int| 0 <= k < before.len() && before[k] == s;
                assert(all[k] == s);
            } else {
                let k = choose|k: int| 0 <= k < walk[n].1.len() && walk[n].1[k] == s;
                assert(all[before.len() + k] == s);
            }
        }
    }
}

/// Whatever the order of the walk, the matching subscribers are those who
/// subscribe with a filter that matches.
pub proof fn matches_are_the_subscribers(
    walk: Seq<(Seq<char>, Seq<(Seq<char>, QoS)>)>,
    subs: Map<Seq<char>, Map<Seq<char>, QoS>>,
    topic: Seq<char>,
    client: Seq<char>,
    qos: QoS,
)
    requires
        tables::walks(walk, subs),
    ensures
        broker::matches(walk, topic).contains((client, qos)) <==> subscribes(
            subs,
            client,
            topic,
            qos,
        ),
{
    let s = (client, qos);
    matches_of_a_walk(walk, topic, s);
    if broker::matches(walk, topic).contains(s) {
        let i = choose|i: int|
            0 <= i < walk.len() && topic::topic_matches((#[trigger] walk[i]).0, topic)
                && walk[i].1.contains(s);
        let k = choose|k: int| 0 <= k < walk[i].1.len() && walk[i].1[k] == s;
        assert(subs.contains_key(walk[i].0));
        assert(tables::lists(walk[i].1, subs[walk[i].0]));
        assert(subs[walk[i].0].contains_pair(walk[i].1[k].0, walk[i].1[k].1));
    }
    if subscribes(subs, client, topic, qos) {
        let f = choose|f: Seq<char>| #[trigger]
            subs.contains_key(f) && topic::topic_matches(f, topic) && subs[f].contains_pair(
                client,
                qos,
            );
        let i = choose|i: int| 0 <= i < walk.len() && (#[trigger] walk[i]).0 == f;
        assert(subs.contains_key(walk[i].0) && tables::lists(walk[i].1, subs[walk[i].0]));
        assert(subs[f].contains_key(client));
        let k = choose|k: int| 0 <= k < walk[i].1.len() && (#[trigger] walk[i].1[k]).0 == client;
        assert(walk[i].1[k] == s);
        assert(walk[i].1.contains(s));
    }
}

// ----------------------------------------------------------------------------
// Delivering one after the other
// ----------------------------------------------------------------------------

/// The connection on which a subscriber gets a publish, if it gets it.
pub open spec fn target(b: BrokerView, client: Seq<char>, source: Seq<char>) -> Option<u64> {
    if client == source {
        None
    } else {
        broker::connection_of(b, client)
    }
}

/// `d` is a copy of the publish `p`, as a subscriber gets it: the same message
/// at no higher QoS, without DUP and RETAIN, with a packet identifier exactly
/// where its QoS asks for one.
pub open spec fn is_copy(d: PublishView, p: PublishView) -> bool {
    &&& d.topic == p.topic
    &&& d.payload == p.payload
    &&& d.properties == p.properties
    &&& !d.dup
    &&& !d.retain
    &&& request::qos_number(d.qos) <= request::qos_number(p.qos)
    &&& d.packet_id is None <==> d.qos == QoS::AtMostOnce
}

/// What deliveries do to a connection: they append copies to the outbox, count
/// packet identifiers and keep packets; the rest of it stays.
pub open spec fn only_copies_added(before: ChannelView, after: ChannelView, p: PublishView) -> bool {
    &&& before.outbox.len() <= after.outbox.len()
    &&& forall|k: int| 0 <= k < before.outbox.len() ==> #[trigger] after.outbox[k]
        == before.outbox[k]
    &&& forall|k: int|
        before.outbox.len() <= k < after.outbox.len() ==> ((#[trigger] after.outbox[k]) matches
            WriteView::Publish(d) && is_copy(d, p))
    &&& after.connection_id == before.connection_id
    &&& after.role == before.role
    &&& after.version == before.version
    &&& after.open == before.open
    &&& after.writing == before.writing
    &&& after.session.bind == before.session.bind
    &&& after.session.qos2_recv == before.session.qos2_recv
    &&& after.session.pending_acks == before.session.pending_acks
}

proof fn delivery_adds_a_copy(c: ChannelView, p: PublishView, sub_qos: QoS)
    ensures
        only_copies_added(c, broker::after_delivery(c, p, sub_qos), p),
        c.writing ==> ({
            let after = broker::after_delivery(c, p, sub_qos);
            after.outbox.len() == c.outbox.len() + 1 && (after.outbox.last() matches
                WriteView::Publish(d) && is_copy(d, p) && d.qos == request::qos_min(p.qos, sub_qos))
        }),
{
}

proof fn copies_accumulate(a: ChannelView, b: ChannelView, c: ChannelView, p: PublishView)
    requires
        only_copies_added(a, b, p),
        only_copies_added(b, c, p),
    ensures
        only_copies_added(a, c, p),
{
    assert forall|k: int| 0 <= k < a.outbox.len() implies #[trigger] c.outbox[k]
        == a.outbox[k] by {
        assert(b.outbox[k] == a.outbox[k]);
    }
    assert forall|k: int| a.outbox.len() <= k < c.outbox.len() implies ((
    #[trigger] c.outbox[k]) matches WriteView::Publish(d) && is_copy(d, p)) by {
        if k < b.outbox.len() {
            assert(c.outbox[k] == b.outbox[k]);
        }
    }
}

/// What publishing keeps: sessions, subscriptions, and which connections there
/// are; and on each connection everything but what deliveries do.
pub open spec fn only_deliveries(before: BrokerView, after: BrokerView, p: PublishView) -> bool {
    &&& after.sessions == before.sessions
    &&& after.subscriptions == before.subscriptions
    &&& after.channels.dom() == before.channels.dom()
    &&& forall|n: u64| #[trigger]
        before.channels.contains_key(n) ==> only_copies_added(
            before.channels[n],
            after.channels[n],
            p,
        )
}

proof fn fan_out_only_delivers(
    b: BrokerView,
    order: Seq<(Seq<char>, QoS)>,
    source: Seq<char>,
    p: PublishView,
)
    ensures
        only_deliveries(b, broker::fanned_out(b, order, source, p), p),
    decreases order.len(),
{
    if order.len() > 0 {
        let mid = broker::fanned_out(b, order.drop_last(), source, p);
        let after = broker::fanned_out(b, order, source, p);
        fan_out_only_delivers(b, order.drop_last(), source, p);
        let (client, qos) = order.last();
        assert(after.channels.dom() =~= b.channels.dom());
        assert forall|n: u64| #[trigger] b.channels.contains_key(n) implies only_copies_added(
            b.channels[n],
            after.channels[n],
            p,
        ) by {
            if target(mid, client, source) == Some(n) {
                delivery_adds_a_copy(mid.channels[n], p, qos);
                copies_accumulate(b.channels[n], mid.channels[n], after.channels[n], p);
            } else {
                assert(after.channels[n] == mid.channels[n]);
            }
        }
    }
}

proof fn fan_out_leaves_others(
    b: BrokerView,
    order: Seq<(Seq<char>, QoS)>,
    source: Seq<char>,
    p: PublishView,
    n: u64,
)
    requires
        b.channels.contains_key(n),
        forall|i: int|
            0 <= i < order.len() ==> target(b, (#[trigger] order[i]).0, source) != Some(n),
    ensures
        broker::fanned_out(b, order, source, p).channels[n] == b.channels[n],
    decreases order.len(),
{
    if order.len() > 0 {
        let init = order.drop_last();
        let mid = broker::fanned_out(b, init, source, p);
        assert forall|i: int| 0 <= i < init.len() implies target(
            b,
            (#[trigger] init[i]).0,
            source,
        ) != Some(n) by {
            assert(init[i] == order[i]);
        }
        fan_out_leaves_others(b, init, source, p, n);
        fan_out_only_delivers(b, init, source, p);
        assert(order[order.len() - 1] == order.last());
        assert(target(mid, order.last().0, source) == target(b, order.last().0, source));
    }
}

/// Among the commands behind the first `from` there is a copy at the QoS level
/// that a subscription at `sub_qos` gets.
pub open spec fn has_copy(c: ChannelView, from: int, p: PublishView, sub_qos: QoS) -> bool {
    exists|k: int|
        from <= k < c.outbox.len() && ((#[trigger] c.outbox[k]) matches WriteView::Publish(d)
            && is_copy(d, p) && d.qos == request::qos_min(p.qos, sub_qos))
}

proof fn fan_out_reaches(
    b: BrokerView,
    order: Seq<(Seq<char>, QoS)>,
    source: Seq<char>,
    p: PublishView,
    i: int,
    n: u64,
)
    requires
        0 <= i < order.len(),
        target(b, order[i].0, source) == Some(n),
        b.channels[n].writing,
    ensures
        has_copy(
            broker::fanned_out(b, order, source, p).channels[n],
            b.channels[n].outbox.len() as int,
            p,
            order[i].1,
        ),
    decreases order.len(),
{
    let init = order.drop_last();
    let mid = broker::fanned_out(b, init, source, p);
    let after = broker::fanned_out(b, order, source, p);
    let from = b.channels[n].outbox.len() as int;
    fan_out_only_delivers(b, init, source, p);
    assert(mid.channels.dom().contains(n));
    assert(b.channels.contains_key(n));
    assert(mid.channels.contains_key(n));
    let (client, qos) = order.last();
    if i == order.len() - 1 {
        delivery_adds_a_copy(mid.channels[n], p, qos);
        let k = after.channels[n].outbox.len() - 1;
        assert(after.channels[n] == broker::after_delivery(mid.channels[n], p, qos));
        assert(after.channels[n].outbox[k] == after.channels[n].outbox.last());
    } else {
        assert(init[i] == order[i]);
        fan_out_reaches(b, init, source, p, i, n);
        let k = choose|k: int|
            from <= k < mid.channels[n].outbox.len() && ((
            #[trigger] mid.channels[n].outbox[k]) matches WriteView::Publish(d) && is_copy(d, p)
                && d.qos == request::qos_min(p.qos, order[i].1));
        if target(mid, client, source) == Some(n) {
            delivery_adds_a_copy(mid.channels[n], p, qos);
            assert(after.channels[n] == broker::after_delivery(mid.channels[n], p, qos));
        } else {
            assert(after.channels[n] == mid.channels[n]);
        }
        assert(after.channels[n].outbox[k] == mid.channels[n].outbox[k]);
    }
}

// ----------------------------------------------------------------------------
// Laws of publishing
// ----------------------------------------------------------------------------

/// Publishing only delivers: it appends copies of the message to outboxes, and
/// touches no session, no subscription, and nothing else of any connection.
pub proof fn publishing_only_delivers(
    before: BrokerView,
    after: BrokerView,
    source: Seq<char>,
    p: PublishView,
)
    requires
        broker::published(before, after, source, p),
    ensures
        only_deliveries(before, after, p),
{
    let walk = choose|walk: Seq<(Seq<char>, Seq<(Seq<char>, QoS)>)>| #[trigger]
        tables::walks(walk, before.subscriptions) && after == broker::fanned_out(
            before,
            broker::matches(walk, p.topic),
            source,
            p,
        );
    fan_out_only_delivers(before, broker::matches(walk, p.topic), source, p);
}

/// A client that subscribes with a matching filter gets the message, at the
/// lower of the two QoS levels, unless it is the source or its connection is
/// not there to take it.
pub proof fn publishing_reaches_every_subscriber(
    before: BrokerView,
    after: BrokerView,
    source: Seq<char>,
    p: PublishView,
    client: Seq<char>,
    sub_qos: QoS,
    n: u64,
)
    requires
        broker::published(before, after, source, p),
        subscribes(before.subscriptions, client, p.topic, sub_qos),
        client != source,
        broker::connection_of(before, client) == Some(n),
        before.channels[n].writing,
    ensures
        has_copy(after.channels[n], before.channels[n].outbox.len() as int, p, sub_qos),
{
    let walk = choose|walk: Seq<(Seq<char>, Seq<(Seq<char>, QoS)>)>| #[trigger]
        tables::walks(walk, before.subscriptions) && after == broker::fanned_out(
            before,
            broker::matches(walk, p.topic),
            source,
            p,
        );
    let order = broker::matches(walk, p.topic);
    matches_are_the_subscribers(walk, before.subscriptions, p.topic, client, sub_qos);
    let i = choose|i: int| 0 <= i < order.len() && order[i] == (client, sub_qos);
    fan_out_reaches(before, order, source, p, i, n);
}

/// Nobody else gets the message: a connection is left alone when no client on
/// it, other than the source, subscribes with a matching filter.
pub proof fn publishing_leaves_others_alone(
    before: BrokerView,
    after: BrokerView,
    source: Seq<char>,
    p: PublishView,
    n: u64,
)
    requires
        broker::published(before, after, source, p),
        before.channels.contains_key(n),
        forall|client: Seq<char>, qos: QoS|
            client != source && broker::connection_of(before, client) == Some(n)
                ==> !#[trigger] subscribes(before.subscriptions, client, p.topic, qos),
    ensures
        after.channels[n] == before.channels[n],
{
    let walk = choose|walk: Seq<(Seq<char>, Seq<(Seq<char>, QoS)>)>| #[trigger]
        tables::walks(walk, before.subscriptions) && after == broker::fanned_out(
            before,
            broker::matches(walk, p.topic),
            source,
            p,
        );
    let order = broker::matches(walk, p.topic);
    assert forall|i: int| 0 <= i < order.len() implies target(
        before,
        (#[trigger] order[i]).0,
        source,
    ) != Some(n) by {
        let (client, qos) = order[i];
        assert(order.contains((client, qos)));
        matches_are_the_subscribers(walk, before.subscriptions, p.topic, client, qos);
    }
    fan_out_leaves_others(before, order, source, p, n);
}

/// A client does not get its own message back: its connection is left alone,
/// as long as no other client is on it.
pub proof fn publishing_skips_its_source(
    before: BrokerView,
    after: BrokerView,
    source: Seq<char>,
    p: PublishView,
    n: u64,
)
    requires
        broker::published(before, after, source, p),
        broker::connection_of(before, source) == Some(n),
        forall|client: Seq<char>| #[trigger]
            broker::connection_of(before, client) == Some(n) ==> client == source,
    ensures
        after.channels[n] == before.channels[n],
{
    publishing_leaves_others_alone(before, after, source, p, n);
}

/// How often a client occurs in a list of subscribers.
pub open spec fn occurrences(order: Seq<(Seq<char>, QoS)>, client: Seq<char>) -> nat
    decreases order.len(),
{
    if order.len() == 0 {
        0
    } else {
        occurrences(order.drop_last(), client) + if order.last().0 == client {
            1nat
        } else {
            0
        }
    }
}

proof fn occurrences_add_up(
    a: Seq<(Seq<char>, QoS)>,
    b: Seq<(Seq<char>, QoS)>,
    client: Seq<char>,
)
    ensures
        occurrences(a + b, client) == occurrences(a, client) + occurrences(b, client),
    decreases b.len(),
{
    if b.len() == 0 {
        assert(a + b =~= a);
    } else {
        assert((a + b).drop_last() =~= a + b.drop_last());
        occurrences_add_up(a, b.drop_last(), client);
    }
}

proof fn different_subscribers_occur_once(order: Seq<(Seq<char>, QoS)>, client: Seq<char>)
    requires
        forall|i: int, j: int|
            0 <= i < j < order.len() ==> (#[trigger] order[i]).0 != (#[trigger] order[j]).0,
    ensures
        occurrences(order, client) == (if exists|i: int|
            0 <= i < order.len() && (#[trigger] order[i]).0 == client {
            1nat
        } else {
            0
        }),
    decreases order.len(),
{
    if order.len() > 0 {
        let init = order.drop_last();
        let n = order.len() - 1;
        assert forall|i: int, j: int| 0 <= i < j < init.len() implies (#[trigger] init[i]).0 != (
        #[trigger] init[j]).0 by {
            assert(order[i].0 != order[j].0);
        }
        different_subscribers_occur_once(init, client);
        if order[n].0 == client {
            assert forall|i: int| 0 <= i < init.len() implies (#[trigger] init[i]).0 != client by {
                assert(order[i].0 != order[n].0);
            }
        } else if exists|i: int| 0 <= i < order.len() && (#[trigger] order[i]).0 == client {
            let i = choose|i: int| 0 <= i < order.len() && (#[trigger] order[i]).0 == client;
            assert(init[i].0 == client);
        } else {
            assert forall|i: int| 0 <= i < init.len() implies (#[trigger] init[i]).0 != client by {
                assert(order[i].0 != client);
            }
        }
    }
}

/// How many filters of a walk match a topic and have a client among their
/// subscribers.
pub open spec fn matching_filters(
    walk: Seq<(Seq<char>, Seq<(Seq<char>, QoS)>)>,
    subs: Map<Seq<char>, Map<Seq<char>, QoS>>,
    topic: Seq<char>,
    client: Seq<char>,
) -> nat
    decreases walk.len(),
{
    if walk.len() == 0 {
        0
    } else {
        matching_filters(walk.drop_last(), subs, topic, client) + if topic::topic_matches(
            walk.last().0,
            topic,
        ) && subs[walk.last().0].contains_key(client) {
            1nat
        } else {
            0
        }
    }
}

proof fn matches_count_the_filters(
    walk: Seq<(Seq<char>, Seq<(Seq<char>, QoS)>)>,
    subs: Map<Seq<char>, Map<Seq<char>, QoS>>,
    topic: Seq<char>,
    client: Seq<char>,
)
    requires
        forall|i: int|
            0 <= i < walk.len() ==> tables::lists((#[trigger] walk[i]).1, subs[walk[i].0]),
    ensures
        occurrences(broker::matches(walk, topic), client) == matching_filters(
            walk,
            subs,
            topic,
            client,
        ),
    decreases walk.len(),
{
    if walk.len() > 0 {
        let init = walk.drop_last();
        let n = walk.len() - 1;
        assert forall|i: int| 0 <= i < init.len() implies tables::lists(
            (#[trigger] init[i]).1,
            subs[init[i].0],
        ) by {
            assert(init[i] == walk[i]);
        }
        matches_count_the_filters(init, subs, topic, client);
        let (f, s) = walk[n];
        assert(tables::lists(walk[n].1, subs[walk[n].0]));
        different_subscribers_occur_once(s, client);
        if exists|i: int| 0 <= i < s.len() && (#[trigger] s[i]).0 == client {
            let i = choose|i: int| 0 <= i < s.len() && (#[trigger] s[i]).0 == client;
            assert(subs[f].contains_pair(s[i].0, s[i].1));
        }
        occurrences_add_up(broker::matches(init, topic), s, client);
    }
}

proof fn fan_out_counts(
    b: BrokerView,
    order: Seq<(Seq<char>, QoS)>,
    source: Seq<char>,
    p: PublishView,
    client: Seq<char>,
    n: u64,
)
    requires
        client != source,
        broker::connection_of(b, client) == Some(n),
        forall|c: Seq<char>| #[trigger] broker::connection_of(b, c) == Some(n) ==> c == client,
        b.channels[n].writing,
    ensures
        broker::fanned_out(b, order, source, p).channels[n].outbox.len()
            == b.channels[n].outbox.len() + occurrences(order, client),
    decreases order.len(),
{
    if order.len() > 0 {
        let init = order.drop_last();
        let mid = broker::fanned_out(b, init, source, p);
        fan_out_counts(b, init, source, p, client, n);
        fan_out_only_delivers(b, init, source, p);
        assert(b.channels.contains_key(n));
        assert(mid.channels.contains_key(n));
        let (c, qos) = order.last();
        assert(broker::connection_of(mid, c) == broker::connection_of(b, c));
        if c == client {
            delivery_adds_a_copy(mid.channels[n], p, qos);
        }
    }
}

/// A client gets one copy for each of its filters that match, and no more:
/// counted over any walk through the subscriptions, on a connection that the
/// client has to itself.
pub proof fn publishing_counts_matching_filters(
    before: BrokerView,
    after: BrokerView,
    source: Seq<char>,
    p: PublishView,
    client: Seq<char>,
    n: u64,
)
    requires
        broker::published(before, after, source, p),
        client != source,
        broker::connection_of(before, client) == Some(n),
        forall|c: Seq<char>| #[trigger]
            broker::connection_of(before, c) == Some(n) ==> c == client,
        before.channels[n].writing,
    ensures
        exists|walk: Seq<(Seq<char>, Seq<(Seq<char>, QoS)>)>| #[trigger]
            tables::walks(walk, before.subscriptions) && after.channels[n].outbox.len()
                == before.channels[n].outbox.len() + matching_filters(
                walk,
                before.subscriptions,
                p.topic,
                client,
            ),
{
    let walk = choose|walk: Seq<(Seq<char>, Seq<(Seq<char>, QoS)>)>| #[trigger]
        tables::walks(walk, before.subscriptions) && after == broker::fanned_out(
            before,
            broker::matches(walk, p.topic),
            source,
            p,
        );
    assert forall|i: int| 0 <= i < walk.len() implies tables::lists(
        (#[trigger] walk[i]).1,
        before.subscriptions[walk[i].0],
    ) by {
        assert(before.subscriptions.contains_key(walk[i].0));
    }
    matches_count_the_filters(walk, before.subscriptions, p.topic, client);
    fan_out_counts(before, broker::matches(walk, p.topic), source, p, client, n);
}

proof fn one_filter_counts_once(
    walk: Seq<(Seq<char>, Seq<(Seq<char>, QoS)>)>,
    subs: Map<Seq<char>, Map<Seq<char>, QoS>>,
    topic: Seq<char>,
    client: Seq<char>,
    filter: Seq<char>,
)
    requires
        forall|i: int| 0 <= i < walk.len() ==> subs.contains_key((#[trigger] walk[i]).0),
        forall|i: int, j: int|
            0 <= i < j < walk.len() ==> (#[trigger] walk[i]).0 != (#[trigger] walk[j]).0,
        subs.contains_key(filter),
        topic::topic_matches(filter, topic),
        subs[filter].contains_key(client),
        forall|f: Seq<char>| #[trigger]
            subs.contains_key(f) && topic::topic_matches(f, topic) && subs[f].contains_key(client)
                ==> f == filter,
    ensures
        matching_filters(walk, subs, topic, client) == (if exists|i: int|
            0 <= i < walk.len() && (#[trigger] walk[i]).0 == filter {
            1nat
        } else {
            0
        }),
    decreases walk.len(),
{
    if walk.len() > 0 {
        let init = walk.drop_last();
        let n = walk.len() - 1;
        assert(forall|i: int| 0 <= i < init.len() ==> #[trigger] init[i] == walk[i]);
        assert forall|i: int, j: int| 0 <= i < j < init.len() implies (#[trigger] init[i]).0 != (
        #[trigger] init[j]).0 by {
            assert(walk[i].0 != walk[j].0);
        }
        one_filter_counts_once(init, subs, topic, client, filter);
        assert(subs.contains_key(walk[n].0));
        if walk[n].0 == filter {
            assert forall|i: int| 0 <= i < init.len() implies (#[trigger] init[i]).0 != filter by {
                assert(walk[i].0 != walk[n].0);
            }
        } else if exists|i: int| 0 <= i < walk.len() && (#[trigger] walk[i]).0 == filter {
            let i = choose|i: int| 0 <= i < walk.len() && (#[trigger] walk[i]).0 == filter;
            assert(init[i].0 == filter);
        } else {
            assert forall|i: int| 0 <= i < init.len() implies (#[trigger] init[i]).0 != filter by {
                assert(walk[i].0 != filter);
            }
        }
    }
}

/// A client whose only matching filter is `filter` gets exactly one copy, on a
/// connection that it has to itself.
pub proof fn one_subscription_gets_one_copy(
    before: BrokerView,
    after: BrokerView,
    source: Seq<char>,
    p: PublishView,
    client: Seq<char>,
    filter: Seq<char>,
    n: u64,
)
    requires
        broker::published(before, after, source, p),
        client != source,
        broker::connection_of(before, client) == Some(n),
        forall|c: Seq<char>| #[trigger]
            broker::connection_of(before, c) == Some(n) ==> c == client,
        before.channels[n].writing,
        before.subscriptions.contains_key(filter),
        topic::topic_matches(filter, p.topic),
        before.subscriptions[filter].contains_key(client),
        forall|f: Seq<char>| #[trigger]
            before.subscriptions.contains_key(f) && topic::topic_matches(f, p.topic)
                && before.subscriptions[f].contains_key(client) ==> f == filter,
    ensures
        after.channels[n].outbox.len() == before.channels[n].outbox.len() + 1,
{
    publishing_counts_matching_filters(before, after, source, p, client, n);
    let subs = before.subscriptions;
    let walk = choose|walk: Seq<(Seq<char>, Seq<(Seq<char>, QoS)>)>| #[trigger]
        tables::walks(walk, subs) && after.channels[n].outbox.len()
            == before.channels[n].outbox.len() + matching_filters(walk, subs, p.topic, client);
    assert forall|i: int| 0 <= i < walk.len() implies subs.contains_key((#[trigger] walk[i]).0) by {
        assert(subs.contains_key(walk[i].0));
    }
    one_filter_counts_once(walk, subs, p.topic, client, filter);
}

/// Above QoS 0 the message is kept under the packet identifier that it goes out
/// with, and an acknowledgement of that identifier drops it.
pub proof fn messages_are_kept_until_acknowledged(c: ChannelView, p: PublishView, sub_qos: QoS)
    requires
        c.writing,
        request::qos_min(p.qos, sub_qos) != QoS::AtMostOnce,
    ensures
        ({
            let after = broker::after_delivery(c, p, sub_qos);
            after.outbox.last() matches WriteView::Publish(d) && (d.packet_id matches Some(id)
                && after.session.outbound_inflight.contains_pair(id, p)
                && !broker::after_ack(after, id).session.outbound_inflight.contains_key(id))
        }),
{
}

// ----------------------------------------------------------------------------
// Laws of subscriptions
// ----------------------------------------------------------------------------

/// A client that subscribes to a filter subscribes to every topic that the
/// filter matches.
pub proof fn subscribing_takes_effect(
    subs: Map<Seq<char>, Map<Seq<char>, QoS>>,
    client: Seq<char>,
    filter: Seq<char>,
    qos: QoS,
    topic: Seq<char>,
)
    requires
        topic::topic_matches(filter, topic),
    ensures
        subscribes(broker::subscribed(subs, client, filter, qos), client, topic, qos),
{
    let after = broker::subscribed(subs, client, filter, qos);
    assert(after.contains_key(filter));
    assert(after[filter].contains_pair(client, qos));
}

/// Subscribing changes nothing for other clients.
pub proof fn subscribing_concerns_the_client_only(
    subs: Map<Seq<char>, Map<Seq<char>, QoS>>,
    client: Seq<char>,
    filter: Seq<char>,
    qos: QoS,
    other: Seq<char>,
    topic: Seq<char>,
    q: QoS,
)
    requires
        other != client,
    ensures
        subscribes(broker::subscribed(subs, client, filter, qos), other, topic, q) == subscribes(
            subs,
            other,
            topic,
            q,
        ),
{
    let after = broker::subscribed(subs, client, filter, qos);
    if subscribes(subs, other, topic, q) {
        let f = choose|f: Seq<char>| #[trigger]
            subs.contains_key(f) && topic::topic_matches(f, topic) && subs[f].contains_pair(
                other,
                q,
            );
        assert(after.contains_key(f) && after[f].contains_pair(other, q));
    }
    if subscribes(after, other, topic, q) {
        let f = choose|f: Seq<char>| #[trigger]
            after.contains_key(f) && topic::topic_matches(f, topic) && after[f].contains_pair(
                other,
                q,
            );
        assert(subs.contains_key(f) && subs[f].contains_pair(other, q));
    }
}

/// A client that has unsubscribed from a filter subscribes through other
/// filters only.
pub proof fn unsubscribing_stops_delivery(
    subs: Map<Seq<char>, Map<Seq<char>, QoS>>,
    client: Seq<char>,
    filter: Seq<char>,
    topic: Seq<char>,
    qos: QoS,
)
    requires
        subscribes(broker::unsubscribed(subs, client, filter), client, topic, qos),
    ensures
        exists|f: Seq<char>| #[trigger]
            subs.contains_key(f) && f != filter && topic::topic_matches(f, topic)
                && subs[f].contains_pair(client, qos),
{
    let after = broker::unsubscribed(subs, client, filter);
    let f = choose|f: Seq<char>| #[trigger]
        after.contains_key(f) && topic::topic_matches(f, topic) && after[f].contains_pair(
            client,
            qos,
        );
    assert(subs.contains_key(f) && f != filter);
}

/// Subscribing and unsubscribing again leaves every filter with the subscribers
/// that it had before.
pub proof fn unsubscribing_undoes_subscribing(
    subs: Map<Seq<char>, Map<Seq<char>, QoS>>,
    client: Seq<char>,
    filter: Seq<char>,
    qos: QoS,
    f: Seq<char>,
)
    requires
        !broker::subscribers(subs, filter).contains_key(client),
    ensures
        broker::subscribers(
            broker::unsubscribed(broker::subscribed(subs, client, filter, qos), client, filter),
            f,
        ) == broker::subscribers(subs, f),
{
    let after = broker::unsubscribed(
        broker::subscribed(subs, client, filter, qos),
        client,
        filter,
    );
    assert(broker::subscribers(after, filter) =~= broker::subscribers(subs, filter));
}

/// A client that has been forgotten has no session and no subscription.
pub proof fn forgotten_clients_are_gone(
    b: BrokerView,
    client: Seq<char>,
    topic: Seq<char>,
    qos: QoS,
)
    ensures
        !broker::forgotten(b, client).sessions.contains_key(client),
        !subscribes(broker::forgotten(b, client).subscriptions, client, topic, qos),
{
    let subs = broker::forgotten(b, client).subscriptions;
    if subscribes(subs, client, topic, qos) {
        let f = choose|f: Seq<char>| #[trigger]
            subs.contains_key(f) && topic::topic_matches(f, topic) && subs[f].contains_pair(
                client,
                qos,
            );
        assert(subs[f] == b.subscriptions[f].remove(client));
    }
}

/// A clean session starts without subscriptions.
pub proof fn clean_sessions_start_empty(
    b: BrokerView,
    client: Seq<char>,
    channel: u64,
    will: Option<crate::packet::WillView>,
    topic: Seq<char>,
    qos: QoS,
)
    ensures
        !subscribes(
            broker::registered(b, client, channel, will, true).subscriptions,
            client,
            topic,
            qos,
        ),
{
    forgotten_clients_are_gone(b, client, topic, qos);
}

/// A session that ends with a goodbye publishes no will: no connection gets
/// anything.
pub proof fn goodbyes_publish_nothing(before: BrokerView, after: BrokerView, client: Seq<char>)
    requires
        broker::unregistered(before, after, client, true),
    ensures
        after.channels == before.channels,
{
}

/// A session that ends without a goodbye brings its will to every client that
/// subscribes with a filter that matches the will's topic.
pub proof fn wills_reach_their_subscribers(
    before: BrokerView,
    after: BrokerView,
    client: Seq<char>,
    subscriber: Seq<char>,
    sub_qos: QoS,
    n: u64,
)
    requires
        broker::unregistered(before, after, client, false),
        before.sessions.contains_key(client),
        before.sessions[client].will is Some,
        subscriber != client,
        subscriber != ""@,
        subscribes(
            before.subscriptions,
            subscriber,
            before.sessions[client].will.unwrap().topic,
            sub_qos,
        ),
        broker::connection_of(before, subscriber) == Some(n),
        before.channels[n].writing,
    ensures
        has_copy(
            after.channels[n],
            before.channels[n].outbox.len() as int,
            broker::will_publish(before.sessions[client].will.unwrap()),
            sub_qos,
        ),
{
    let b = broker::forgotten(before, client);
    let p = broker::will_publish(before.sessions[client].will.unwrap());
    let f = choose|f: Seq<char>| #[trigger]
        before.subscriptions.contains_key(f) && topic::topic_matches(f, p.topic)
            && before.subscriptions[f].contains_pair(subscriber, sub_qos);
    assert(b.subscriptions.contains_key(f));
    assert(b.subscriptions[f] == before.subscriptions[f].remove(client));
    assert(b.subscriptions[f].contains_pair(subscriber, sub_qos));
    assert(subscribes(b.subscriptions, subscriber, p.topic, sub_qos));
    publishing_reaches_every_subscriber(b, after, ""@, p, subscriber, sub_qos, n);
}

// ----------------------------------------------------------------------------
// Lists of filters
// ----------------------------------------------------------------------------

/// A filter that was granted is held at the QoS level of its last occurrence in
/// the list.
pub proof fn granted_filters_are_held(
    b: BrokerView,
    client: Seq<char>,
    filters: Seq<(Seq<char>, QoS)>,
    i: int,
)
    requires
        0 <= i < filters.len(),
        broker::granted(filters[i]) is Granted,
        forall|j: int| i < j < filters.len() ==> (#[trigger] filters[j]).0 != filters[i].0,
    ensures
        broker::subscribers(
            broker::all_subscribed(b, client, filters).subscriptions,
            filters[i].0,
        ).contains_pair(client, filters[i].1),
    decreases filters.len(),
{
    if i < filters.len() - 1 {
        let init = filters.drop_last();
        assert forall|j: int| i < j < init.len() implies (#[trigger] init[j]).0 != init[i].0 by {
            assert(init[j] == filters[j]);
        }
        granted_filters_are_held(b, client, init, i);
        assert(filters[filters.len() - 1].0 != filters[i].0);
    }
}

/// A client that has unsubscribed from a list of filters subscribes to none of
/// them.
pub proof fn unsubscribed_filters_are_gone(
    b: BrokerView,
    client: Seq<char>,
    topics: Seq<Seq<char>>,
    i: int,
)
    requires
        0 <= i < topics.len(),
    ensures
        !broker::subscribers(
            broker::all_unsubscribed(b, client, topics).subscriptions,
            topics[i],
        ).contains_key(client),
    decreases topics.len(),
{
    if i < topics.len() - 1 {
        unsubscribed_filters_are_gone(b, client, topics.drop_last(), i);
    }
}

// ----------------------------------------------------------------------------
// Sessions agree with subscriptions
// ----------------------------------------------------------------------------

/// Every filter that a session lists is a subscription of its client, at the
/// same QoS level.
pub open spec fn listed(b: BrokerView) -> bool {
    forall|client: Seq<char>, f: Seq<char>|
        b.sessions.contains_key(client) && #[trigger] b.sessions[client].filters.contains_key(f)
            ==> broker::subscribers(b.subscriptions, f).contains_pair(
            client,
            b.sessions[client].filters[f],
        )
}

/// Every subscription belongs to a client with a session.
pub open spec fn owned(b: BrokerView) -> bool {
    forall|client: Seq<char>, f: Seq<char>| #[trigger]
        broker::subscribers(b.subscriptions, f).contains_key(client) ==> b.sessions.contains_key(
            client,
        )
}

/// Sessions and subscriptions agree: what sessions list is subscribed, and who
/// subscribes has a session. A session that was taken up again lists only what
/// has been subscribed since.
pub open spec fn consistent(b: BrokerView) -> bool {
    listed(b) && owned(b)
}

/// Registering a client keeps sessions and subscriptions in agreement.
pub proof fn registering_stays_consistent(
    b: BrokerView,
    client: Seq<char>,
    channel: u64,
    will: Option<crate::packet::WillView>,
    clean_session: bool,
)
    requires
        consistent(b),
    ensures
        consistent(broker::registered(b, client, channel, will, clean_session)),
{
    let after = broker::registered(b, client, channel, will, clean_session);
    assert forall|c: Seq<char>, f: Seq<char>|
        after.sessions.contains_key(c) && #[trigger] after.sessions[c].filters.contains_key(
            f,
        ) implies broker::subscribers(after.subscriptions, f).contains_pair(
        c,
        after.sessions[c].filters[f],
    ) by {
        assert(c != client);
        assert(b.sessions[c].filters.contains_key(f));
    }
    assert forall|c: Seq<char>, f: Seq<char>| #[trigger]
        broker::subscribers(after.subscriptions, f).contains_key(
            c,
        ) implies after.sessions.contains_key(c) by {
        assert(broker::subscribers(b.subscriptions, f).contains_key(c));
    }
}

/// Forgetting a client keeps sessions and subscriptions in agreement.
pub proof fn forgetting_stays_consistent(b: BrokerView, client: Seq<char>)
    requires
        consistent(b),
    ensures
        consistent(broker::forgotten(b, client)),
{
    let after = broker::forgotten(b, client);
    assert forall|c: Seq<char>, f: Seq<char>|
        after.sessions.contains_key(c) && #[trigger] after.sessions[c].filters.contains_key(
            f,
        ) implies broker::subscribers(after.subscriptions, f).contains_pair(
        c,
        after.sessions[c].filters[f],
    ) by {
        assert(b.sessions[c].filters.contains_key(f));
    }
    assert forall|c: Seq<char>, f: Seq<char>| #[trigger]
        broker::subscribers(after.subscriptions, f).contains_key(
            c,
        ) implies after.sessions.contains_key(c) by {
        assert(broker::subscribers(b.subscriptions, f).contains_key(c));
    }
}

/// Subscribing keeps sessions and subscriptions in agreement.
pub proof fn subscribing_stays_consistent(
    b: BrokerView,
    client: Seq<char>,
    filters: Seq<(Seq<char>, QoS)>,
)
    requires
        consistent(b),
        b.sessions.contains_key(client),
    ensures
        consistent(broker::all_subscribed(b, client, filters)),
        broker::all_subscribed(b, client, filters).sessions.contains_key(client),
    decreases filters.len(),
{
    if filters.len() > 0 {
        let before = broker::all_subscribed(b, client, filters.drop_last());
        let after = broker::all_subscribed(b, client, filters);
        subscribing_stays_consistent(b, client, filters.drop_last());
        assert forall|c: Seq<char>, f: Seq<char>|
            after.sessions.contains_key(c) && #[trigger] after.sessions[c].filters.contains_key(
                f,
            ) implies broker::subscribers(after.subscriptions, f).contains_pair(
            c,
            after.sessions[c].filters[f],
        ) by {
            if before.sessions[c].filters.contains_key(f) {
                assert(broker::subscribers(before.subscriptions, f).contains_pair(
                    c,
                    before.sessions[c].filters[f],
                ));
            }
        }
        assert forall|c: Seq<char>, f: Seq<char>| #[trigger]
            broker::subscribers(after.subscriptions, f).contains_key(
                c,
            ) implies after.sessions.contains_key(c) by {
            assert(broker::subscribers(before.subscriptions, f).contains_key(c) || c == client);
        }
    }
}

/// Unsubscribing keeps sessions and subscriptions in agreement.
pub proof fn unsubscribing_stays_consistent(
    b: BrokerView,
    client: Seq<char>,
    topics: Seq<Seq<char>>,
)
    requires
        consistent(b),
        b.sessions.contains_key(client),
    ensures
        consistent(broker::all_unsubscribed(b, client, topics)),
        broker::all_unsubscribed(b, client, topics).sessions.contains_key(client),
    decreases topics.len(),
{
    if topics.len() > 0 {
        let before = broker::all_unsubscribed(b, client, topics.drop_last());
        let after = broker::all_unsubscribed(b, client, topics);
        unsubscribing_stays_consistent(b, client, topics.drop_last());
        assert forall|c: Seq<char>, f: Seq<char>|
            after.sessions.contains_key(c) && #[trigger] after.sessions[c].filters.contains_key(
                f,
            ) implies broker::subscribers(after.subscriptions, f).contains_pair(
            c,
            after.sessions[c].filters[f],
        ) by {
            assert(before.sessions[c].filters.contains_key(f));
            assert(broker::subscribers(before.subscriptions, f).contains_pair(
                c,
                before.sessions[c].filters[f],
            ));
        }
        assert forall|c: Seq<char>, f: Seq<char>| #[trigger]
            broker::subscribers(after.subscriptions, f).contains_key(
                c,
            ) implies after.sessions.contains_key(c) by {
            assert(broker::subscribers(before.subscriptions, f).contains_key(c));
        }
    }
}

/// A broker starts with sessions and subscriptions in agreement: it has none.
pub proof fn new_brokers_are_consistent(b: BrokerView)
    requires
        b.sessions == Map::<Seq<char>, broker::SubscriberView>::empty(),
        b.subscriptions == Map::<Seq<char>, Map<Seq<char>, QoS>>::empty(),
    ensures
        consistent(b),
{
}

/// Tearing a session down keeps sessions and subscriptions in agreement.
pub proof fn unregistering_stays_consistent(
    before: BrokerView,
    after: BrokerView,
    client: Seq<char>,
    graceful: bool,
)
    requires
        consistent(before),
        broker::unregistered(before, after, client, graceful),
    ensures
        consistent(after),
{
    if before.sessions.contains_key(client) {
        let b = broker::forgotten(before, client);
        forgetting_stays_consistent(before, client);
        if let Some(w) = before.sessions[client].will {
            if !graceful {
                publishing_stays_consistent(b, after, ""@, broker::will_publish(w));
            }
        }
    }
}

/// Publishing keeps sessions and subscriptions in agreement.
pub proof fn publishing_stays_consistent(
    before: BrokerView,
    after: BrokerView,
    source: Seq<char>,
    p: PublishView,
)
    requires
        consistent(before),
        broker::published(before, after, source, p),
    ensures
        consistent(after),
{
    publishing_only_delivers(before, after, source, p);
    assert forall|c: Seq<char>, f: Seq<char>|
        after.sessions.contains_key(c) && #[trigger] after.sessions[c].filters.contains_key(
            f,
        ) implies broker::subscribers(after.subscriptions, f).contains_pair(
        c,
        after.sessions[c].filters[f],
    ) by {
        assert(before.sessions[c].filters.contains_key(f));
    }
    assert forall|c: Seq<char>, f: Seq<char>| #[trigger]
        broker::subscribers(after.subscriptions, f).contains_key(
            c,
        ) implies after.sessions.contains_key(c) by {
        assert(broker::subscribers(before.subscriptions, f).contains_key(c));
    }
}

/// What happens to connections does not matter for the agreement.
pub proof fn connections_do_not_matter(a: BrokerView, b: BrokerView)
    requires
        consistent(a),
        b.sessions == a.sessions,
        b.subscriptions == a.subscriptions,
    ensures
        consistent(b),
{
    assert forall|c: Seq<char>, f: Seq<char>|
        b.sessions.contains_key(c) && #[trigger] b.sessions[c].filters.contains_key(
            f,
        ) implies broker::subscribers(b.subscriptions, f).contains_pair(
        c,
        b.sessions[c].filters[f],
    ) by {
        assert(a.sessions[c].filters.contains_key(f));
    }
    assert forall|c: Seq<char>, f: Seq<char>| #[trigger]
        broker::subscribers(b.subscriptions, f).contains_key(c) implies b.sessions.contains_key(
        c,
    ) by {
        assert(broker::subscribers(a.subscriptions, f).contains_key(c));
    }
}

/// A client whose session has been torn down has no session and subscribes to
/// nothing.
pub proof fn unregistered_clients_are_gone(
    before: BrokerView,
    after: BrokerView,
    client: Seq<char>,
    graceful: bool,
    topic: Seq<char>,
    qos: QoS,
)
    requires
        consistent(before),
        broker::unregistered(before, after, client, graceful),
    ensures
        !after.sessions.contains_key(client),
        !subscribes(after.subscriptions, client, topic, qos),
{
    unregistering_stays_consistent(before, after, client, graceful);
    if before.sessions.contains_key(client) {
        let b = broker::forgotten(before, client);
        if let Some(w) = before.sessions[client].will {
            if !graceful {
                publishing_only_delivers(b, after, ""@, broker::will_publish(w));
            }
        }
    }
    if subscribes(after.subscriptions, client, topic, qos) {
        let f = choose|f: Seq<char>| #[trigger]
            after.subscriptions.contains_key(f) && topic::topic_matches(f, topic)
                && after.subscriptions[f].contains_pair(client, qos);
        assert(broker::subscribers(after.subscriptions, f).contains_key(client));
    }
}

// ----------------------------------------------------------------------------
// What an operation leaves alone
// ----------------------------------------------------------------------------

/// After unsubscribing from a list of filters every filter that is not in the
/// list has exactly the subscribers that it had, and the listed filters have
/// them but for the client.
pub proof fn unsubscribing_leaves_the_rest(
    b: BrokerView,
    client: Seq<char>,
    topics: Seq<Seq<char>>,
    f: Seq<char>,
    other: Seq<char>,
    qos: QoS,
)
    requires
        other != client,
    ensures
        ({
            let after = broker::all_unsubscribed(b, client, topics);
            &&& after.subscriptions.contains_key(f) == b.subscriptions.contains_key(f)
            &&& !topics.contains(f) && b.subscriptions.contains_key(f) ==> after.subscriptions[f]
                == b.subscriptions[f]
            &&& b.subscriptions.contains_key(f) ==> (after.subscriptions[f].contains_pair(
                other,
                qos,
            ) <==> b.subscriptions[f].contains_pair(other, qos))
            &&& topics.contains(f) && b.subscriptions.contains_key(f)
                ==> !after.subscriptions[f].contains_key(client)
        }),
    decreases topics.len(),
{
    if topics.len() > 0 {
        let init = topics.drop_last();
        unsubscribing_leaves_the_rest(b, client, init, f, other, qos);
        assert(topics.contains(topics[topics.len() - 1]));
        if init.contains(f) {
            let i = choose|i: int| 0 <= i < init.len() && init[i] == f;
            assert(topics[i] == f);
        }
        if topics.contains(f) && f != topics.last() {
            let i = choose|i: int| 0 <= i < topics.len() && topics[i] == f;
            assert(init[i] == f);
        }
    }
}

/// Unsubscribing takes the listed filters off the client's record, and leaves
/// the rest of the record, all other sessions and all connections as they were.
pub proof fn unsubscribing_leaves_the_session(
    b: BrokerView,
    client: Seq<char>,
    topics: Seq<Seq<char>>,
    f: Seq<char>,
    other: Seq<char>,
)
    requires
        b.sessions.contains_key(client),
        other != client,
    ensures
        ({
            let after = broker::all_unsubscribed(b, client, topics);
            let was = b.sessions[client];
            let now = after.sessions[client];
            &&& after.sessions.contains_key(client)
            &&& now.channel == was.channel
            &&& now.will == was.will
            &&& now.clean_session == was.clean_session
            &&& topics.contains(f) ==> !now.filters.contains_key(f)
            &&& !topics.contains(f) ==> now.filters.contains_key(f) == was.filters.contains_key(f)
            &&& !topics.contains(f) && was.filters.contains_key(f) ==> now.filters[f]
                == was.filters[f]
            &&& after.sessions.contains_key(other) == b.sessions.contains_key(other)
            &&& b.sessions.contains_key(other) ==> after.sessions[other] == b.sessions[other]
            &&& after.channels == b.channels
        }),
    decreases topics.len(),
{
    if topics.len() > 0 {
        let init = topics.drop_last();
        unsubscribing_leaves_the_session(b, client, init, f, other);
        assert(topics.contains(topics[topics.len() - 1]));
        if init.contains(f) {
            let i = choose|i: int| 0 <= i < init.len() && init[i] == f;
            assert(topics[i] == f);
        }
        if topics.contains(f) && f != topics.last() {
            let i = choose|i: int| 0 <= i < topics.len() && topics[i] == f;
            assert(init[i] == f);
        }
    }
}

/// Subscribing to a list of filters changes nothing for other clients, and
/// nothing at a filter that is not in the list or is no topic filter.
pub proof fn subscribing_leaves_the_rest(
    b: BrokerView,
    client: Seq<char>,
    filters: Seq<(Seq<char>, QoS)>,
    f: Seq<char>,
    other: Seq<char>,
    qos: QoS,
)
    requires
        other != client,
    ensures
        ({
            let after = broker::all_subscribed(b, client, filters);
            let asked = exists|i: int| 0 <= i < filters.len() && (#[trigger] filters[i]).0 == f;
            let refused = topic::refusal(topic::filter_violation(f)) is Err;
            &&& !asked || refused ==> after.subscriptions.contains_key(f)
                == b.subscriptions.contains_key(f)
            &&& (!asked || refused) && b.subscriptions.contains_key(f) ==> after.subscriptions[f]
                == b.subscriptions[f]
            &&& b.subscriptions.contains_key(f) ==> after.subscriptions.contains_key(f) && (
            after.subscriptions[f].contains_pair(other, qos)
                <==> b.subscriptions[f].contains_pair(other, qos))
            &&& !b.subscriptions.contains_key(f) && after.subscriptions.contains_key(f)
                ==> !after.subscriptions[f].contains_key(other)
            &&& asked && !refused ==> after.subscriptions.contains_key(f)
                && after.subscriptions[f].contains_key(client)
        }),
    decreases filters.len(),
{
    if filters.len() > 0 {
        let init = filters.drop_last();
        let n = filters.len() - 1;
        subscribing_leaves_the_rest(b, client, init, f, other, qos);
        if exists|i: int| 0 <= i < init.len() && (#[trigger] init[i]).0 == f {
            let i = choose|i: int| 0 <= i < init.len() && (#[trigger] init[i]).0 == f;
            assert(filters[i].0 == f);
        }
        if (exists|i: int| 0 <= i < filters.len() && (#[trigger] filters[i]).0 == f) && filters[n].0
            != f {
            let i = choose|i: int| 0 <= i < filters.len() && (#[trigger] filters[i]).0 == f;
            assert(init[i].0 == f);
        }
        assert(filters[n] == filters.last());
    }
}

/// Subscribing puts the granted filters on the client's record, and leaves the
/// rest of the record, all other sessions and all connections as they were.
pub proof fn subscribing_leaves_the_session(
    b: BrokerView,
    client: Seq<char>,
    filters: Seq<(Seq<char>, QoS)>,
    f: Seq<char>,
    other: Seq<char>,
)
    requires
        b.sessions.contains_key(client),
        other != client,
    ensures
        ({
            let after = broker::all_subscribed(b, client, filters);
            let was = b.sessions[client];
            let now = after.sessions[client];
            let asked = exists|i: int| 0 <= i < filters.len() && (#[trigger] filters[i]).0 == f;
            let refused = topic::refusal(topic::filter_violation(f)) is Err;
            &&& after.sessions.contains_key(client)
            &&& now.channel == was.channel
            &&& now.will == was.will
            &&& now.clean_session == was.clean_session
            &&& asked && !refused ==> now.filters.contains_key(f) && after.subscriptions.contains_key(
                f,
            ) && after.subscriptions[f].contains_pair(client, now.filters[f])
            &&& !asked || refused ==> now.filters.contains_key(f) == was.filters.contains_key(f)
            &&& (!asked || refused) && was.filters.contains_key(f) ==> now.filters[f]
                == was.filters[f]
            &&& after.sessions.contains_key(other) == b.sessions.contains_key(other)
            &&& b.sessions.contains_key(other) ==> after.sessions[other] == b.sessions[other]
            &&& after.channels == b.channels
        }),
    decreases filters.len(),
{
    if filters.len() > 0 {
        let init = filters.drop_last();
        let n = filters.len() - 1;
        subscribing_leaves_the_session(b, client, init, f, other);
        if exists|i: int| 0 <= i < init.len() && (#[trigger] init[i]).0 == f {
            let i = choose|i: int| 0 <= i < init.len() && (#[trigger] init[i]).0 == f;
            assert(filters[i].0 == f);
        }
        if (exists|i: int| 0 <= i < filters.len() && (#[trigger] filters[i]).0 == f) && filters[n].0
            != f {
            let i = choose|i: int| 0 <= i < filters.len() && (#[trigger] filters[i]).0 == f;
            assert(init[i].0 == f);
        }
        assert(filters[n] == filters.last());
    }
}

/// A filter that is asked for once is granted at the level that was asked for,
/// exactly when it is a topic filter; then the client holds it at that level.
pub proof fn filters_are_granted_as_asked(
    b: BrokerView,
    client: Seq<char>,
    filters: Seq<(Seq<char>, QoS)>,
    i: int,
)
    requires
        0 <= i < filters.len(),
        forall|j: int| i < j < filters.len() ==> (#[trigger] filters[j]).0 != filters[i].0,
    ensures
        ({
            let (f, q) = filters[i];
            let after = broker::all_subscribed(b, client, filters);
            if topic::refusal(topic::filter_violation(f)) is Ok {
                &&& broker::granted(filters[i]) == request::SubackCode::Granted(q)
                &&& after.subscriptions.contains_key(f) && after.subscriptions[f].contains_pair(
                    client,
                    q,
                )
            } else {
                broker::granted(filters[i]) == request::SubackCode::Failure
            }
        }),
{
    if topic::refusal(topic::filter_violation(filters[i].0)) is Ok {
        granted_filters_are_held(b, client, filters, i);
    }
}

/// Forgetting a client takes its session and its subscriptions away and nothing
/// else: other clients keep theirs, and connections stay.
pub proof fn forgetting_leaves_the_rest(
    b: BrokerView,
    client: Seq<char>,
    f: Seq<char>,
    other: Seq<char>,
    qos: QoS,
)
    requires
        other != client,
    ensures
        ({
            let after = broker::forgotten(b, client);
            &&& !after.sessions.contains_key(client)
            &&& after.sessions.contains_key(other) == b.sessions.contains_key(other)
            &&& b.sessions.contains_key(other) ==> after.sessions[other] == b.sessions[other]
            &&& after.subscriptions.contains_key(f) == b.subscriptions.contains_key(f)
            &&& b.subscriptions.contains_key(f) ==> !after.subscriptions[f].contains_key(client)
                && (after.subscriptions[f].contains_pair(other, qos)
                <==> b.subscriptions[f].contains_pair(other, qos))
            &&& after.channels == b.channels
        }),
{
}

/// Registering a client makes its record: its connection, its will, its
/// `clean_session`, and no filters. A clean session drops the client's
/// subscriptions, another keeps them; other clients and connections are left
/// alone.
pub proof fn registering_makes_a_record(
    b: BrokerView,
    client: Seq<char>,
    channel: u64,
    will: Option<WillView>,
    clean_session: bool,
    f: Seq<char>,
    other: Seq<char>,
    qos: QoS,
)
    requires
        other != client,
    ensures
        ({
            let after = broker::registered(b, client, channel, will, clean_session);
            let now = after.sessions[client];
            &&& after.sessions.contains_key(client)
            &&& now.channel == channel
            &&& now.will == will
            &&& now.clean_session == clean_session
            &&& !now.filters.contains_key(f)
            &&& after.sessions.contains_key(other) == b.sessions.contains_key(other)
            &&& b.sessions.contains_key(other) ==> after.sessions[other] == b.sessions[other]
            &&& after.subscriptions.contains_key(f) == b.subscriptions.contains_key(f)
            &&& b.subscriptions.contains_key(f) ==> (after.subscriptions[f].contains_pair(
                other,
                qos,
            ) <==> b.subscriptions[f].contains_pair(other, qos))
            &&& clean_session && b.subscriptions.contains_key(f)
                ==> !after.subscriptions[f].contains_key(client)
            &&& !clean_session ==> after.subscriptions == b.subscriptions
            &&& after.channels == b.channels
        }),
{
}

// ----------------------------------------------------------------------------
// Messages field by field
// ----------------------------------------------------------------------------

/// The lower of two QoS levels, by their rank.
spec fn at_lower_level(q: QoS, a: QoS, b: QoS) -> bool {
    if a == QoS::AtMostOnce || b == QoS::AtMostOnce {
        q == QoS::AtMostOnce
    } else if a == QoS::AtLeastOnce || b == QoS::AtLeastOnce {
        q == QoS::AtLeastOnce
    } else {
        q == QoS::ExactlyOnce
    }
}

/// The message `p` stands in the outbox of `c` behind the first `from` commands,
/// as a subscriber at level `sub_qos` gets it, and is kept where its level asks
/// for that.
spec fn is_served(c: ChannelView, from: int, k: int, p: PublishView, sub_qos: QoS) -> bool {
    from <= k < c.outbox.len() && (c.outbox[k] matches WriteView::Publish(d) && {
        &&& d.topic == p.topic
        &&& d.payload == p.payload
        &&& d.properties == p.properties
        &&& !d.dup
        &&& !d.retain
        &&& at_lower_level(d.qos, p.qos, sub_qos)
        &&& d.qos == QoS::AtMostOnce ==> d.packet_id is None
        &&& d.qos != QoS::AtMostOnce ==> (d.packet_id matches Some(id) && id != 0
            && c.session.outbound_inflight.contains_pair(id, p))
    })
}

proof fn delivery_serves(c: ChannelView, p: PublishView, sub_qos: QoS)
    requires
        c.writing,
    ensures
        is_served(
            broker::after_delivery(c, p, sub_qos),
            c.outbox.len() as int,
            c.outbox.len() as int,
            p,
            sub_qos,
        ),
{
}

proof fn deliveries_keep_serving(
    c: ChannelView,
    from: int,
    k: int,
    p: PublishView,
    sub_qos: QoS,
    other: QoS,
)
    requires
        0 <= from,
        is_served(c, from, k, p, sub_qos),
    ensures
        is_served(broker::after_delivery(c, p, other), from, k, p, sub_qos),
{
    assert(broker::after_delivery(c, p, other).outbox[k] == c.outbox[k]);
}

proof fn fan_out_serves(
    b: BrokerView,
    order: Seq<(Seq<char>, QoS)>,
    source: Seq<char>,
    p: PublishView,
    i: int,
    n: u64,
) -> (k: int)
    requires
        0 <= i < order.len(),
        target(b, order[i].0, source) == Some(n),
        b.channels[n].writing,
    ensures
        is_served(
            broker::fanned_out(b, order, source, p).channels[n],
            b.channels[n].outbox.len() as int,
            k,
            p,
            order[i].1,
        ),
    decreases order.len(),
{
    let init = order.drop_last();
    let mid = broker::fanned_out(b, init, source, p);
    let after = broker::fanned_out(b, order, source, p);
    let from = b.channels[n].outbox.len() as int;
    fan_out_only_delivers(b, init, source, p);
    assert(b.channels.contains_key(n));
    assert(mid.channels.dom().contains(n));
    assert(mid.channels.contains_key(n));
    let (client, qos) = order.last();
    if i == order.len() - 1 {
        delivery_serves(mid.channels[n], p, qos);
        assert(after.channels[n] == broker::after_delivery(mid.channels[n], p, qos));
        mid.channels[n].outbox.len() as int
    } else {
        assert(init[i] == order[i]);
        let k = fan_out_serves(b, init, source, p, i, n);
        if target(mid, client, source) == Some(n) {
            deliveries_keep_serving(mid.channels[n], from, k, p, order[i].1, qos);
            assert(after.channels[n] == broker::after_delivery(mid.channels[n], p, qos));
        } else {
            assert(after.channels[n] == mid.channels[n]);
        }
        k
    }
}

/// A subscriber gets the message field by field: the topic, the payload and the
/// properties of the publish, without DUP and RETAIN, at the lower of the two QoS
/// levels; above QoS 0 under a packet identifier, under which it is kept.
pub proof fn publishing_delivers_the_message(
    before: BrokerView,
    after: BrokerView,
    source: Seq<char>,
    p: PublishView,
    client: Seq<char>,
    sub_qos: QoS,
    n: u64,
)
    requires
        broker::published(before, after, source, p),
        subscribes(before.subscriptions, client, p.topic, sub_qos),
        client != source,
        before.sessions.contains_key(client),
        before.sessions[client].channel == n,
        before.channels.contains_key(n),
        before.channels[n].writing,
    ensures
        exists|k: int|
            before.channels[n].outbox.len() <= k < after.channels[n].outbox.len() && ((
            #[trigger] after.channels[n].outbox[k]) matches WriteView::Publish(d) && {
                &&& d.topic == p.topic
                &&& d.payload == p.payload
                &&& d.properties == p.properties
                &&& !d.dup
                &&& !d.retain
                &&& d.qos == (if p.qos == QoS::AtMostOnce || sub_qos == QoS::AtMostOnce {
                    QoS::AtMostOnce
                } else if p.qos == QoS::AtLeastOnce || sub_qos == QoS::AtLeastOnce {
                    QoS::AtLeastOnce
                } else {
                    QoS::ExactlyOnce
                })
                &&& d.qos == QoS::AtMostOnce ==> d.packet_id is None
                &&& d.qos != QoS::AtMostOnce ==> (d.packet_id matches Some(id) && id != 0
                    && after.channels[n].session.outbound_inflight.contains_pair(id, p))
            }),
{
    let walk = choose|walk: Seq<(Seq<char>, Seq<(Seq<char>, QoS)>)>| #[trigger]
        tables::walks(walk, before.subscriptions) && after == broker::fanned_out(
            before,
            broker::matches(walk, p.topic),
            source,
            p,
        );
    let order = broker::matches(walk, p.topic);
    matches_are_the_subscribers(walk, before.subscriptions, p.topic, client, sub_qos);
    let i = choose|i: int| 0 <= i < order.len() && order[i] == (client, sub_qos);
    let k = fan_out_serves(before, order, source, p, i, n);
    assert(after.channels[n].outbox[k] matches WriteView::Publish(_));
}

/// A session that ends without a goodbye brings its will to the subscribers of
/// the will's topic, field by field: the topic and the payload are those of the
/// will, and the QoS level is the lower of the will's and the subscription's;
/// above QoS 0 it goes out under a packet identifier, under which it is kept.
pub proof fn wills_are_delivered(
    before: BrokerView,
    after: BrokerView,
    client: Seq<char>,
    w: WillView,
    filter: Seq<char>,
    subscriber: Seq<char>,
    sub_qos: QoS,
    n: u64,
)
    requires
        broker::unregistered(before, after, client, false),
        before.sessions.contains_key(client),
        before.sessions[client].will == Some(w),
        subscriber != client,
        subscriber != ""@,
        topic::topic_matches(filter, w.topic),
        before.subscriptions.contains_key(filter),
        before.subscriptions[filter].contains_pair(subscriber, sub_qos),
        before.sessions.contains_key(subscriber),
        before.sessions[subscriber].channel == n,
        before.channels.contains_key(n),
        before.channels[n].writing,
    ensures
        exists|k: int|
            before.channels[n].outbox.len() <= k < after.channels[n].outbox.len() && ((
            #[trigger] after.channels[n].outbox[k]) matches WriteView::Publish(d) && {
                &&& d.topic == w.topic
                &&& d.payload == w.payload
                &&& d.properties == PropertiesView::empty()
                &&& !d.dup
                &&& !d.retain
                &&& d.qos == (if w.qos == QoS::AtMostOnce || sub_qos == QoS::AtMostOnce {
                    QoS::AtMostOnce
                } else if w.qos == QoS::AtLeastOnce || sub_qos == QoS::AtLeastOnce {
                    QoS::AtLeastOnce
                } else {
                    QoS::ExactlyOnce
                })
                &&& d.qos == QoS::AtMostOnce ==> d.packet_id is None
                &&& d.qos != QoS::AtMostOnce ==> (d.packet_id matches Some(id) && id != 0
                    && after.channels[n].session.outbound_inflight.contains_key(id)
                    && after.channels[n].session.outbound_inflight[id].topic == w.topic
                    && after.channels[n].session.outbound_inflight[id].payload == w.payload
                    && after.channels[n].session.outbound_inflight[id].qos == w.qos
                    && after.channels[n].session.outbound_inflight[id].retain == w.retain
                    && !after.channels[n].session.outbound_inflight[id].dup
                    && after.channels[n].session.outbound_inflight[id].packet_id is None
                    && after.channels[n].session.outbound_inflight[id].properties
                    == PropertiesView::empty())
            }),
{
    let b = broker::forgotten(before, client);
    let p = broker::will_publish(w);
    assert(b.subscriptions.contains_key(filter));
    assert(b.subscriptions[filter] == before.subscriptions[filter].remove(client));
    assert(b.subscriptions[filter].contains_pair(subscriber, sub_qos));
    assert(subscribes(b.subscriptions, subscriber, p.topic, sub_qos));
    publishing_delivers_the_message(b, after, ""@, p, subscriber, sub_qos, n);
}

/// A will concerns its subscribers only: a connection on which no client
/// subscribes to the will's topic gets nothing, and the sessions and
/// subscriptions of other clients stay.
pub proof fn wills_leave_others_alone(
    before: BrokerView,
    after: BrokerView,
    client: Seq<char>,
    graceful: bool,
    n: u64,
    other: Seq<char>,
    f: Seq<char>,
    qos: QoS,
)
    requires
        broker::unregistered(before, after, client, graceful),
        before.sessions.contains_key(client),
        other != client,
        before.channels.contains_key(n),
        before.sessions[client].will matches Some(w) ==> forall|c: Seq<char>, q: QoS|
            c != client && broker::connection_of(before, c) == Some(n) ==> !#[trigger] subscribes(
                before.subscriptions,
                c,
                w.topic,
                q,
            ),
    ensures
        after.channels.contains_key(n),
        after.channels[n] == before.channels[n],
        after.sessions.contains_key(other) == before.sessions.contains_key(other),
        before.sessions.contains_key(other) ==> after.sessions[other] == before.sessions[other],
        after.subscriptions.contains_key(f) == before.subscriptions.contains_key(f),
        before.subscriptions.contains_key(f) ==> (after.subscriptions[f].contains_pair(other, qos)
            <==> before.subscriptions[f].contains_pair(other, qos)),
{
    let b = broker::forgotten(before, client);
    if let Some(w) = before.sessions[client].will {
        if !graceful {
            let p = broker::will_publish(w);
            publishing_only_delivers(b, after, ""@, p);
            assert(b.channels.contains_key(n));
            assert forall|c: Seq<char>, q: QoS|
                c != ""@ && broker::connection_of(b, c) == Some(n) implies !#[trigger] subscribes(
                b.subscriptions,
                c,
                p.topic,
                q,
            ) by {
                if subscribes(b.subscriptions, c, p.topic, q) {
                    let g = choose|g: Seq<char>| #[trigger]
                        b.subscriptions.contains_key(g) && topic::topic_matches(g, p.topic)
                            && b.subscriptions[g].contains_pair(c, q);
                    assert(b.subscriptions[g] == before.subscriptions[g].remove(client));
                    assert(before.subscriptions.contains_key(g));
                    assert(before.subscriptions[g].contains_pair(c, q));
                    assert(subscribes(before.subscriptions, c, w.topic, q));
                    assert(broker::connection_of(before, c) == Some(n));
                }
            }
            publishing_leaves_others_alone(b, after, ""@, p, n);
        }
    }
}

/// One delivery appends one command, counts at most one packet identifier, and
/// leaves everything else of the connection as it was.
pub proof fn a_delivery_leaves_the_rest(c: ChannelView, p: PublishView, sub_qos: QoS, id: u16)
    requires
        c.writing,
    ensures
        ({
            let after = broker::after_delivery(c, p, sub_qos);
            let counts = p.qos != QoS::AtMostOnce && sub_qos != QoS::AtMostOnce;
            &&& after.outbox.len() == c.outbox.len() + 1
            &&& after.outbox.drop_last() == c.outbox
            &&& after.connection_id == c.connection_id
            &&& after.role == c.role
            &&& after.version == c.version
            &&& after.open == c.open
            &&& after.writing == c.writing
            &&& after.session.bind == c.session.bind
            &&& after.session.qos2_recv == c.session.qos2_recv
            &&& after.session.pending_acks == c.session.pending_acks
            &&& !counts ==> after.session == c.session
            &&& counts ==> after.session.pkt_counter == (if c.session.pkt_counter == 65535 {
                1
            } else {
                c.session.pkt_counter + 1
            })
            &&& counts && id != after.session.pkt_counter
                ==> after.session.outbound_inflight.contains_key(id)
                == c.session.outbound_inflight.contains_key(id)
        }),
{
    let after = broker::after_delivery(c, p, sub_qos);
    assert(after.outbox.drop_last() =~= c.outbox);
}

/// An acknowledgement drops what is kept under its identifier and the slot that
/// waits under it, and nothing else.
pub proof fn an_acknowledgement_leaves_the_rest(c: ChannelView, id: u16, other: u16)
    requires
        other != id,
    ensures
        ({
            let after = broker::after_ack(c, id);
            &&& !after.session.outbound_inflight.contains_key(id)
            &&& !after.session.pending_acks.contains_key(id)
            &&& after.session.outbound_inflight.contains_key(other)
                == c.session.outbound_inflight.contains_key(other)
            &&& c.session.outbound_inflight.contains_key(other)
                ==> after.session.outbound_inflight[other] == c.session.outbound_inflight[other]
            &&& after.session.pending_acks.contains_key(other)
                == c.session.pending_acks.contains_key(other)
            &&& c.session.pending_acks.contains_key(other) ==> after.session.pending_acks[other]
                == c.session.pending_acks[other]
            &&& after.session.qos2_recv == c.session.qos2_recv
            &&& after.session.pkt_counter == c.session.pkt_counter
            &&& after.session.bind == c.session.bind
            &&& after.outbox == c.outbox
            &&& after.open == c.open
            &&& after.writing == c.writing
            &&& after.version == c.version
        }),
{
}

/// Without a session there is nothing to tear down, and a session without a will,
/// or one that ends with a goodbye, is only forgotten.
pub proof fn tearing_down_quietly(
    before: BrokerView,
    after: BrokerView,
    client: Seq<char>,
    graceful: bool,
)
    requires
        broker::unregistered(before, after, client, graceful),
    ensures
        !before.sessions.contains_key(client) ==> after == before,
        before.sessions.contains_key(client) ==> !after.sessions.contains_key(client),
        before.sessions.contains_key(client) && (graceful || before.sessions[client].will is None)
            ==> after.channels == before.channels && after.sessions == before.sessions.remove(
            client,
        ),
{
    let b = broker::forgotten(before, client);
    if before.sessions.contains_key(client) && !graceful {
        if let Some(w) = before.sessions[client].will {
            publishing_only_delivers(b, after, ""@, broker::will_publish(w));
        }
    }
}

/// Above QoS 0 a message is kept as it was published, under the identifier that
/// has just been counted, whether or not it could be sent.
pub proof fn messages_are_kept_as_published(c: ChannelView, p: PublishView, sub_qos: QoS, id: u16)
    requires
        p.qos != QoS::AtMostOnce,
        sub_qos != QoS::AtMostOnce,
        id == (if c.session.pkt_counter == 65535 {
            1
        } else {
            c.session.pkt_counter + 1
        }),
    ensures
        ({
            let after = broker::after_delivery(c, p, sub_qos);
            &&& after.session.pkt_counter == id
            &&& after.session.outbound_inflight == c.session.outbound_inflight.insert(id, p)
            &&& !c.writing ==> after.outbox == c.outbox
        }),
{
}

/// What it is to send on a connection of the broker, and to change the state of
/// one: that connection has the new state, everything else stays.
pub proof fn one_connection_at_a_time(
    b: BrokerView,
    connection: u64,
    cmd: WriteView,
    c: ChannelView,
    n: u64,
)
    requires
        n != connection,
    ensures
        b.channels.contains_key(connection) && b.channels[connection].writing ==> b.reaches(
            connection,
        ) && b.sent(connection, cmd).channels[connection].outbox
            == b.channels[connection].outbox.push(cmd),
        b.channels.contains_key(connection) && !b.channels[connection].writing ==> !b.reaches(
            connection,
        ) && b.sent(connection, cmd).channels[connection] == b.channels[connection],
        !b.channels.contains_key(connection) ==> !b.reaches(connection) && b.sent(connection, cmd)
            == b,
        b.sent(connection, cmd).sessions == b.sessions,
        b.sent(connection, cmd).subscriptions == b.subscriptions,
        b.sent(connection, cmd).channels.contains_key(n) == b.channels.contains_key(n),
        b.channels.contains_key(n) ==> b.sent(connection, cmd).channels[n] == b.channels[n],
        b.with_channel(connection, c).channels[connection] == c,
        b.with_channel(connection, c).channels.contains_key(n) == b.channels.contains_key(n),
        b.channels.contains_key(n) ==> b.with_channel(connection, c).channels[n] == b.channels[n],
        b.with_channel(connection, c).sessions == b.sessions,
        b.with_channel(connection, c).subscriptions == b.subscriptions,
{
}

/// The connection of a client is the one on its record, when the broker has it.
pub proof fn clients_are_found_by_their_record(b: BrokerView, client: Seq<char>, n: u64)
    ensures
        broker::connection_of(b, client) == Some(n) <==> b.sessions.contains_key(client)
            && b.sessions[client].channel == n && b.channels.contains_key(n),
{
}

/// The view of a client's record holds its fields, and the views of lists keep
/// their order.
pub proof fn views_hold_the_records(
    e: broker::SubscriberEntry,
    f: Seq<request::TopicFilter>,
    t: Seq<std::sync::Arc<str>>,
)
    ensures
        e@.channel == e.channel,
        e@.clean_session == e.clean_session,
        e@.filters == tables::held_levels(e.filters),
        e.will matches Some(w) ==> e@.will == Some(w@),
        e.will is None ==> e@.will is None,
        broker::filter_views(f).len() == f.len(),
        forall|i: int|
            0 <= i < f.len() ==> (#[trigger] broker::filter_views(f)[i]).0 == (*f[i].filter)@
                && broker::filter_views(f)[i].1 == f[i].qos,
        broker::topic_views(t).len() == t.len(),
        forall|i: int| 0 <= i < t.len() ==> #[trigger] broker::topic_views(t)[i] == (*t[i])@,
{
}

/// A delivery to one subscriber concerns the connection on its record and no
/// other, and does not happen for the source, for a client without a record or
/// for a connection that is not there.
pub proof fn delivering_to_one_subscriber(
    b: BrokerView,
    client: Seq<char>,
    sub_qos: QoS,
    source: Seq<char>,
    p: PublishView,
    n: u64,
)
    ensures
        ({
            let after = broker::delivered_to(b, (client, sub_qos), source, p);
            let gets = client != source && b.sessions.contains_key(client)
                && b.channels.contains_key(b.sessions[client].channel);
            &&& !gets ==> after == b
            &&& gets ==> after.channels[b.sessions[client].channel] == broker::after_delivery(
                b.channels[b.sessions[client].channel],
                p,
                sub_qos,
            )
            &&& after.channels.contains_key(n) == b.channels.contains_key(n)
            &&& b.channels.contains_key(n) && !(gets && n == b.sessions[client].channel)
                ==> after.channels[n] == b.channels[n]
            &&& after.sessions == b.sessions
            &&& after.subscriptions == b.subscriptions
        }),
{
    let after = broker::delivered_to(b, (client, sub_qos), source, p);
    assert(after.channels.dom() =~= b.channels.dom());
}

/// Subscribers are served one after the other, and a walk over the subscriptions
/// finds the subscribers of each filter that matches.
pub proof fn serving_goes_one_by_one(
    b: BrokerView,
    order: Seq<(Seq<char>, QoS)>,
    next: (Seq<char>, QoS),
    source: Seq<char>,
    p: PublishView,
    walk: Seq<(Seq<char>, Seq<(Seq<char>, QoS)>)>,
    filter: Seq<char>,
    subs: Seq<(Seq<char>, QoS)>,
    topic: Seq<char>,
)
    ensures
        broker::fanned_out(b, Seq::empty(), source, p) == b,
        broker::fanned_out(b, order.push(next), source, p) == broker::delivered_to(
            broker::fanned_out(b, order, source, p),
            next,
            source,
            p,
        ),
        broker::matches(Seq::empty(), topic) == Seq::<(Seq<char>, QoS)>::empty(),
        topic::topic_matches(filter, topic) ==> broker::matches(walk.push((filter, subs)), topic)
            == broker::matches(walk, topic) + subs,
        !topic::topic_matches(filter, topic) ==> broker::matches(walk.push((filter, subs)), topic)
            == broker::matches(walk, topic),
{
    assert(order.push(next).drop_last() =~= order);
    assert(walk.push((filter, subs)).drop_last() =~= walk);
}

/// What a single delivery sends, field by field.
pub proof fn a_delivery_sends_the_message(c: ChannelView, p: PublishView, sub_qos: QoS)
    requires
        c.writing,
    ensures
        broker::after_delivery(c, p, sub_qos).outbox.last() matches WriteView::Publish(d) && {
            &&& d.topic == p.topic
            &&& d.payload == p.payload
            &&& d.properties == p.properties
            &&& !d.dup
            &&& !d.retain
            &&& d.qos == (if p.qos == QoS::AtMostOnce || sub_qos == QoS::AtMostOnce {
                QoS::AtMostOnce
            } else if p.qos == QoS::AtLeastOnce || sub_qos == QoS::AtLeastOnce {
                QoS::AtLeastOnce
            } else {
                QoS::ExactlyOnce
            })
            &&& d.qos == QoS::AtMostOnce ==> d.packet_id is None
            &&& d.qos != QoS::AtMostOnce ==> (d.packet_id matches Some(id) && id == (
            if c.session.pkt_counter == 65535 {
                1
            } else {
                c.session.pkt_counter + 1
            }))
        },
{
}

} // verus!
