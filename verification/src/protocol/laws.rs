//! What the two sides of the protocol promise.

use tokio::sync::oneshot;
use vstd::prelude::*;

use crate::broker;
use crate::broker::BrokerView;
use crate::buffers;
use crate::channel::{ChannelView, WriteView};
use crate::client::MqttClientConfig;
use crate::error::{MqttError, TimeoutKind, Violation};
use crate::fanout;
use crate::packet::{
    ConnackReturnCode, ConnackView, ConnectView, Packet, PacketView, PublishView, SubackView,
    SubscribeView, UnsubackView, UnsubscribeView,
};
use crate::properties::PropertiesView;
use crate::protocol::client;
use crate::protocol::inbound;
use crate::protocol::inbound::{AckKind, Delivery, ReadOutcome, ReadView};
use crate::protocol::outbound;
use crate::protocol::server;
use crate::request::{PacketId, PublishRequest, QoS, SubackCode};
use crate::session;
use crate::session::{AckSlot, SessionView};
use crate::text;
use crate::topic;

verus! {

// ----------------------------------------------------------------------------
// Operations and their acknowledgements
// ----------------------------------------------------------------------------

/// The PUBACK of a QoS 1 publish reaches the operation that waits for it, and
/// reaches it once.
pub proof fn puback_ends_a_publish(
    c: ChannelView,
    req: PublishRequest,
    tx: oneshot::Sender<PacketId>,
)
    requires
        req.qos == QoS::AtLeastOnce,
    ensures
        ({
            let id = session::next_id(c.session.pkt_counter);
            let sent = outbound::after_publish(c, req, tx);
            &&& client::inbound_fire(sent, Packet::Puback(id)) == Some(Delivery::Id(tx, id))
            &&& client::inbound_fire(
                client::after_inbound(sent, PacketView::Puback(id)),
                Packet::Puback(id),
            ) is None
        }),
{
}

/// A QoS 2 publish goes through its phases: PUBREC reaches the operation and is
/// answered with PUBREL, and the PUBCOMP that follows reaches it again.
pub proof fn pubcomp_ends_a_publish(
    c: ChannelView,
    req: PublishRequest,
    rec: oneshot::Sender<PacketId>,
    comp: oneshot::Sender<PacketId>,
)
    requires
        req.qos == QoS::ExactlyOnce,
        c.writing,
    ensures
        ({
            let id = session::next_id(c.session.pkt_counter);
            let sent = outbound::after_publish(c, req, rec);
            let received = client::after_inbound(sent, PacketView::Pubrec(id));
            let waiting = received.with_session(
                SessionView {
                    pending_acks: received.session.pending_acks.insert(
                        id,
                        AckSlot::Pubcomp(comp),
                    ),
                    ..received.session
                },
            );
            &&& client::inbound_fire(sent, Packet::Pubrec(id)) == Some(Delivery::Id(rec, id))
            &&& received.outbox.last() == WriteView::Packet(PacketView::Pubrel(id))
            &&& client::inbound_fire(waiting, Packet::Pubcomp(id)) == Some(Delivery::Id(comp, id))
        }),
{
}

/// The SUBACK of a subscription reaches the operation that waits for it.
pub proof fn suback_ends_a_subscription(
    c: ChannelView,
    filters: Seq<(Seq<char>, QoS)>,
    tx: oneshot::Sender<Vec<SubackCode>>,
    s: crate::packet::SubackPacket,
)
    requires
        s.packet_id == session::next_id(c.session.pkt_counter),
    ensures
        client::inbound_fire(outbound::after_subscribe(c, filters, tx), Packet::Suback(s)) == Some(
            Delivery::Codes(tx, s.return_codes),
        ),
{
}

/// The UNSUBACK of an unsubscription reaches the operation that waits for it.
pub proof fn unsuback_ends_an_unsubscription(
    c: ChannelView,
    topics: Seq<Seq<char>>,
    tx: oneshot::Sender<()>,
    u: crate::packet::UnsubackPacket,
)
    requires
        u.packet_id == session::next_id(c.session.pkt_counter),
    ensures
        client::inbound_fire(outbound::after_unsubscribe(c, topics, tx), Packet::Unsuback(u))
            == Some(Delivery::Done(tx)),
{
}

/// An acknowledgement of the wrong kind reaches nobody.
pub proof fn wrong_acknowledgements_reach_nobody(
    slot: AckSlot,
    kind: AckKind,
    id: PacketId,
)
    requires
        kind == AckKind::Puback ==> !(slot is Puback),
        kind == AckKind::Pubrec ==> !(slot is Pubrec),
        kind == AckKind::Pubcomp ==> !(slot is Pubcomp),
    ensures
        inbound::ack_delivery(Some(slot), kind, id) is None,
{
}

/// Closing a channel drops every slot, so that no operation waits on.
pub proof fn closing_drops_every_slot(c: ChannelView, id: PacketId)
    ensures
        inbound::slot_of(c.closed_down(), id) is None,
{
}

// ----------------------------------------------------------------------------
// Inbound publishes
// ----------------------------------------------------------------------------

/// A QoS 2 publish reaches the endpoints of a server exactly once: not when it
/// arrives, with its PUBREL, and not with a PUBREL after that. Where PUBREC cannot
/// be sent, its arrival is an error.
pub proof fn servers_take_qos2_publishes_once(
    b: BrokerView,
    connection: u64,
    client: Seq<char>,
    p: PublishView,
    id: PacketId,
)
    requires
        p.qos == QoS::ExactlyOnce,
        p.packet_id == Some(id),
        b.channels.contains_key(connection),
    ensures
        ({
            let arrived = server::after_inbound(b, connection, client, PacketView::Publish(p));
            let released = server::after_inbound(
                arrived,
                connection,
                client,
                PacketView::Pubrel(id),
            );
            &&& server::inbound_result(b, connection, client, PacketView::Publish(p)) == (
            if b.reaches(connection) {
                Ok::<server::ServerEffectView, MqttError>(server::nothing())
            } else {
                Err(MqttError::ChannelClosed)
            })
            &&& server::released(arrived, connection, id) == Some(PublishView { dup: false, ..p })
            &&& server::released(released, connection, id) is None
        }),
{
}

/// A QoS 2 publish reaches the endpoints of a client exactly once.
pub proof fn clients_take_qos2_publishes_once(c: ChannelView, p: PublishView, id: PacketId)
    requires
        p.qos == QoS::ExactlyOnce,
        p.packet_id == Some(id),
    ensures
        ({
            let arrived = client::after_inbound(c, PacketView::Publish(p));
            let released = client::after_inbound(arrived, PacketView::Pubrel(id));
            &&& client::inbound_deliver(c, PacketView::Publish(p)) is None
            &&& client::inbound_deliver(arrived, PacketView::Pubrel(id)) == Some(p)
            &&& client::inbound_deliver(released, PacketView::Pubrel(id)) is None
        }),
{
}

/// An inbound publish with a packet identifier is acknowledged under that
/// identifier: PUBACK at QoS 1, PUBREC at QoS 2.
pub proof fn publishes_are_acknowledged(c: ChannelView, p: PublishView, id: PacketId)
    requires
        c.writing,
        p.packet_id == Some(id),
        p.qos != QoS::AtMostOnce,
    ensures
        inbound::acknowledged(c, p).outbox == c.outbox.push(
            WriteView::Packet(
                if p.qos == QoS::AtLeastOnce {
                    PacketView::Puback(id)
                } else {
                    PacketView::Pubrec(id)
                },
            ),
        ),
{
}

// ----------------------------------------------------------------------------
// Connecting
// ----------------------------------------------------------------------------

/// A client that has been let in is found on its connection.
pub proof fn connected_clients_are_found(
    b: BrokerView,
    connection: u64,
    c: crate::packet::ConnectView,
)
    requires
        b.channels.contains_key(connection),
    ensures
        broker::connection_of(
            server::welcomed(b, connection, c),
            server::client_name(c.client_id, connection),
        ) == Some(connection),
{
}

/// A client that has been refused leaves nothing behind but the answer.
pub proof fn refused_clients_leave_nothing(
    b: BrokerView,
    connection: u64,
    code: crate::packet::ConnackReturnCode,
)
    ensures
        b.sent(connection, server::connack(false, code)).sessions == b.sessions,
        b.sent(connection, server::connack(false, code)).subscriptions == b.subscriptions,
{
}

/// Clients that give no name get different names on different connections.
pub proof fn given_names_differ(a: u64, b: u64)
    requires
        a != b,
    ensures
        server::client_name(Seq::empty(), a) != server::client_name(Seq::empty(), b),
{
    let prefix = "hotaru-auto-"@;
    let x = prefix + text::decimal(a as nat);
    let y = prefix + text::decimal(b as nat);
    if x == y {
        assert(x.skip(prefix.len() as int) =~= text::decimal(a as nat));
        assert(y.skip(prefix.len() as int) =~= text::decimal(b as nat));
        text::decimals_differ(a as nat, b as nat);
    }
}

/// A server waits for a packet at least as long as a client lets pass between
/// two pings.
pub proof fn pings_come_in_time(keep_alive: u16)
    ensures
        (if keep_alive == 0 {
            1
        } else {
            keep_alive as int
        }) <= server::read_timeout(keep_alive),
{
}

/// What a client sends does not change the sessions of other clients.
pub proof fn packets_concern_their_client_only(
    b: BrokerView,
    connection: u64,
    client: Seq<char>,
    p: PacketView,
    other: Seq<char>,
)
    requires
        other != client,
    ensures
        ({
            let after = server::after_inbound(b, connection, client, p);
            &&& after.sessions.contains_key(other) == b.sessions.contains_key(other)
            &&& after.sessions[other] == b.sessions[other]
        }),
{
    match p {
        PacketView::Subscribe(s) => {
            subscribing_keeps_other_sessions(b, client, s.subscriptions, other);
        },
        PacketView::Unsubscribe(u) => {
            unsubscribing_keeps_other_sessions(b, client, u.topics, other);
        },
        _ => {},
    }
}

proof fn subscribing_keeps_other_sessions(
    b: BrokerView,
    client: Seq<char>,
    filters: Seq<(Seq<char>, QoS)>,
    other: Seq<char>,
)
    requires
        other != client,
    ensures
        ({
            let after = broker::all_subscribed(b, client, filters);
            &&& after.sessions.contains_key(other) == b.sessions.contains_key(other)
            &&& after.sessions[other] == b.sessions[other]
        }),
    decreases filters.len(),
{
    if filters.len() > 0 {
        subscribing_keeps_other_sessions(b, client, filters.drop_last(), other);
    }
}

proof fn unsubscribing_keeps_other_sessions(
    b: BrokerView,
    client: Seq<char>,
    topics: Seq<Seq<char>>,
    other: Seq<char>,
)
    requires
        other != client,
    ensures
        ({
            let after = broker::all_unsubscribed(b, client, topics);
            &&& after.sessions.contains_key(other) == b.sessions.contains_key(other)
            &&& after.sessions[other] == b.sessions[other]
        }),
    decreases topics.len(),
{
    if topics.len() > 0 {
        unsubscribing_keeps_other_sessions(b, client, topics.drop_last(), other);
    }
}

// ----------------------------------------------------------------------------
// Sessions agree with subscriptions
// ----------------------------------------------------------------------------

/// Welcoming a client keeps sessions and subscriptions in agreement.
pub proof fn welcoming_stays_consistent(
    b: BrokerView,
    connection: u64,
    c: crate::packet::ConnectView,
)
    requires
        fanout::consistent(b),
    ensures
        fanout::consistent(server::welcomed(b, connection, c)),
{
    let client = server::client_name(c.client_id, connection);
    let will = server::kept_will(c.will);
    fanout::registering_stays_consistent(b, client, connection, will, c.clean_session);
    fanout::connections_do_not_matter(
        broker::registered(b, client, connection, will, c.clean_session),
        server::welcomed(b, connection, c),
    );
}

/// Taking in a packet keeps sessions and subscriptions in agreement.
pub proof fn packets_stay_consistent(
    b: BrokerView,
    connection: u64,
    client: Seq<char>,
    p: PacketView,
)
    requires
        fanout::consistent(b),
    ensures
        fanout::consistent(server::after_inbound(b, connection, client, p)),
{
    let after = server::after_inbound(b, connection, client, p);
    match p {
        PacketView::Subscribe(s) if b.sessions.contains_key(client) => {
            fanout::subscribing_stays_consistent(b, client, s.subscriptions);
            fanout::connections_do_not_matter(
                broker::all_subscribed(b, client, s.subscriptions),
                after,
            );
        },
        PacketView::Unsubscribe(u) if b.sessions.contains_key(client) => {
            fanout::unsubscribing_stays_consistent(b, client, u.topics);
            fanout::connections_do_not_matter(
                broker::all_unsubscribed(b, client, u.topics),
                after,
            );
        },
        _ => {
            fanout::connections_do_not_matter(b, after);
        },
    }
}

/// Taking in what the endpoints have made of a publish keeps sessions and
/// subscriptions in agreement.
pub proof fn chains_stay_consistent(
    before: BrokerView,
    after: BrokerView,
    connection: u64,
    client: Seq<char>,
    pubcomp: Option<PacketId>,
    p: Option<PublishView>,
    r: Result<(), MqttError>,
)
    requires
        fanout::consistent(before),
        server::chain_ended(before, after, connection, client, pubcomp, p, r),
    ensures
        fanout::consistent(after),
{
    let taken = choose|mid: BrokerView| #[trigger]
        server::chain_taken_in(before, mid, connection, client, pubcomp, p, r) && (match r {
            Ok(_) => after == mid,
            Err(_) => broker::unregistered(mid, after, client, false),
        });
    let left = choose|mid: BrokerView| #[trigger]
        server::chain_left(before, mid, client, p) && (match pubcomp {
            Some(id) => taken == mid.sent(
                connection,
                WriteView::Packet(PacketView::Pubcomp(id)),
            ) && r == server::send_outcome(mid, connection),
            None => taken == mid && r == Ok::<(), MqttError>(()),
        });
    if let Some(p) = p {
        fanout::publishing_stays_consistent(before, left, client, p);
    }
    fanout::connections_do_not_matter(left, taken);
    if r is Err {
        fanout::unregistering_stays_consistent(taken, after, client, false);
    }
}

/// A client whose packet is an error is forgotten: what tearing its session down
/// leaves holds no session and no subscription of it.
pub proof fn failed_clients_are_forgotten(
    b: BrokerView,
    after: BrokerView,
    connection: u64,
    client: Seq<char>,
    p: PacketView,
    topic: Seq<char>,
    qos: QoS,
)
    requires
        fanout::consistent(b),
        server::inbound_result(b, connection, client, p) is Err,
        broker::unregistered(
            server::after_inbound(b, connection, client, p),
            after,
            client,
            false,
        ),
    ensures
        !after.sessions.contains_key(client),
        !fanout::subscribes(after.subscriptions, client, topic, qos),
{
    let taken = server::after_inbound(b, connection, client, p);
    packets_stay_consistent(b, connection, client, p);
    fanout::unregistered_clients_are_gone(taken, after, client, false, topic, qos);
}

/// A second CONNECT is an error, and changes nothing by itself.
pub proof fn second_connects_are_refused(
    b: BrokerView,
    connection: u64,
    client: Seq<char>,
    c: crate::packet::ConnectView,
)
    ensures
        server::inbound_result(b, connection, client, PacketView::Connect(c)) == Err::<
            server::ServerEffectView,
            MqttError,
        >(MqttError::Protocol(crate::error::Violation::SessionAlreadyBound)),
        server::after_inbound(b, connection, client, PacketView::Connect(c)) == b,
{
}

// ----------------------------------------------------------------------------
// Operations field by field
// ----------------------------------------------------------------------------

/// Starting a publish puts one PUBLISH last into the outbox, field by field that
/// of the request: its topic, payload, QoS and RETAIN flag, without DUP. Above
/// QoS 0 it has the next packet identifier, under which the operation waits: for
/// PUBACK at QoS 1 and for PUBREC at QoS 2, also when nothing can be sent.
/// Everything else stays.
pub proof fn publishing_sends_the_request(
    c: ChannelView,
    req: PublishRequest,
    tx: oneshot::Sender<PacketId>,
    other: PacketId,
)
    ensures
        ({
            let after = outbound::after_publish(c, req, tx);
            let id = (if c.session.pkt_counter == 65535 {
                1
            } else {
                c.session.pkt_counter + 1
            }) as u16;
            &&& !c.writing ==> after.outbox == c.outbox
            &&& c.writing ==> after.outbox.len() == c.outbox.len() + 1
            &&& c.writing ==> after.outbox.drop_last() == c.outbox
            &&& c.writing ==> (after.outbox.last() matches WriteView::Publish(d) && {
                &&& d.topic == (*req.topic)@
                &&& d.payload == buffers::payload(req.payload)
                &&& d.qos == req.qos
                &&& d.retain == req.retain
                &&& !d.dup
                &&& d.properties == PropertiesView::empty()
                &&& req.qos == QoS::AtMostOnce ==> d.packet_id is None
                &&& req.qos != QoS::AtMostOnce ==> d.packet_id == Some(id)
            })
            &&& req.qos == QoS::AtMostOnce ==> after.session == c.session
                && outbound::progress(c, req.qos) == outbound::PublishProgress::Sent
            &&& req.qos == QoS::AtLeastOnce ==> after.session.pending_acks.contains_pair(
                id,
                AckSlot::Puback(tx),
            ) && outbound::progress(c, req.qos) == outbound::PublishProgress::AwaitPuback(id)
            &&& req.qos == QoS::ExactlyOnce ==> after.session.pending_acks.contains_pair(
                id,
                AckSlot::Pubrec(tx),
            ) && outbound::progress(c, req.qos) == outbound::PublishProgress::AwaitPubrec(id)
            &&& req.qos != QoS::AtMostOnce ==> after.session.pkt_counter == id
            &&& other != id ==> inbound::slot_of(after, other) == inbound::slot_of(c, other)
            &&& after.session.qos2_recv == c.session.qos2_recv
            &&& after.session.outbound_inflight == c.session.outbound_inflight
            &&& after.session.bind == c.session.bind
            &&& after.open == c.open
            &&& after.writing == c.writing
            &&& after.version == c.version
        }),
{
    let after = outbound::after_publish(c, req, tx);
    if c.writing {
        assert(after.outbox.drop_last() =~= c.outbox);
    }
}

/// Starting a subscription puts one SUBSCRIBE last into the outbox, with the
/// filters in their order under the next packet identifier, and the operation
/// waits for SUBACK under it. Everything else stays.
pub proof fn subscribing_sends_the_filters(
    c: ChannelView,
    filters: Seq<(Seq<char>, QoS)>,
    tx: oneshot::Sender<Vec<SubackCode>>,
    other: PacketId,
)
    ensures
        ({
            let after = outbound::after_subscribe(c, filters, tx);
            let id = (if c.session.pkt_counter == 65535 {
                1
            } else {
                c.session.pkt_counter + 1
            }) as u16;
            &&& !c.writing ==> after.outbox == c.outbox
            &&& c.writing ==> after.outbox.len() == c.outbox.len() + 1
            &&& c.writing ==> after.outbox.drop_last() == c.outbox
            &&& c.writing ==> (after.outbox.last() matches WriteView::Packet(
                PacketView::Subscribe(s),
            ) && s.packet_id == id && s.subscriptions == filters)
            &&& after.session.pending_acks.contains_pair(id, AckSlot::Suback(tx))
            &&& c.writing ==> outbound::started(c) == Ok::<PacketId, MqttError>(id)
            &&& after.session.pkt_counter == id
            &&& other != id ==> inbound::slot_of(after, other) == inbound::slot_of(c, other)
            &&& after.session.qos2_recv == c.session.qos2_recv
            &&& after.session.outbound_inflight == c.session.outbound_inflight
            &&& after.session.bind == c.session.bind
            &&& after.open == c.open
            &&& after.writing == c.writing
            &&& after.version == c.version
        }),
{
    let after = outbound::after_subscribe(c, filters, tx);
    if c.writing {
        assert(after.outbox.drop_last() =~= c.outbox);
    }
}

/// Starting to unsubscribe puts one UNSUBSCRIBE last into the outbox, with the
/// topics in their order under the next packet identifier, and the operation
/// waits for UNSUBACK under it. Everything else stays.
pub proof fn unsubscribing_sends_the_topics(
    c: ChannelView,
    topics: Seq<Seq<char>>,
    tx: oneshot::Sender<()>,
    other: PacketId,
)
    ensures
        ({
            let after = outbound::after_unsubscribe(c, topics, tx);
            let id = (if c.session.pkt_counter == 65535 {
                1
            } else {
                c.session.pkt_counter + 1
            }) as u16;
            &&& !c.writing ==> after.outbox == c.outbox
            &&& c.writing ==> after.outbox.len() == c.outbox.len() + 1
            &&& c.writing ==> after.outbox.drop_last() == c.outbox
            &&& c.writing ==> (after.outbox.last() matches WriteView::Packet(
                PacketView::Unsubscribe(u),
            ) && u.packet_id == id && u.topics == topics)
            &&& after.session.pending_acks.contains_pair(id, AckSlot::Unsuback(tx))
            &&& c.writing ==> outbound::started(c) == Ok::<PacketId, MqttError>(id)
            &&& after.session.pkt_counter == id
            &&& other != id ==> inbound::slot_of(after, other) == inbound::slot_of(c, other)
            &&& after.session.qos2_recv == c.session.qos2_recv
            &&& after.session.outbound_inflight == c.session.outbound_inflight
            &&& after.session.bind == c.session.bind
            &&& after.open == c.open
            &&& after.writing == c.writing
            &&& after.version == c.version
        }),
{
    let after = outbound::after_unsubscribe(c, topics, tx);
    if c.writing {
        assert(after.outbox.drop_last() =~= c.outbox);
    }
}

/// Without a writer an operation is told that the channel is closed.
pub proof fn operations_without_a_writer_fail(c: ChannelView)
    requires
        !c.writing,
    ensures
        outbound::started(c) == Err::<PacketId, MqttError>(MqttError::ChannelClosed),
{
}

/// What a wait comes to: what was received, with the channel as it was; an error
/// when the slot was dropped; and an error when time has run out, with the slot
/// taken back.
pub proof fn waits_end(c: ChannelView, id: PacketId, v: PacketId)
    ensures
        outbound::waited(outbound::AckOutcome::Received(v)) == Ok::<PacketId, MqttError>(v),
        outbound::waited(outbound::AckOutcome::<PacketId>::Dropped) == Err::<PacketId, MqttError>(
            MqttError::ChannelClosed,
        ),
        outbound::waited(outbound::AckOutcome::<PacketId>::TimedOut) == Err::<PacketId, MqttError>(
            MqttError::Timeout(TimeoutKind::Ack),
        ),
        outbound::after_wait(c, id, outbound::AckOutcome::Received(v)) == c,
        outbound::after_wait(c, id, outbound::AckOutcome::<PacketId>::Dropped) == c,
        inbound::slot_of(
            outbound::after_wait(c, id, outbound::AckOutcome::<PacketId>::TimedOut),
            id,
        ) is None,
        outbound::after_wait(c, id, outbound::AckOutcome::<PacketId>::TimedOut).outbox == c.outbox,
{
}

// ----------------------------------------------------------------------------
// Connecting field by field
// ----------------------------------------------------------------------------

/// A client sends one CONNECT, which says what its configuration says, and takes
/// the version of that configuration.
pub proof fn connecting_sends_the_configuration(c: ChannelView, config: MqttClientConfig)
    ensures
        ({
            let after = client::after_connect(c, config@);
            &&& after.version == config.protocol_version
            &&& after.session == c.session
            &&& after.open == c.open
            &&& !c.writing ==> after.outbox == c.outbox
            &&& c.writing ==> after.outbox.len() == c.outbox.len() + 1
            &&& c.writing ==> after.outbox.drop_last() == c.outbox
            &&& c.writing ==> (after.outbox.last() matches WriteView::Packet(
                PacketView::Connect(k),
            ) && {
                &&& k.version == config.protocol_version
                &&& k.client_id == (*config.client_id)@
                &&& k.clean_session == config.clean_session
                &&& k.keep_alive == config.keep_alive_secs
                &&& config.credentials matches Some(x) ==> k.username == Some((*x.username)@)
                    && k.password == Some(buffers::payload(x.password))
                &&& config.credentials is None ==> k.username is None && k.password is None
                &&& config.will matches Some(w) ==> (k.will matches Some(v) && v.topic == (
                *w.topic)@ && v.payload == buffers::payload(w.payload) && v.qos == w.qos
                    && v.retain == w.retain)
                &&& config.will is None ==> k.will is None
            })
        }),
{
    let after = client::after_connect(c, config@);
    if c.writing {
        assert(after.outbox.drop_last() =~= c.outbox);
    }
}

/// The answer to CONNECT: accepted when CONNACK says so, refused with its code,
/// and an error when another packet, an error or nothing has come.
pub proof fn answers_to_connect(k: ConnackView, p: PacketView, e: MqttError)
    requires
        !(p is Connack),
    ensures
        client::connack_result(ReadView::Packet(PacketView::Connack(k))) == (if k.return_code
            == ConnackReturnCode::Accepted {
            Ok::<(), MqttError>(())
        } else {
            Err(MqttError::Protocol(Violation::ConnectionRefused(k.return_code)))
        }),
        client::connack_result(ReadView::Packet(p)) == Err::<(), MqttError>(
            MqttError::Protocol(Violation::ExpectedConnack),
        ),
        client::connack_result(ReadView::Failed(e)) == Err::<(), MqttError>(e),
        client::connack_result(ReadView::TimedOut) == Err::<(), MqttError>(
            MqttError::Timeout(TimeoutKind::Connack),
        ),
{
}

/// The first packet of a connection has to be CONNECT.
pub proof fn connections_begin_with_connect(c: ConnectView, p: PacketView, e: MqttError)
    requires
        !(p is Connect),
    ensures
        server::connect_read(ReadView::Packet(PacketView::Connect(c))) == Ok::<
            ConnectView,
            MqttError,
        >(c),
        server::connect_read(ReadView::Packet(p)) == Err::<ConnectView, MqttError>(
            MqttError::Protocol(Violation::ExpectedConnect),
        ),
        server::connect_read(ReadView::Failed(e)) == Err::<ConnectView, MqttError>(e),
        server::connect_read(ReadView::TimedOut) == Err::<ConnectView, MqttError>(
            MqttError::Timeout(TimeoutKind::ConnectReceive),
        ),
{
}

/// A client that is welcomed gets a record that says what its CONNECT says: its
/// connection, its `clean_session`, and its will with topic, payload, QoS and
/// RETAIN. The session of its connection is bound to its name and keep-alive.
/// Other sessions and connections stay, and nothing is sent.
pub proof fn welcoming_registers_the_client(
    b: BrokerView,
    connection: u64,
    c: ConnectView,
    other: Seq<char>,
    n: u64,
)
    requires
        n != connection,
        other != server::client_name(c.client_id, connection),
    ensures
        ({
            let after = server::welcomed(b, connection, c);
            let was = b.channels[connection];
            let now = after.channels[connection];
            let name = server::client_name(c.client_id, connection);
            let record = after.sessions[name];
            &&& after.sessions.contains_key(name)
            &&& record.channel == connection
            &&& record.clean_session == c.clean_session
            &&& c.will matches Some(w) ==> (record.will matches Some(v) && v.topic == w.topic
                && v.payload == w.payload && v.qos == w.qos && v.retain == w.retain)
            &&& c.will is None ==> record.will is None
            &&& after.sessions.contains_key(other) == b.sessions.contains_key(other)
            &&& b.sessions.contains_key(other) ==> after.sessions[other] == b.sessions[other]
            &&& after.channels.contains_key(connection) == b.channels.contains_key(connection)
            &&& b.channels.contains_key(connection) ==> {
                &&& was.session.bind is None ==> (now.session.bind matches Some(x) && x.client_id
                    == name && x.keep_alive == c.keep_alive)
                &&& was.session.bind is Some ==> now.session.bind == was.session.bind
                &&& now.session.pending_acks == was.session.pending_acks
                &&& now.session.qos2_recv == was.session.qos2_recv
                &&& now.session.outbound_inflight == was.session.outbound_inflight
                &&& now.session.pkt_counter == was.session.pkt_counter
                &&& now.outbox == was.outbox
                &&& now.open == was.open
                &&& now.writing == was.writing
                &&& now.version == was.version
            }
            &&& after.channels.contains_key(n) == b.channels.contains_key(n)
            &&& b.channels.contains_key(n) ==> after.channels[n] == b.channels[n]
            &&& !c.clean_session ==> after.subscriptions == b.subscriptions
        }),
{
}

/// A client goes by the name that it gives, and by one after its connection when
/// it gives none.
pub proof fn clients_are_named(name: Seq<char>, connection: u64)
    ensures
        name.len() > 0 ==> server::client_name(name, connection) == name,
        name.len() == 0 ==> server::client_name(name, connection) == "hotaru-auto-"@
            + text::decimal(connection as nat),
{
}

/// A CONNACK says what it is told to say.
pub proof fn connacks_say_what_they_are_told(present: bool, code: ConnackReturnCode)
    ensures
        server::connack(present, code) matches WriteView::Packet(PacketView::Connack(k))
            && k.session_present == present && k.return_code == code && k.properties
            == PropertiesView::empty(),
{
}

/// A server waits one and a half times the keep-alive, rounded down, where no
/// keep-alive counts as one second.
pub proof fn servers_wait_half_as_long_again(keep_alive: u16)
    ensures
        keep_alive == 0 ==> server::read_timeout(keep_alive) == 1,
        keep_alive > 0 ==> 2 * server::read_timeout(keep_alive) <= 3 * keep_alive < 2
            * server::read_timeout(keep_alive) + 2,
{
}

// ----------------------------------------------------------------------------
// Servers packet by packet
// ----------------------------------------------------------------------------

/// A SUBSCRIBE is answered with one SUBACK under its identifier, with one code
/// for each filter in its order: the level that was asked for where it is a topic
/// filter and the client has a session, a failure otherwise.
pub proof fn subscribes_are_answered(
    b: BrokerView,
    connection: u64,
    client: Seq<char>,
    s: SubscribeView,
    i: int,
    n: u64,
)
    requires
        b.channels.contains_key(connection),
        b.channels[connection].writing,
        0 <= i < s.subscriptions.len(),
        n != connection,
    ensures
        ({
            let after = server::after_inbound(b, connection, client, PacketView::Subscribe(s));
            let was = b.channels[connection];
            let now = after.channels[connection];
            let (filter, qos) = s.subscriptions[i];
            &&& now.outbox.len() == was.outbox.len() + 1
            &&& now.outbox.drop_last() == was.outbox
            &&& now.session == was.session
            &&& now.outbox.last() matches WriteView::Packet(PacketView::Suback(a)) && {
                &&& a.packet_id == s.packet_id
                &&& a.return_codes.len() == s.subscriptions.len()
                &&& a.return_codes[i] == (if b.sessions.contains_key(client) && topic::refusal(
                    topic::filter_violation(filter),
                ) is Ok {
                    SubackCode::Granted(qos)
                } else {
                    SubackCode::Failure
                })
            }
            &&& after.channels.contains_key(n) == b.channels.contains_key(n)
            &&& b.channels.contains_key(n) ==> after.channels[n] == b.channels[n]
            &&& !b.sessions.contains_key(client) ==> after.subscriptions == b.subscriptions
                && after.sessions == b.sessions
            &&& b.sessions.contains_key(client) ==> after.subscriptions == broker::all_subscribed(
                b,
                client,
                s.subscriptions,
            ).subscriptions
            &&& server::inbound_result(b, connection, client, PacketView::Subscribe(s)) matches Ok(
                v,
            ) && v.fire is None && v.chain is None
        }),
{
    server::subscribing_keeps_connections(b, client, s.subscriptions);
    let now = server::after_inbound(
        b,
        connection,
        client,
        PacketView::Subscribe(s),
    ).channels[connection];
    assert(now.outbox.drop_last() =~= b.channels[connection].outbox);
}

/// An UNSUBSCRIBE is answered with one UNSUBACK under its identifier, with a code
/// 0 for each topic.
pub proof fn unsubscribes_are_answered(
    b: BrokerView,
    connection: u64,
    client: Seq<char>,
    u: UnsubscribeView,
    i: int,
    n: u64,
)
    requires
        b.channels.contains_key(connection),
        b.channels[connection].writing,
        0 <= i < u.topics.len(),
        n != connection,
    ensures
        ({
            let after = server::after_inbound(b, connection, client, PacketView::Unsubscribe(u));
            let was = b.channels[connection];
            let now = after.channels[connection];
            &&& now.outbox.len() == was.outbox.len() + 1
            &&& now.outbox.drop_last() == was.outbox
            &&& now.session == was.session
            &&& now.outbox.last() matches WriteView::Packet(PacketView::Unsuback(a)) && {
                &&& a.packet_id == u.packet_id
                &&& a.reason_codes.len() == u.topics.len()
                &&& a.reason_codes[i] == 0
            }
            &&& after.channels.contains_key(n) == b.channels.contains_key(n)
            &&& b.channels.contains_key(n) ==> after.channels[n] == b.channels[n]
            &&& !b.sessions.contains_key(client) ==> after.subscriptions == b.subscriptions
                && after.sessions == b.sessions
            &&& b.sessions.contains_key(client) ==> after.subscriptions == broker::all_unsubscribed(
                b,
                client,
                u.topics,
            ).subscriptions
            &&& server::inbound_result(
                b,
                connection,
                client,
                PacketView::Unsubscribe(u),
            ) matches Ok(v) && v.fire is None && v.chain is None
        }),
{
    server::unsubscribing_keeps_connections(b, client, u.topics);
    let now = server::after_inbound(
        b,
        connection,
        client,
        PacketView::Unsubscribe(u),
    ).channels[connection];
    assert(now.outbox.drop_last() =~= b.channels[connection].outbox);
}

/// PINGREQ is answered with PINGRESP, PUBREC with PUBREL under its identifier;
/// neither leaves anything to do or changes anything else.
pub proof fn servers_answer_pings_and_pubrecs(
    b: BrokerView,
    connection: u64,
    client: Seq<char>,
    id: PacketId,
)
    requires
        b.channels.contains_key(connection),
        b.channels[connection].writing,
    ensures
        ({
            let was = b.channels[connection];
            let pinged = server::after_inbound(b, connection, client, PacketView::Pingreq);
            let received = server::after_inbound(b, connection, client, PacketView::Pubrec(id));
            &&& pinged.channels == b.channels.insert(
                connection,
                (ChannelView {
                    outbox: was.outbox.push(WriteView::Packet(PacketView::Pingresp)),
                    ..was
                }),
            )
            &&& received.channels == b.channels.insert(
                connection,
                (ChannelView {
                    outbox: was.outbox.push(WriteView::Packet(PacketView::Pubrel(id))),
                    ..was
                }),
            )
            &&& pinged.sessions == b.sessions && pinged.subscriptions == b.subscriptions
            &&& received.sessions == b.sessions && received.subscriptions == b.subscriptions
            &&& server::inbound_result(b, connection, client, PacketView::Pingreq) matches Ok(v)
                && v.fire is None && v.chain is None
            &&& server::inbound_result(b, connection, client, PacketView::Pubrec(id)) matches Ok(v)
                && v.fire is None && v.chain is None
        }),
{
}

/// An inbound publish at QoS 0 or 1 goes to the endpoints as it is, with no
/// PUBCOMP to come; at QoS 2 it waits for PUBREL. It changes no session, no
/// subscription and no other connection.
pub proof fn servers_hand_publishes_on(
    b: BrokerView,
    connection: u64,
    client: Seq<char>,
    p: PublishView,
    n: u64,
)
    requires
        b.channels.contains_key(connection),
        b.channels[connection].writing,
        n != connection,
    ensures
        ({
            let after = server::after_inbound(b, connection, client, PacketView::Publish(p));
            let got = server::inbound_result(b, connection, client, PacketView::Publish(p));
            &&& got matches Ok(v) && v.fire is None && (if p.qos == QoS::ExactlyOnce {
                v.chain is None
            } else {
                v.chain == Some((p, None::<PacketId>))
            })
            &&& after.channels[connection] == inbound::acknowledged(b.channels[connection], p)
            &&& after.channels.contains_key(n) == b.channels.contains_key(n)
            &&& b.channels.contains_key(n) ==> after.channels[n] == b.channels[n]
            &&& after.sessions == b.sessions
            &&& after.subscriptions == b.subscriptions
        }),
{
}

/// PUBREL brings the kept publish to the endpoints, field by field as it came but
/// without DUP, and PUBCOMP is due under its identifier. A PUBREL for which
/// nothing is kept is answered with PUBCOMP at once.
pub proof fn servers_release_publishes(
    b: BrokerView,
    connection: u64,
    client: Seq<char>,
    id: PacketId,
    other: PacketId,
)
    requires
        b.channels.contains_key(connection),
        other != id,
    ensures
        ({
            let was = b.channels[connection];
            let kept = was.session.qos2_recv;
            let after = server::after_inbound(b, connection, client, PacketView::Pubrel(id));
            let now = after.channels[connection];
            let got = server::inbound_result(b, connection, client, PacketView::Pubrel(id));
            &&& after.sessions == b.sessions
            &&& after.subscriptions == b.subscriptions
            &&& kept.contains_key(id) ==> {
                &&& got matches Ok(v) && v.fire is None && (v.chain matches Some((p, due)) && {
                    &&& due == Some(id)
                    &&& p.topic == kept[id].topic
                    &&& p.payload == kept[id].payload
                    &&& p.qos == kept[id].qos
                    &&& p.retain == kept[id].retain
                    &&& p.properties == kept[id].properties
                    &&& !p.dup
                    &&& p.packet_id == Some(id)
                })
                &&& !now.session.qos2_recv.contains_key(id)
                &&& now.session.qos2_recv.contains_key(other) == kept.contains_key(other)
                &&& kept.contains_key(other) ==> now.session.qos2_recv[other] == kept[other]
                &&& now.outbox == was.outbox
                &&& now.session.pending_acks == was.session.pending_acks
                &&& now.session.outbound_inflight == was.session.outbound_inflight
            }
            &&& !kept.contains_key(id) && !was.writing ==> {
                &&& got == Err::<server::ServerEffectView, MqttError>(MqttError::ChannelClosed)
                &&& now == was
            }
            &&& !kept.contains_key(id) && was.writing ==> {
                &&& got matches Ok(v) && v.fire is None && v.chain is None
                &&& now.session == was.session
                &&& now.outbox == was.outbox.push(WriteView::Packet(PacketView::Pubcomp(id)))
            }
        }),
{
}

/// PUBACK and PUBCOMP drop what is kept for the client under their identifier,
/// and tell a server-side operation that waits there for PUBACK. They send
/// nothing.
pub proof fn servers_take_acknowledgements(
    b: BrokerView,
    connection: u64,
    client: Seq<char>,
    n: u64,
    id: PacketId,
    other: PacketId,
    m: u64,
)
    requires
        b.sessions.contains_key(client),
        b.sessions[client].channel == n,
        b.channels.contains_key(n),
        other != id,
        m != n,
    ensures
        ({
            let was = b.channels[n];
            let after = server::after_inbound(b, connection, client, PacketView::Puback(id));
            let now = after.channels[n];
            &&& after == server::after_inbound(b, connection, client, PacketView::Pubcomp(id))
            &&& !now.session.outbound_inflight.contains_key(id)
            &&& !now.session.pending_acks.contains_key(id)
            &&& now.session.outbound_inflight.contains_key(other)
                == was.session.outbound_inflight.contains_key(other)
            &&& was.session.outbound_inflight.contains_key(other)
                ==> now.session.outbound_inflight[other] == was.session.outbound_inflight[other]
            &&& inbound::slot_of(now, other) == inbound::slot_of(was, other)
            &&& now.session.qos2_recv == was.session.qos2_recv
            &&& now.session.pkt_counter == was.session.pkt_counter
            &&& now.outbox == was.outbox
            &&& after.sessions == b.sessions
            &&& after.subscriptions == b.subscriptions
            &&& after.channels.contains_key(m) == b.channels.contains_key(m)
            &&& b.channels.contains_key(m) ==> after.channels[m] == b.channels[m]
            &&& server::inbound_result(b, connection, client, PacketView::Pubcomp(id))
                == server::inbound_result(b, connection, client, PacketView::Puback(id))
            &&& server::inbound_result(b, connection, client, PacketView::Puback(id)) matches Ok(v)
                && v.chain is None && v.fire == (match inbound::slot_of(was, id) {
                Some(AckSlot::Puback(tx)) => Some(Delivery::Id(tx, id)),
                _ => None,
            })
        }),
{
}

/// What a client has no business sending changes nothing and leaves nothing to
/// do.
pub proof fn servers_ignore_the_rest(
    b: BrokerView,
    connection: u64,
    client: Seq<char>,
    p: PacketView,
)
    requires
        p is Connack || p is Suback || p is Unsuback || p is Pingresp || p is Disconnect,
    ensures
        server::after_inbound(b, connection, client, p) == b,
        server::inbound_result(b, connection, client, p) matches Ok(v) && v.fire is None
            && v.chain is None,
{
}

/// Where an answer cannot be sent, the packet that asks for it is an error.
pub proof fn servers_need_a_writer(
    b: BrokerView,
    connection: u64,
    client: Seq<char>,
    p: PacketView,
)
    requires
        !b.channels.contains_key(connection) || !b.channels[connection].writing,
        p is Subscribe || p is Unsubscribe || p is Pingreq || p is Pubrec || (
        p matches PacketView::Publish(q) && q.qos != QoS::AtMostOnce && q.packet_id is Some),
    ensures
        server::inbound_result(b, connection, client, p) == Err::<
            server::ServerEffectView,
            MqttError,
        >(MqttError::ChannelClosed),
{
}

/// How a wait for a packet turns out: DISCONNECT is a goodbye; a shutdown, a
/// keep-alive that has run out and a wire that is gone end the connection
/// without one; other errors fail; other packets are taken in.
pub proof fn connections_end(p: Packet, e: MqttError, io: std::io::Error)
    requires
        !(e is Io),
        !(p is Disconnect),
    ensures
        server::wait_of(server::ServerEvent::Shutdown) == server::Wait::End(false),
        server::wait_of(server::ServerEvent::Read(ReadOutcome::TimedOut)) == server::Wait::End(
            false,
        ),
        server::wait_of(
            server::ServerEvent::Read(ReadOutcome::Failed(MqttError::Io(io))),
        ) == server::Wait::End(false),
        server::wait_of(server::ServerEvent::Read(ReadOutcome::Failed(e))) == server::Wait::Fail(e),
        server::wait_of(
            server::ServerEvent::Read(ReadOutcome::Packet(Packet::Disconnect)),
        ) == server::Wait::End(true),
        server::wait_of(server::ServerEvent::Read(ReadOutcome::Packet(p))) == server::Wait::Take(
            p@,
        ),
{
}

/// After the endpoints, the publish goes to the subscribers as the endpoints left
/// it, with its client as the source, before the PUBCOMP that is due is sent
/// under its identifier.
pub proof fn chains_publish_then_complete(
    before: BrokerView,
    after: BrokerView,
    connection: u64,
    client: Seq<char>,
    id: PacketId,
    p: PublishView,
    r: Result<(), MqttError>,
)
    requires
        before.channels.contains_key(connection),
        before.channels[connection].writing,
        server::chain_taken_in(before, after, connection, client, Some(id), Some(p), r),
    ensures
        r is Ok,
        after.channels.contains_key(connection),
        after.channels[connection].outbox.len() > 0,
        after.channels[connection].outbox.last() == WriteView::Packet(PacketView::Pubcomp(id)),
        exists|mid: BrokerView| #[trigger]
            broker::published(before, mid, client, p) && after.sessions == mid.sessions
                && after.subscriptions == mid.subscriptions && after.channels
                == mid.channels.insert(
                connection,
                (ChannelView {
                    outbox: mid.channels[connection].outbox.push(
                        WriteView::Packet(PacketView::Pubcomp(id)),
                    ),
                    ..mid.channels[connection]
                }),
            ),
{
    let mid = choose|mid: BrokerView| #[trigger]
        server::chain_left(before, mid, client, Some(p)) && after == mid.sent(
            connection,
            WriteView::Packet(PacketView::Pubcomp(id)),
        ) && r == server::send_outcome(mid, connection);
    assert(server::chain_left(before, mid, client, Some(p)));
    fanout::publishing_only_delivers(before, mid, client, p);
    assert(mid.channels.dom().contains(connection));
    assert(mid.channels.contains_key(connection));
    assert(broker::published(before, mid, client, p));
}

/// A publish that the endpoints kept back goes to nobody, and without a PUBCOMP
/// that is due nothing is sent.
pub proof fn chains_can_keep_back(
    before: BrokerView,
    after: BrokerView,
    connection: u64,
    client: Seq<char>,
    p: PublishView,
    r: Result<(), MqttError>,
)
    ensures
        server::chain_taken_in(before, after, connection, client, None, None, r) ==> after == before
            && r is Ok,
        server::chain_taken_in(before, after, connection, client, None, Some(p), r)
            ==> broker::published(before, after, client, p) && r is Ok,
{
    if server::chain_taken_in(before, after, connection, client, None, None, r) {
        let mid = choose|mid: BrokerView| #[trigger]
            server::chain_left(before, mid, client, None) && after == mid && r == Ok::<
                (),
                MqttError,
            >(());
        assert(mid == before);
    }
    if server::chain_taken_in(before, after, connection, client, None, Some(p), r) {
        let mid = choose|mid: BrokerView| #[trigger]
            server::chain_left(before, mid, client, Some(p)) && after == mid && r == Ok::<
                (),
                MqttError,
            >(());
        assert(broker::published(before, mid, client, p));
    }
}

// ----------------------------------------------------------------------------
// Clients packet by packet
// ----------------------------------------------------------------------------

/// What a client does with a publish: it acknowledges it, and hands it to the
/// endpoints as it is at QoS 0 and 1.
pub proof fn clients_hand_publishes_on(c: ChannelView, p: PublishView)
    requires
        c.writing,
    ensures
        client::after_inbound(c, PacketView::Publish(p)) == inbound::acknowledged(c, p),
        p.qos != QoS::ExactlyOnce ==> client::inbound_deliver(c, PacketView::Publish(p)) == Some(p),
        client::inbound_outcome(c, PacketView::Publish(p)) == Ok::<bool, MqttError>(false),
{
}

/// What a client does with PUBREL: the kept publish goes to the endpoints as it
/// came, and PUBCOMP goes out under its identifier in any case.
pub proof fn clients_release_publishes(c: ChannelView, id: PacketId, other: PacketId)
    requires
        other != id,
    ensures
        ({
            let kept = c.session.qos2_recv;
            let after = client::after_inbound(c, PacketView::Pubrel(id));
            &&& c.writing ==> after.outbox == c.outbox.push(
                WriteView::Packet(PacketView::Pubcomp(id)),
            )
            &&& !c.writing ==> after.outbox == c.outbox
            &&& !after.session.qos2_recv.contains_key(id)
            &&& after.session.qos2_recv.contains_key(other) == kept.contains_key(other)
            &&& kept.contains_key(other) ==> after.session.qos2_recv[other] == kept[other]
            &&& after.session.pending_acks == c.session.pending_acks
            &&& after.session.outbound_inflight == c.session.outbound_inflight
            &&& kept.contains_key(id) ==> client::inbound_deliver(c, PacketView::Pubrel(id))
                == Some(kept[id])
            &&& !kept.contains_key(id) ==> client::inbound_deliver(
                c,
                PacketView::Pubrel(id),
            ) is None
            &&& c.writing ==> client::inbound_outcome(c, PacketView::Pubrel(id)) == Ok::<bool, MqttError>(false)
        }),
{
}

/// What a client does with acknowledgements: the slot under the identifier is
/// taken out and nothing else changes, but that PUBACK and PUBCOMP also drop a
/// kept publish, and PUBREC is answered with PUBREL.
pub proof fn clients_take_acknowledgements(
    c: ChannelView,
    id: PacketId,
    other: PacketId,
    s: SubackView,
    u: UnsubackView,
)
    requires
        other != id,
        s.packet_id == id,
        u.packet_id == id,
    ensures
        ({
            let acked = client::after_inbound(c, PacketView::Puback(id));
            let received = client::after_inbound(c, PacketView::Pubrec(id));
            let listed = client::after_inbound(c, PacketView::Suback(s));
            &&& client::after_inbound(c, PacketView::Pubcomp(id)) == acked
            &&& client::after_inbound(c, PacketView::Unsuback(u)) == listed
            &&& !acked.session.pending_acks.contains_key(id)
            &&& !acked.session.outbound_inflight.contains_key(id)
            &&& acked.session.outbound_inflight.contains_key(other)
                == c.session.outbound_inflight.contains_key(other)
            &&& inbound::slot_of(acked, other) == inbound::slot_of(c, other)
            &&& acked.outbox == c.outbox
            &&& acked.session.qos2_recv == c.session.qos2_recv
            &&& !received.session.pending_acks.contains_key(id)
            &&& inbound::slot_of(received, other) == inbound::slot_of(c, other)
            &&& c.writing ==> received.outbox == c.outbox.push(
                WriteView::Packet(PacketView::Pubrel(id)),
            )
            &&& !c.writing ==> received.outbox == c.outbox
            &&& received.session.outbound_inflight == c.session.outbound_inflight
            &&& received.session.qos2_recv == c.session.qos2_recv
            &&& !listed.session.pending_acks.contains_key(id)
            &&& inbound::slot_of(listed, other) == inbound::slot_of(c, other)
            &&& listed.outbox == c.outbox
            &&& listed.session.outbound_inflight == c.session.outbound_inflight
            &&& listed.session.qos2_recv == c.session.qos2_recv
        }),
{
}

/// A client ends with DISCONNECT, goes on after every other packet, and ignores
/// what a server has no business sending.
pub proof fn clients_ignore_the_rest(c: ChannelView, p: PacketView)
    requires
        c.writing,
    ensures
        client::inbound_outcome(c, PacketView::Disconnect) == Ok::<bool, MqttError>(true),
        !(p is Disconnect) ==> client::inbound_outcome(c, p) == Ok::<bool, MqttError>(false),
        p is Connect || p is Connack || p is Subscribe || p is Unsubscribe || p is Pingreq
            || p is Pingresp || p is Disconnect ==> client::after_inbound(c, p) == c
            && client::inbound_deliver(c, p) is None,
{
}

/// Where PUBACK, PUBREC, PUBREL or PUBCOMP cannot be sent, a client fails, but
/// what PUBREL releases still reaches the endpoints. Packets that ask for no
/// answer make no difference.
pub proof fn clients_need_a_writer(c: ChannelView, p: PublishView, q: PacketView, id: PacketId)
    requires
        !c.writing,
    ensures
        p.qos != QoS::AtMostOnce && p.packet_id is Some ==> client::inbound_outcome(
            c,
            PacketView::Publish(p),
        ) == Err::<bool, MqttError>(MqttError::ChannelClosed) && client::inbound_deliver(
            c,
            PacketView::Publish(p),
        ) is None,
        q is Puback || q is Pubcomp || q is Suback || q is Unsuback || q is Connect || q is Connack
            || q is Subscribe || q is Unsubscribe || q is Pingreq || q is Pingresp
            ==> client::inbound_outcome(c, q) == Ok::<bool, MqttError>(false),
        client::inbound_outcome(c, PacketView::Disconnect) == Ok::<bool, MqttError>(true),
        client::inbound_outcome(c, PacketView::Pubrec(id)) == Err::<bool, MqttError>(
            MqttError::ChannelClosed,
        ),
        client::inbound_outcome(c, PacketView::Pubrel(id)) == Err::<bool, MqttError>(
            MqttError::ChannelClosed,
        ),
        c.session.qos2_recv.contains_key(id) ==> client::inbound_deliver(
            c,
            PacketView::Pubrel(id),
        ) == Some(c.session.qos2_recv[id]),
{
}

/// The view of what is left to do holds the publish and the PUBCOMP that is due.
pub proof fn views_hold_the_work(e: server::ServerEffect)
    ensures
        e@.fire == e.fire,
        e.chain matches Some(job) ==> e@.chain == Some((job.publish@, job.pubcomp)),
        e.chain is None ==> e@.chain is None,
{
}

/// What it is to return what the model says: the same work, or the same error.
pub proof fn returning_is_exact(
    v: server::ServerEffectView,
    e: MqttError,
    got: Result<server::ServerEffect, MqttError>,
)
    ensures
        server::returns_effect(Ok(v), got) ==> (got matches Ok(w) && w@.fire == v.fire && w@.chain
            == v.chain),
        server::returns_effect(Err(e), got) ==> got == Err::<server::ServerEffect, MqttError>(e),
{
}

/// The views of what has been read and of what endpoints have done hold all of
/// it.
pub proof fn views_hold_the_outcomes(
    p: Packet,
    e: MqttError,
    fanout: bool,
    i: crate::request::IncomingPublish,
    q: crate::packet::PublishPacket,
)
    ensures
        ReadOutcome::Packet(p)@ == ReadView::Packet(p@),
        ReadOutcome::Failed(e)@ == ReadView::Failed(e),
        ReadOutcome::TimedOut@ == ReadView::TimedOut,
        inbound::ChainOutcome::Failed@ == inbound::ChainOutcomeView::Failed,
        (inbound::ChainOutcome::Finished { fanout, incoming: Some(i) })@ == (
        inbound::ChainOutcomeView::Finished { fanout, incoming: Some(i@) }),
        (inbound::ChainOutcome::Finished { fanout, incoming: None })@ == (
        inbound::ChainOutcomeView::Finished { fanout, incoming: None }),
        server::opt_publish(Some(q)) == Some(q@),
        server::opt_publish(None) is None,
        client::opt_incoming(Some(i)) == Some(i@),
        client::opt_incoming(None) is None,
{
}

/// What happens to one connection happens to that one, where the broker has it.
pub proof fn connections_change_alone(b: BrokerView, connection: u64, c: ChannelView, n: u64)
    requires
        n != connection,
    ensures
        ({
            let after = server::on_connection(b, connection, c);
            &&& b.channels.contains_key(connection) ==> after.channels.contains_key(connection)
                && after.channels[connection] == c
            &&& !b.channels.contains_key(connection) ==> after == b
            &&& after.channels.contains_key(n) == b.channels.contains_key(n)
            &&& b.channels.contains_key(n) ==> after.channels[n] == b.channels[n]
            &&& after.sessions == b.sessions
            &&& after.subscriptions == b.subscriptions
            &&& server::send_outcome(b, connection) == (if b.channels.contains_key(connection)
                && b.channels[connection].writing {
                Ok::<(), MqttError>(())
            } else {
                Err(MqttError::ChannelClosed)
            })
        }),
{
}

/// An acknowledgement from a client without a record, or whose connection is not
/// there, changes nothing.
pub proof fn strangers_acknowledge_nothing(
    b: BrokerView,
    connection: u64,
    client: Seq<char>,
    id: PacketId,
)
    requires
        !b.sessions.contains_key(client) || !b.channels.contains_key(b.sessions[client].channel),
    ensures
        server::after_inbound(b, connection, client, PacketView::Puback(id)) == b,
        server::after_inbound(b, connection, client, PacketView::Pubcomp(id)) == b,
        server::inbound_result(b, connection, client, PacketView::Puback(id)) matches Ok(v)
            && v.fire is None && v.chain is None,
        server::inbound_result(b, connection, client, PacketView::Pubcomp(id)) matches Ok(v)
            && v.fire is None && v.chain is None,
{
}

/// A session whose PUBCOMP cannot be sent is torn down without a goodbye;
/// otherwise a turn of the loop leaves what taking in the outcome leaves.
pub proof fn chains_end_as_they_go(
    before: BrokerView,
    after: BrokerView,
    connection: u64,
    client: Seq<char>,
    pubcomp: Option<PacketId>,
    p: Option<PublishView>,
    r: Result<(), MqttError>,
)
    requires
        server::chain_ended(before, after, connection, client, pubcomp, p, r),
    ensures
        r is Ok ==> server::chain_taken_in(before, after, connection, client, pubcomp, p, r),
        r is Err ==> !after.sessions.contains_key(client) && pubcomp is Some,
        r is Err ==> exists|mid: BrokerView| #[trigger]
            server::chain_taken_in(before, mid, connection, client, pubcomp, p, r)
                && broker::unregistered(mid, after, client, false),
{
    let mid = choose|mid: BrokerView| #[trigger]
        server::chain_taken_in(before, mid, connection, client, pubcomp, p, r) && (match r {
            Ok(_) => after == mid,
            Err(_) => broker::unregistered(mid, after, client, false),
        });
    assert(server::chain_taken_in(before, mid, connection, client, pubcomp, p, r));
    if r is Err {
        fanout::tearing_down_quietly(mid, after, client, false);
    }
}

/// SUBACK and UNSUBACK reach an operation that waits for them, with the codes of
/// the SUBACK, and nobody else; packets that acknowledge nothing reach nobody.
pub proof fn clients_tell_their_operations(
    c: ChannelView,
    s: crate::packet::SubackPacket,
    u: crate::packet::UnsubackPacket,
    p: Packet,
)
    ensures
        client::inbound_fire(c, Packet::Suback(s)) == (match inbound::slot_of(c, s.packet_id) {
            Some(AckSlot::Suback(tx)) => Some(Delivery::Codes(tx, s.return_codes)),
            _ => None,
        }),
        client::inbound_fire(c, Packet::Unsuback(u)) == (match inbound::slot_of(c, u.packet_id) {
            Some(AckSlot::Unsuback(tx)) => Some(Delivery::Done(tx)),
            _ => None,
        }),
        p is Connect || p is Connack || p is Publish || p is Pubrel || p is Subscribe
            || p is Unsubscribe || p is Pingreq || p is Pingresp || p is Disconnect
            ==> client::inbound_fire(c, p) is None,
{
}

/// PUBACK, PUBREC and PUBCOMP reach an operation that waits for them under their
/// identifier, and nobody else.
pub proof fn clients_tell_their_publishes(c: ChannelView, id: PacketId)
    ensures
        client::inbound_fire(c, Packet::Puback(id)) == (match inbound::slot_of(c, id) {
            Some(AckSlot::Puback(tx)) => Some(Delivery::Id(tx, id)),
            _ => None,
        }),
        client::inbound_fire(c, Packet::Pubrec(id)) == (match inbound::slot_of(c, id) {
            Some(AckSlot::Pubrec(tx)) => Some(Delivery::Id(tx, id)),
            _ => None,
        }),
        client::inbound_fire(c, Packet::Pubcomp(id)) == (match inbound::slot_of(c, id) {
            Some(AckSlot::Pubcomp(tx)) => Some(Delivery::Id(tx, id)),
            _ => None,
        }),
{
}

/// Subscribing and unsubscribing take effect whether or not the answer can be
/// sent, and touch no connection but the one that the answer goes to.
pub proof fn subscriptions_do_not_wait_for_the_answer(
    b: BrokerView,
    connection: u64,
    client: Seq<char>,
    s: SubscribeView,
    u: UnsubscribeView,
    n: u64,
)
    ensures
        ({
            let listed = server::after_inbound(b, connection, client, PacketView::Subscribe(s));
            let dropped = server::after_inbound(b, connection, client, PacketView::Unsubscribe(u));
            let known = b.sessions.contains_key(client);
            &&& known ==> listed.sessions == broker::all_subscribed(
                b,
                client,
                s.subscriptions,
            ).sessions && listed.subscriptions == broker::all_subscribed(
                b,
                client,
                s.subscriptions,
            ).subscriptions
            &&& known ==> dropped.sessions == broker::all_unsubscribed(b, client, u.topics).sessions
                && dropped.subscriptions == broker::all_unsubscribed(
                b,
                client,
                u.topics,
            ).subscriptions
            &&& !known ==> listed.sessions == b.sessions && listed.subscriptions == b.subscriptions
            &&& !known ==> dropped.sessions == b.sessions && dropped.subscriptions
                == b.subscriptions
            &&& listed.channels.contains_key(n) == b.channels.contains_key(n)
            &&& dropped.channels.contains_key(n) == b.channels.contains_key(n)
            &&& b.channels.contains_key(n) && (n != connection || !b.channels[n].writing)
                ==> listed.channels[n] == b.channels[n] && dropped.channels[n] == b.channels[n]
        }),
{
    server::subscribing_keeps_connections(b, client, s.subscriptions);
    server::unsubscribing_keeps_connections(b, client, u.topics);
}

/// A publish that asks for no acknowledgement is handed on whether or not
/// anything can be sent, on either side, and changes nothing.
pub proof fn unacknowledged_publishes_are_handed_on(
    b: BrokerView,
    connection: u64,
    client: Seq<char>,
    c: ChannelView,
    p: PublishView,
)
    requires
        p.qos == QoS::AtMostOnce || p.packet_id is None,
    ensures
        server::after_inbound(b, connection, client, PacketView::Publish(p)) == b,
        server::inbound_result(b, connection, client, PacketView::Publish(p)) matches Ok(v)
            && v.fire is None && v.chain == (if p.qos == QoS::ExactlyOnce {
            None
        } else {
            Some((p, None::<PacketId>))
        }),
        client::after_inbound(c, PacketView::Publish(p)) == c,
        client::inbound_deliver(c, PacketView::Publish(p)) == (if p.qos == QoS::ExactlyOnce {
            None
        } else {
            Some(p)
        }),
        client::inbound_outcome(c, PacketView::Publish(p)) == Ok::<bool, MqttError>(false),
{
    if b.channels.contains_key(connection) {
        assert(b.channels.insert(connection, b.channels[connection]) =~= b.channels);
    }
}

/// On a connection that is not there nothing is released and nothing can be
/// answered.
pub proof fn nothing_happens_without_a_connection(
    b: BrokerView,
    connection: u64,
    client: Seq<char>,
    id: PacketId,
)
    requires
        !b.channels.contains_key(connection),
    ensures
        server::after_inbound(b, connection, client, PacketView::Pubrel(id)) == b,
        server::inbound_result(b, connection, client, PacketView::Pubrel(id)) == Err::<
            server::ServerEffectView,
            MqttError,
        >(MqttError::ChannelClosed),
        server::after_inbound(b, connection, client, PacketView::Pubrec(id)) == b,
        server::after_inbound(b, connection, client, PacketView::Pingreq) == b,
{
}

} // verus!
