//! What calls promise, stated on what goes in and what comes out.
//!
//! Each law here takes the arguments and the result of a call and says what
//! holds between them, as far as the contract of the function gives it.

use std::sync::Arc;

use bytes::{Bytes, BytesMut};
use tokio::sync::oneshot;
use vstd::prelude::*;
use vstd::utf8::*;

use crate::broker::{AcceptAllAuthenticator, AuthResult, Broker, BrokerView};
use crate::buffers;
use crate::channel::{ConnectionCounter, MqttChannel, ProtocolRole, WriteCmd, WriteView};
use crate::client::MqttClientConfig;
use crate::codec::decode;
use crate::codec::encode;
use crate::codec::layout;
use crate::error::{CodecError, MqttError, TimeoutKind, Violation};
use crate::fanout;
use crate::packet::{
    ConnackReturnCode, ConnectPacket, Packet, PacketView, ProtocolVersion, PublishPacket,
    SubscribeView, UnsubackPacket, UnsubscribeView, WillView,
};
use crate::properties::PropertiesView;
use crate::protocol::client;
use crate::protocol::client::{ClientEvent, ClientTurn};
use crate::protocol::inbound;
use crate::protocol::inbound::{ChainOutcome, ReadOutcome, ServerChain};
use crate::protocol::laws;
use crate::protocol::outbound;
use crate::protocol::outbound::{AckOutcome, PublishProgress};
use crate::protocol::server;
use crate::protocol::{detect, MqttProtocol};
use crate::protocol::server::{ServerEffect, ServerEvent, ServerSession, ServerStep};
use crate::request::{
    Credentials, IncomingPublish, MqttResponse, PacketId, PublishAck, PublishRequest, QoS,
    SubackCode, TopicFilter, WillMessage,
};
use crate::session::{AckSlot, BindInfo, MqttSession, OnceLockBindInfo};
use crate::text;
use crate::topic;
use crate::wire;

verus! {

// ----------------------------------------------------------------------------
// The codec
// ----------------------------------------------------------------------------

/// Parsing a CONNECT body with a user name and a password gives the first of the
/// two fields as the user name and the second as the password.
#[verifier::rlimit(60)]
pub proof fn connect_is_parsed(
    body: &[u8],
    flags: u8,
    hi: u8,
    lo: u8,
    id: Seq<char>,
    user: Seq<char>,
    password: Seq<u8>,
    r: Result<Packet, MqttError>,
)
    requires
        call_ensures(decode::parse_connect, (body,), r),
        body@ == seq![0u8, 4u8, 0x4Du8, 0x51u8, 0x54u8, 0x54u8, 4u8, flags, hi, lo] + (
        wire::prefixed_text(id) + (wire::prefixed_text(user) + wire::prefixed(password))),
        (flags / 128) % 2 == 1,
        (flags / 64) % 2 == 1,
        (flags / 4) % 2 == 0,
        encode_utf8(id).len() <= 65535,
        encode_utf8(user).len() <= 65535,
        password.len() <= 65535,
    ensures
        r matches Ok(Packet::Connect(c)) && {
            &&& c.version == ProtocolVersion::V311
            &&& (*c.client_id)@ == id
            &&& c.clean_session == ((flags / 2) % 2 == 1)
            &&& c.keep_alive == hi * 256 + lo
            &&& c.username matches Some(u) && (*u)@ == user
            &&& c.password matches Some(p) && buffers::payload(p) == password
            &&& c.will is None
        },
{
    let none = Seq::<u8>::empty();
    let second = wire::prefixed(password);
    let rest = wire::prefixed_text(user) + second;
    layout::connect_is_read_field_by_field(
        ProtocolVersion::V311,
        flags,
        hi,
        lo,
        PropertiesView::empty(),
        none,
        id,
        PropertiesView::empty(),
        none,
        Seq::empty(),
        none,
        user,
        password,
        none,
    );
    encode_utf8_nothing();
    assert(second + none =~= second);
    assert(none + rest =~= rest);
    assert(none + (wire::prefixed_text(id) + rest) =~= wire::prefixed_text(id) + rest);
}

proof fn encode_utf8_nothing()
    ensures
        encode_utf8(Seq::<char>::empty()).len() == 0,
{
    reveal_with_fuel(encode_utf8, 2);
}

proof fn the_tail_stands_last(
    a: Seq<u8>,
    b: Seq<u8>,
    c: Seq<u8>,
    d: Seq<u8>,
    e: Seq<u8>,
    tail: Seq<u8>,
)
    ensures
        ({
            let all = a + (b + (c + (Seq::<u8>::empty() + (d + (e + tail)))));
            all.len() >= tail.len() && all.subrange(all.len() - tail.len(), all.len() as int)
                == tail
        }),
{
    let all = a + (b + (c + (Seq::<u8>::empty() + (d + (e + tail)))));
    let front = a + b + c + d + e;
    assert(all =~= front + tail);
    assert(all.subrange(front.len() as int, all.len() as int) =~= tail);
}

/// An encoded CONNECT with a user name and a password ends with the two, the user
/// name first.
pub proof fn connect_is_encoded(conn: &ConnectPacket, r: Result<Vec<u8>, MqttError>)
    requires
        call_ensures(encode::encode_connect, (conn,), r),
        conn.version == ProtocolVersion::V311,
        conn.username is Some,
        conn.password is Some,
    ensures
        ({
            let tail = wire::prefixed_text((*conn.username.unwrap())@) + wire::prefixed(
                buffers::payload(conn.password.unwrap()),
            );
            r matches Ok(v) && v@.len() >= tail.len() && v@.subrange(
                v@.len() - tail.len(),
                v@.len() as int,
            ) == tail
        }),
{
    let c = conn@;
    let tail = wire::prefixed_text((*conn.username.unwrap())@) + wire::prefixed(
        buffers::payload(conn.password.unwrap()),
    );
    let body = encode::connect_body(c).unwrap();
    the_tail_stands_last(
        seq![0x10u8],
        wire::vbi_bytes(body.len()),
        encode::connect_head(c),
        wire::prefixed_text(c.client_id),
        encode::will_bytes(c.version, c.will).unwrap(),
        tail,
    );
}

// ----------------------------------------------------------------------------
// Topics
// ----------------------------------------------------------------------------

/// A call for a filter that ends in `/+/#` behind a literal prefix says yes to
/// every topic that has the prefix and a further level.
pub proof fn wildcards_are_matched(
    filter: &str,
    segs: &[&str],
    p: Seq<char>,
    x: Seq<char>,
    rest: Seq<char>,
    r: bool,
)
    requires
        call_ensures(topic::filter_matches, (filter, segs), r),
        filter@ == p + seq!['/', '+', '/', '#'],
        topic::str_levels(segs@) == topic::levels(p + seq!['/'] + x + seq!['/'] + rest),
        !p.contains('+') && !p.contains('#'),
        !x.contains('/'),
    ensures
        r,
{
    topic::prefixes_with_wildcards_match(p, x, rest);
}

// ----------------------------------------------------------------------------
// The broker
// ----------------------------------------------------------------------------

/// Unsubscribing leaves every filter that is not listed with the subscribers
/// that it had, and leaves other clients alone.
pub proof fn unsubscribing_is_exact(
    broker: &mut Broker,
    client_id: &Arc<str>,
    topics: &[Arc<str>],
    f: Seq<char>,
    other: Seq<char>,
    qos: QoS,
    r: (),
)
    requires
        call_ensures(Broker::unsubscribe, (broker, client_id, topics), r),
        other != (**client_id)@,
    ensures
        final(broker)@.subscriptions.contains_key(f) == old(broker)@.subscriptions.contains_key(f),
        old(broker)@.subscriptions.contains_key(f) && (forall|i: int|
            0 <= i < topics@.len() ==> (*(#[trigger] topics@[i]))@ != f)
            ==> final(broker)@.subscriptions[f] == old(broker)@.subscriptions[f],
        old(broker)@.subscriptions.contains_key(f) ==> (
        final(broker)@.subscriptions[f].contains_pair(other, qos)
            <==> old(broker)@.subscriptions[f].contains_pair(other, qos)),
        final(broker)@.channels == old(broker)@.channels,
{
    let before = old(broker)@;
    let name = wire::text(*client_id);
    let views = crate::broker::topic_views(topics@);
    if before.sessions.contains_key(name) {
        fanout::unsubscribing_leaves_the_rest(before, name, views, f, other, qos);
        fanout::unsubscribing_leaves_the_session(before, name, views, f, other);
        if views.contains(f) {
            let i = choose|i: int| 0 <= i < views.len() && views[i] == f;
            assert((*topics@[i])@ == f);
        }
    }
}

/// Unsubscribing takes the client off every listed filter.
pub proof fn unsubscribing_takes_effect(
    broker: &mut Broker,
    client_id: &Arc<str>,
    topics: &[Arc<str>],
    i: int,
    r: (),
)
    requires
        call_ensures(Broker::unsubscribe, (broker, client_id, topics), r),
        old(broker)@.sessions.contains_key((**client_id)@),
        0 <= i < topics@.len(),
    ensures
        final(broker)@.subscriptions.contains_key((*topics@[i])@)
            ==> !final(broker)@.subscriptions[(*topics@[i])@].contains_key((**client_id)@),
{
    let name = wire::text(*client_id);
    let views = crate::broker::topic_views(topics@);
    fanout::unsubscribed_filters_are_gone(old(broker)@, name, views, i);
    assert(views[i] == (*topics@[i])@);
}

/// Subscribing grants each filter at the level that it asks for, if it is a topic
/// filter, and the client then holds it at that level.
pub proof fn subscribing_is_exact(
    broker: &mut Broker,
    client_id: &Arc<str>,
    filters: &[TopicFilter],
    i: int,
    r: Vec<SubackCode>,
)
    requires
        call_ensures(Broker::subscribe, (broker, client_id, filters), r),
        0 <= i < filters@.len(),
        forall|j: int|
            i < j < filters@.len() ==> (*(#[trigger] filters@[j]).filter)@
                != (*filters@[i].filter)@,
    ensures
        r@.len() == filters@.len(),
        ({
            let f = (*filters@[i].filter)@;
            let q = filters@[i].qos;
            let name = (**client_id)@;
            if !old(broker)@.sessions.contains_key(name) {
                r@[i] == SubackCode::Failure && final(broker)@ == old(broker)@
            } else if topic::refusal(topic::filter_violation(f)) is Ok {
                &&& r@[i] == SubackCode::Granted(q)
                &&& final(broker)@.subscriptions.contains_key(f)
                &&& final(broker)@.subscriptions[f].contains_pair(name, q)
            } else {
                r@[i] == SubackCode::Failure
            }
        }),
        final(broker)@.channels == old(broker)@.channels,
{
    let before = old(broker)@;
    let name = wire::text(*client_id);
    let views = crate::broker::filter_views(filters@);
    assert(views[i] == filters@[i]@);
    assert forall|j: int| i < j < views.len() implies (#[trigger] views[j]).0 != views[i].0 by {
        assert(views[j] == filters@[j]@);
        assert((*filters@[j].filter)@ != (*filters@[i].filter)@);
    }
    fanout::filters_are_granted_as_asked(before, name, views, i);
    server::subscribing_keeps_connections(before, name, views);
}

/// Every filter of a list gets a code of its own, also where the list repeats it.
pub proof fn every_filter_gets_its_code(
    broker: &mut Broker,
    client_id: &Arc<str>,
    filters: &[TopicFilter],
    i: int,
    r: Vec<SubackCode>,
)
    requires
        call_ensures(Broker::subscribe, (broker, client_id, filters), r),
        0 <= i < filters@.len(),
        old(broker)@.sessions.contains_key((**client_id)@),
    ensures
        r@.len() == filters@.len(),
        r@[i] == SubackCode::Granted(filters@[i].qos) || r@[i] == SubackCode::Failure,
        r@[i] == SubackCode::Failure <==> topic::refusal(
            topic::filter_violation((*filters@[i].filter)@),
        ) is Err,
{
}

/// Registering a client says whether an earlier session is taken up, and records
/// its connection and its will field by field.
pub proof fn registering_is_exact(
    broker: &mut Broker,
    client_id: Arc<str>,
    channel: u64,
    will: Option<WillMessage>,
    clean_session: bool,
    r: bool,
)
    requires
        call_ensures(
            Broker::register_session,
            (broker, client_id, channel, will, clean_session),
            r,
        ),
    ensures
        r == (!clean_session && old(broker)@.sessions.contains_key((*client_id)@)),
        final(broker)@.sessions.contains_key((*client_id)@),
        ({
            let record = final(broker)@.sessions[(*client_id)@];
            &&& record.channel == channel
            &&& record.clean_session == clean_session
            &&& will is None ==> record.will is None
            &&& will matches Some(w) ==> (record.will matches Some(v) && {
                &&& v.topic == (*w.topic)@
                &&& v.payload == buffers::payload(w.payload)
                &&& v.qos == w.qos
                &&& v.retain == w.retain
            })
        }),
        final(broker)@.channels == old(broker)@.channels,
        !clean_session ==> final(broker)@.subscriptions == old(broker)@.subscriptions,
{
}

/// Tearing a session down without a goodbye brings its will to a subscriber of
/// the will's topic, at the lower of the two levels.
pub proof fn tearing_down_is_exact(
    broker: &mut Broker,
    client_id: &str,
    w: WillView,
    filter: Seq<char>,
    subscriber: Seq<char>,
    sub_qos: QoS,
    n: u64,
    r: (),
)
    requires
        call_ensures(Broker::unregister_session, (broker, client_id, false), r),
        old(broker)@.sessions.contains_key(client_id@),
        old(broker)@.sessions[client_id@].will == Some(w),
        subscriber != client_id@,
        subscriber != ""@,
        topic::topic_matches(filter, w.topic),
        old(broker)@.subscriptions.contains_key(filter),
        old(broker)@.subscriptions[filter].contains_pair(subscriber, sub_qos),
        old(broker)@.sessions.contains_key(subscriber),
        old(broker)@.sessions[subscriber].channel == n,
        old(broker)@.channels.contains_key(n),
        old(broker)@.channels[n].writing,
    ensures
        !final(broker)@.sessions.contains_key(client_id@),
        exists|k: int|
            old(broker)@.channels[n].outbox.len() <= k < final(broker)@.channels[n].outbox.len()
                && ((#[trigger] final(broker)@.channels[n].outbox[k]) matches WriteView::Publish(d)
                && {
                &&& d.topic == w.topic
                &&& d.payload == w.payload
                &&& !d.retain
                &&& d.qos == (if w.qos == QoS::AtMostOnce || sub_qos == QoS::AtMostOnce {
                    QoS::AtMostOnce
                } else if w.qos == QoS::AtLeastOnce || sub_qos == QoS::AtLeastOnce {
                    QoS::AtLeastOnce
                } else {
                    QoS::ExactlyOnce
                })
                &&& d.qos != QoS::AtMostOnce ==> d.packet_id is Some
            }),
{
    fanout::tearing_down_quietly(old(broker)@, final(broker)@, client_id@, false);
    fanout::wills_are_delivered(
        old(broker)@,
        final(broker)@,
        client_id@,
        w,
        filter,
        subscriber,
        sub_qos,
        n,
    );
}

/// Publishing brings the message to every other client that subscribes to its
/// topic and can be reached, field by field.
pub proof fn publishing_is_exact(
    broker: &mut Broker,
    source: &str,
    packet: PublishPacket,
    filter: Seq<char>,
    subscriber: Seq<char>,
    sub_qos: QoS,
    n: u64,
    r: (),
)
    requires
        call_ensures(Broker::publish, (broker, source, packet), r),
        subscriber != source@,
        topic::topic_matches(filter, (*packet.topic)@),
        old(broker)@.subscriptions.contains_key(filter),
        old(broker)@.subscriptions[filter].contains_pair(subscriber, sub_qos),
        old(broker)@.sessions.contains_key(subscriber),
        old(broker)@.sessions[subscriber].channel == n,
        old(broker)@.channels.contains_key(n),
        old(broker)@.channels[n].writing,
    ensures
        final(broker)@.sessions == old(broker)@.sessions,
        final(broker)@.subscriptions == old(broker)@.subscriptions,
        exists|k: int|
            old(broker)@.channels[n].outbox.len() <= k < final(broker)@.channels[n].outbox.len()
                && ((#[trigger] final(broker)@.channels[n].outbox[k]) matches WriteView::Publish(d)
                && {
                &&& d.topic == (*packet.topic)@
                &&& d.payload == buffers::payload(packet.payload)
                &&& d.properties == packet.properties@
                &&& !d.dup
                &&& !d.retain
                &&& d.qos == (if packet.qos == QoS::AtMostOnce || sub_qos == QoS::AtMostOnce {
                    QoS::AtMostOnce
                } else if packet.qos == QoS::AtLeastOnce || sub_qos == QoS::AtLeastOnce {
                    QoS::AtLeastOnce
                } else {
                    QoS::ExactlyOnce
                })
            }),
{
    let p = packet@;
    assert(fanout::subscribes(old(broker)@.subscriptions, subscriber, p.topic, sub_qos));
    fanout::publishing_only_delivers(old(broker)@, final(broker)@, source@, p);
    fanout::publishing_delivers_the_message(
        old(broker)@,
        final(broker)@,
        source@,
        p,
        subscriber,
        sub_qos,
        n,
    );
}

/// Acknowledging hands out the slot of an operation that waits for PUBACK under
/// the identifier, and drops what is kept there, on the client's own connection.
pub proof fn acknowledging_is_exact(
    broker: &mut Broker,
    client_id: &str,
    id: PacketId,
    n: u64,
    r: Option<AckSlot>,
)
    requires
        call_ensures(Broker::ack_outbound, (broker, client_id, id), r),
        old(broker)@.sessions.contains_key(client_id@),
        old(broker)@.sessions[client_id@].channel == n,
        old(broker)@.channels.contains_key(n),
    ensures
        final(broker)@.channels.contains_key(n),
        !final(broker)@.channels[n].session.outbound_inflight.contains_key(id),
        !final(broker)@.channels[n].session.pending_acks.contains_key(id),
        final(broker)@.channels[n].outbox == old(broker)@.channels[n].outbox,
        final(broker)@.sessions == old(broker)@.sessions,
        final(broker)@.subscriptions == old(broker)@.subscriptions,
        r == (match inbound::slot_of(old(broker)@.channels[n], id) {
            Some(AckSlot::Puback(tx)) => Some(AckSlot::Puback(tx)),
            _ => None,
        }),
{
}

// ----------------------------------------------------------------------------
// Operations of a client
// ----------------------------------------------------------------------------

/// Starting a publish sends the request, field by field.
pub proof fn starting_a_publish_is_exact(
    channel: &mut MqttChannel,
    req: PublishRequest,
    tx: oneshot::Sender<PacketId>,
    r: Result<PublishProgress, MqttError>,
)
    requires
        call_ensures(outbound::send_publish, (channel, req, tx), r),
    ensures
        !old(channel)@.writing ==> r == Err::<PublishProgress, MqttError>(MqttError::ChannelClosed),
        old(channel)@.writing ==> {
            &&& final(channel)@.outbox.len() == old(channel)@.outbox.len() + 1
            &&& final(channel)@.outbox.last() matches WriteView::Publish(d) && {
                &&& d.topic == (*req.topic)@
                &&& d.payload == buffers::payload(req.payload)
                &&& d.qos == req.qos
                &&& d.retain == req.retain
                &&& !d.dup
                &&& match req.qos {
                    QoS::AtMostOnce => d.packet_id is None && r == Ok::<
                        PublishProgress,
                        MqttError,
                    >(PublishProgress::Sent),
                    QoS::AtLeastOnce => d.packet_id matches Some(id) && r == Ok::<
                        PublishProgress,
                        MqttError,
                    >(PublishProgress::AwaitPuback(id)),
                    QoS::ExactlyOnce => d.packet_id matches Some(id) && r == Ok::<
                        PublishProgress,
                        MqttError,
                    >(PublishProgress::AwaitPubrec(id)),
                }
            }
        },
{
    laws::publishing_sends_the_request(old(channel)@, req, tx, 0);
}

/// What a publish, a subscription and an unsubscription end with.
pub proof fn operations_end_with_what_came(
    a: &mut MqttChannel,
    b: &mut MqttChannel,
    c: &mut MqttChannel,
    d: &mut MqttChannel,
    id: PacketId,
    acked: PacketId,
    codes: Vec<SubackCode>,
    ra: Result<MqttResponse, MqttError>,
    rb: Result<MqttResponse, MqttError>,
    rc: Result<MqttResponse, MqttError>,
    rd: Result<MqttResponse, MqttError>,
)
    requires
        call_ensures(outbound::publish_acknowledged, (a, id, AckOutcome::Received(acked)), ra),
        call_ensures(outbound::publish_completed, (b, id, AckOutcome::Received(acked)), rb),
        call_ensures(outbound::subscribe_acknowledged, (c, id, AckOutcome::Received(codes)), rc),
        call_ensures(outbound::unsubscribe_acknowledged, (d, id, AckOutcome::Received(())), rd),
    ensures
        ra == Ok::<MqttResponse, MqttError>(
            MqttResponse::Published(PublishAck::Acknowledged(acked)),
        ),
        rb == Ok::<MqttResponse, MqttError>(MqttResponse::Published(PublishAck::Completed(acked))),
        rc == Ok::<MqttResponse, MqttError>(MqttResponse::Subscribed(codes)),
        rd == Ok::<MqttResponse, MqttError>(MqttResponse::Unsubscribed),
        final(a)@ == old(a)@,
        final(b)@ == old(b)@,
        final(c)@ == old(c)@,
        final(d)@ == old(d)@,
{
}

/// An operation whose time has run out fails with a timeout, and its slot is
/// taken back.
pub proof fn operations_time_out(
    a: &mut MqttChannel,
    c: &mut MqttChannel,
    id: PacketId,
    ra: Result<MqttResponse, MqttError>,
    rc: Result<MqttResponse, MqttError>,
)
    requires
        call_ensures(
            outbound::publish_acknowledged,
            (a, id, AckOutcome::<PacketId>::TimedOut),
            ra,
        ),
        call_ensures(
            outbound::subscribe_acknowledged,
            (c, id, AckOutcome::<Vec<SubackCode>>::TimedOut),
            rc,
        ),
    ensures
        ra == Err::<MqttResponse, MqttError>(MqttError::Timeout(TimeoutKind::Ack)),
        rc == Err::<MqttResponse, MqttError>(MqttError::Timeout(TimeoutKind::Ack)),
        !final(a)@.session.pending_acks.contains_key(id),
        !final(c)@.session.pending_acks.contains_key(id),
{
}

/// After PUBREC a QoS 2 publish waits for PUBCOMP under the same identifier.
pub proof fn publishes_wait_for_pubcomp(
    channel: &mut MqttChannel,
    id: PacketId,
    acked: PacketId,
    tx: oneshot::Sender<PacketId>,
    other: PacketId,
    r: Result<(), MqttError>,
)
    requires
        call_ensures(
            outbound::publish_received,
            (channel, id, AckOutcome::Received(acked), tx),
            r,
        ),
        other != id,
    ensures
        r is Ok,
        inbound::slot_of(final(channel)@, id) == Some(AckSlot::Pubcomp(tx)),
        inbound::slot_of(final(channel)@, other) == inbound::slot_of(old(channel)@, other),
        final(channel)@.outbox == old(channel)@.outbox,
{
}

// ----------------------------------------------------------------------------
// The loop of a client
// ----------------------------------------------------------------------------

/// A client pings once per keep-alive, and once a second when there is none.
pub proof fn pings_follow_the_keep_alive(config: &MqttClientConfig, r: u64)
    requires
        call_ensures(client::ping_interval_secs, (config,), r),
    ensures
        config.keep_alive_secs == 0 ==> r == 1,
        config.keep_alive_secs > 0 ==> r == config.keep_alive_secs,
{
}

/// What is no packet ends the loop or sends a ping: PINGREQ goes out when it is
/// due, and the loop ends when it cannot; a shutdown and a wire that is gone end
/// the loop; other errors fail.
pub proof fn client_events_are_taken_in(
    channel: &mut MqttChannel,
    event: ClientEvent,
    r: ClientTurn,
)
    requires
        call_ensures(client::on_event, (channel, event), r),
        !(event is Packet),
    ensures
        r.fire is None,
        r.deliver is None,
        event is PingDue && old(channel)@.writing ==> r.outcome == Ok::<bool, MqttError>(false)
            && final(channel)@.outbox == old(channel)@.outbox.push(
            WriteView::Packet(PacketView::Pingreq),
        ),
        event is PingDue && !old(channel)@.writing ==> r.outcome == Ok::<bool, MqttError>(true)
            && final(channel)@ == old(channel)@,
        event is Shutdown ==> r.outcome == Ok::<bool, MqttError>(true) && final(channel)@ == old(
            channel,
        )@,
        event matches ClientEvent::ReadFailed(e) ==> {
            &&& final(channel)@ == old(channel)@
            &&& e is Io ==> r.outcome == Ok::<bool, MqttError>(true)
            &&& !(e is Io) ==> r.outcome == Err::<bool, MqttError>(e)
        },
        final(channel)@.session == old(channel)@.session,
{
}

/// A client says goodbye after the loop.
pub proof fn clients_say_goodbye(channel: &mut MqttChannel, r: ())
    requires
        call_ensures(client::finish, (channel,), r),
        old(channel)@.writing,
    ensures
        final(channel)@.outbox == old(channel)@.outbox.push(
            WriteView::Packet(PacketView::Disconnect),
        ),
        final(channel)@.session == old(channel)@.session,
{
}

/// A CONNACK that accepts binds the session to the configured name and
/// keep-alive; anything else leaves the channel as it was.
pub proof fn connacks_bind_the_session(
    channel: &mut MqttChannel,
    config: &MqttClientConfig,
    read: ReadOutcome,
    r: Result<(), MqttError>,
)
    requires
        call_ensures(client::accept_connack, (channel, config, read), r),
        old(channel)@.session.bind is None,
    ensures
        r is Ok <==> (read matches ReadOutcome::Packet(Packet::Connack(k)) && k.return_code
            == ConnackReturnCode::Accepted),
        r is Ok ==> (final(channel)@.session.bind matches Some(b) && b.client_id == (
        *config.client_id)@ && b.keep_alive == config.keep_alive_secs),
        r is Err ==> final(channel)@ == old(channel)@,
        final(channel)@.outbox == old(channel)@.outbox,
{
}

/// The initial subscriptions go out as one SUBSCRIBE in their order, if there are
/// any.
pub proof fn initial_subscriptions_are_sent(
    channel: &mut MqttChannel,
    config: &MqttClientConfig,
    tx: oneshot::Sender<Vec<SubackCode>>,
    r: Result<Option<PacketId>, MqttError>,
)
    requires
        call_ensures(client::send_initial_subscriptions, (channel, config, tx), r),
        old(channel)@.writing,
    ensures
        config.initial_subscriptions@.len() == 0 ==> r == Ok::<Option<PacketId>, MqttError>(None)
            && final(channel)@ == old(channel)@,
        config.initial_subscriptions@.len() > 0 ==> {
            &&& final(channel)@.outbox.len() == old(channel)@.outbox.len() + 1
            &&& final(channel)@.outbox.last() matches WriteView::Packet(PacketView::Subscribe(s))
                && s.subscriptions == config@.initial_subscriptions && r == Ok::<
                Option<PacketId>,
                MqttError,
            >(Some(s.packet_id)) && inbound::slot_of(final(channel)@, s.packet_id) == Some(
                AckSlot::Suback(tx),
            )
        },
{
    laws::subscribing_sends_the_filters(
        old(channel)@,
        config@.initial_subscriptions,
        tx,
        0,
    );
}

/// What the answer to the initial subscriptions comes to.
pub proof fn initial_subacks_are_taken_in(
    outcome: AckOutcome<Vec<SubackCode>>,
    r: Result<(), MqttError>,
)
    requires
        call_ensures(client::accept_initial_suback, (outcome,), r),
    ensures
        outcome is Received ==> r is Ok,
        outcome is Dropped ==> r == Err::<(), MqttError>(MqttError::ChannelClosed),
        outcome is TimedOut ==> r == Err::<(), MqttError>(MqttError::Timeout(TimeoutKind::Ack)),
{
}

// ----------------------------------------------------------------------------
// The loop of a server
// ----------------------------------------------------------------------------

/// The first packet fixes the version of its connection when it is CONNECT, and
/// is an error otherwise.
pub proof fn first_packets_are_taken_in(
    broker: &mut Broker,
    connection: u64,
    read: ReadOutcome,
    r: Result<Box<ConnectPacket>, MqttError>,
)
    requires
        call_ensures(server::accept_connect, (broker, connection, read), r),
        old(broker)@.channels.contains_key(connection),
    ensures
        read matches ReadOutcome::Packet(Packet::Connect(c)) ==> (r matches Ok(got) && got@ == c@
            && final(broker)@.channels[connection].version == c.version
            && final(broker)@.channels[connection].outbox
            == old(broker)@.channels[connection].outbox
            && final(broker)@.channels[connection].session
            == old(broker)@.channels[connection].session),
        read matches ReadOutcome::Packet(p) ==> (p is Connect || (r == Err::<
            Box<ConnectPacket>,
            MqttError,
        >(MqttError::Protocol(Violation::ExpectedConnect)) && final(broker)@ == old(broker)@)),
        final(broker)@.sessions == old(broker)@.sessions,
        final(broker)@.subscriptions == old(broker)@.subscriptions,
{
}

/// A client that is refused is told the code and leaves nothing behind.
pub proof fn refusals_are_exact(
    broker: &mut Broker,
    connection: u64,
    connect: &ConnectPacket,
    auth: AuthResult,
    r: Result<ServerSession, MqttError>,
)
    requires
        call_ensures(server::answer_connect, (broker, connection, connect, auth), r),
        !auth.accepted,
        old(broker)@.channels.contains_key(connection),
        old(broker)@.channels[connection].writing,
    ensures
        r == Err::<ServerSession, MqttError>(
            MqttError::Protocol(Violation::ConnectionRefused(auth.return_code)),
        ),
        final(broker)@.channels[connection].outbox.last() matches WriteView::Packet(
            PacketView::Connack(k),
        ) && !k.session_present && k.return_code == auth.return_code,
        final(broker)@.channels[connection].outbox.len()
            == old(broker)@.channels[connection].outbox.len() + 1,
        final(broker)@.sessions == old(broker)@.sessions,
        final(broker)@.subscriptions == old(broker)@.subscriptions,
{
}

/// A client that is accepted gets a CONNACK that says so, and whether an earlier
/// session of it is taken up; its record has the will of its CONNECT.
pub proof fn welcomes_are_exact(
    broker: &mut Broker,
    connection: u64,
    connect: &ConnectPacket,
    auth: AuthResult,
    r: Result<ServerSession, MqttError>,
)
    requires
        call_ensures(server::answer_connect, (broker, connection, connect, auth), r),
        auth.accepted,
        (*connect.client_id)@.len() > 0,
        old(broker)@.channels.contains_key(connection),
        old(broker)@.channels[connection].writing,
    ensures
        r matches Ok(s) && s@.connection == connection && s@.client_id == (*connect.client_id)@
            && !s@.graceful && (connect.keep_alive == 0 ==> s@.read_timeout_secs == 1) && (
        connect.keep_alive > 0 ==> 2 * s@.read_timeout_secs <= 3 * connect.keep_alive < 2
            * s@.read_timeout_secs + 2),
        final(broker)@.channels[connection].outbox.last() matches WriteView::Packet(
            PacketView::Connack(k),
        ) && k.return_code == ConnackReturnCode::Accepted && k.session_present == (
        !connect.clean_session && old(broker)@.sessions.contains_key((*connect.client_id)@)),
        final(broker)@.channels[connection].outbox.len()
            == old(broker)@.channels[connection].outbox.len() + 1,
        final(broker)@.sessions.contains_key((*connect.client_id)@),
        ({
            let record = final(broker)@.sessions[(*connect.client_id)@];
            &&& record.channel == connection
            &&& record.clean_session == connect.clean_session
            &&& connect.will is None ==> record.will is None
            &&& connect.will matches Some(w) ==> (record.will matches Some(v) && v.topic == (
            *w.topic)@ && v.payload == buffers::payload(w.payload) && v.qos == w.qos && v.retain
                == w.retain)
        }),
{
    laws::servers_wait_half_as_long_again(connect.keep_alive);
}

/// A server goes on reading as long as the connection is open, within the time
/// that was set when the client was welcomed.
pub proof fn servers_read_while_open(s: &ServerSession, broker: &Broker, r: Option<u64>)
    requires
        call_ensures(ServerSession::next_read, (s, broker), r),
    ensures
        r is Some <==> broker@.channels.contains_key(s@.connection)
            && broker@.channels[s@.connection].open,
        r matches Some(t) ==> t == s@.read_timeout_secs,
{
}

/// What is no packet ends the connection, and so does DISCONNECT, which alone is
/// a goodbye; an error that is not of the wire tears the session down at once.
pub proof fn server_events_are_taken_in(
    s: &mut ServerSession,
    broker: &mut Broker,
    event: ServerEvent,
    r: Result<ServerStep, MqttError>,
)
    requires
        call_ensures(ServerSession::on_event, (s, broker, event), r),
    ensures
        event is Shutdown ==> (r matches Ok(ServerStep::Break) && final(s)@ == old(s)@
            && final(broker)@ == old(broker)@),
        event matches ServerEvent::Read(ReadOutcome::TimedOut) ==> (r matches Ok(ServerStep::Break)
            && final(s)@ == old(s)@ && final(broker)@ == old(broker)@),
        event matches ServerEvent::Read(ReadOutcome::Packet(Packet::Disconnect)) ==> (
        r matches Ok(ServerStep::Break) && final(s)@.graceful && final(broker)@ == old(broker)@),
        event matches ServerEvent::Read(ReadOutcome::Failed(e)) ==> (if e is Io {
            r matches Ok(ServerStep::Break) && final(broker)@ == old(broker)@
        } else {
            r == Err::<ServerStep, MqttError>(e) && !final(broker)@.sessions.contains_key(
                old(s)@.client_id,
            )
        }),
        final(s)@.client_id == old(s)@.client_id,
        final(s)@.connection == old(s)@.connection,
        final(s)@.read_timeout_secs == old(s)@.read_timeout_secs,
{
    if let ServerEvent::Read(ReadOutcome::Failed(e)) = event {
        if !(e is Io) {
            fanout::tearing_down_quietly(
                old(broker)@,
                final(broker)@,
                old(s)@.client_id,
                false,
            );
        }
    }
}

/// A session that ends after a goodbye brings its will to nobody, and is gone.
pub proof fn goodbyes_are_quiet(s: &ServerSession, broker: &mut Broker, r: ())
    requires
        call_ensures(ServerSession::finish, (s, broker), r),
        s@.graceful,
        old(broker)@.sessions.contains_key(s@.client_id),
    ensures
        !final(broker)@.sessions.contains_key(s@.client_id),
        final(broker)@.channels == old(broker)@.channels,
{
    fanout::tearing_down_quietly(old(broker)@, final(broker)@, s@.client_id, true);
}

// ----------------------------------------------------------------------------
// What the parts of a connection keep
// ----------------------------------------------------------------------------

/// A publish that is held under an identifier is handed back under it, once, and
/// what is held under others stays.
pub proof fn held_publishes_come_back(
    a: &mut MqttSession,
    b: &mut MqttSession,
    c: &mut MqttSession,
    id: PacketId,
    other: PacketId,
    publish: IncomingPublish,
    held: (),
    first: Option<IncomingPublish>,
    second: Option<IncomingPublish>,
)
    requires
        call_ensures(MqttSession::hold_inbound, (a, id, publish), held),
        *old(b) == *final(a),
        call_ensures(MqttSession::release_inbound, (b, id), first),
        *old(c) == *final(b),
        call_ensures(MqttSession::release_inbound, (c, id), second),
        other != id,
    ensures
        first matches Some(p) && p@ == publish@,
        second is None,
        final(c)@.qos2_recv.contains_key(other) == old(a)@.qos2_recv.contains_key(other),
        final(c)@.qos2_recv.contains_key(other) ==> final(c)@.qos2_recv[other]
            == old(a)@.qos2_recv[other],
        final(c)@.pending_acks == old(a)@.pending_acks,
        final(c)@.outbound_inflight == old(a)@.outbound_inflight,
        final(c)@.pkt_counter == old(a)@.pkt_counter,
        final(c)@.bind == old(a)@.bind,
{
}

/// A slot that waits under an identifier is handed out under it, once.
pub proof fn slots_come_back(
    a: &mut MqttSession,
    b: &mut MqttSession,
    c: &mut MqttSession,
    id: PacketId,
    other: PacketId,
    slot: AckSlot,
    waiting: (),
    first: Option<AckSlot>,
    second: Option<AckSlot>,
)
    requires
        call_ensures(MqttSession::await_ack, (a, id, slot), waiting),
        *old(b) == *final(a),
        call_ensures(MqttSession::take_ack, (b, id), first),
        *old(c) == *final(b),
        call_ensures(MqttSession::take_ack, (c, id), second),
        other != id,
    ensures
        first == Some(slot),
        second is None,
        final(c)@.pending_acks.contains_key(other) == old(a)@.pending_acks.contains_key(other),
        final(c)@.pending_acks.contains_key(other) ==> final(c)@.pending_acks[other]
            == old(a)@.pending_acks[other],
        final(c)@.qos2_recv == old(a)@.qos2_recv,
        final(c)@.outbound_inflight == old(a)@.outbound_inflight,
        final(c)@.pkt_counter == old(a)@.pkt_counter,
        final(c)@.bind == old(a)@.bind,
{
}

/// A packet that is kept under an identifier is handed back under it, once.
pub proof fn kept_packets_come_back(
    a: &mut MqttSession,
    b: &mut MqttSession,
    c: &mut MqttSession,
    id: PacketId,
    other: PacketId,
    packet: PublishPacket,
    kept: (),
    first: Option<PublishPacket>,
    second: Option<PublishPacket>,
)
    requires
        call_ensures(MqttSession::hold_outbound, (a, id, packet), kept),
        *old(b) == *final(a),
        call_ensures(MqttSession::release_outbound, (b, id), first),
        *old(c) == *final(b),
        call_ensures(MqttSession::release_outbound, (c, id), second),
        other != id,
    ensures
        first matches Some(p) && p@ == packet@,
        second is None,
        final(c)@.outbound_inflight.contains_key(other) == old(
            a,
        )@.outbound_inflight.contains_key(other),
        final(c)@.outbound_inflight.contains_key(other) ==> final(c)@.outbound_inflight[other]
            == old(a)@.outbound_inflight[other],
        final(c)@.qos2_recv == old(a)@.qos2_recv,
        final(c)@.pending_acks == old(a)@.pending_acks,
        final(c)@.pkt_counter == old(a)@.pkt_counter,
        final(c)@.bind == old(a)@.bind,
{
}

/// Two identifiers in a row differ, neither is zero, and the second is the first
/// plus one unless the numbers have run out.
pub proof fn identifiers_go_on(
    a: &mut MqttSession,
    b: &mut MqttSession,
    first: u16,
    second: u16,
)
    requires
        call_ensures(MqttSession::allocate_packet_id, (a,), first),
        *old(b) == *final(a),
        call_ensures(MqttSession::allocate_packet_id, (b,), second),
    ensures
        first != 0,
        second != 0,
        first < 65535 ==> second == first + 1,
        first == 65535 ==> second == 1,
        final(b)@.pending_acks == old(a)@.pending_acks,
        final(b)@.qos2_recv == old(a)@.qos2_recv,
        final(b)@.outbound_inflight == old(a)@.outbound_inflight,
        final(b)@.bind == old(a)@.bind,
{
}

/// A binding is set once: a second one is handed back and changes nothing.
pub proof fn bindings_are_set_once(
    a: &mut OnceLockBindInfo,
    b: &mut OnceLockBindInfo,
    info: BindInfo,
    later: BindInfo,
    first: Result<(), BindInfo>,
    second: Result<(), BindInfo>,
)
    requires
        old(a)@ is None,
        call_ensures(OnceLockBindInfo::set, (a, info), first),
        *old(b) == *final(a),
        call_ensures(OnceLockBindInfo::set, (b, later), second),
    ensures
        first is Ok,
        second == Err::<(), BindInfo>(later),
        final(b)@ matches Some(v) && v.client_id == (*info.client_id)@ && v.keep_alive
            == info.keep_alive,
{
}

/// Connections get numbers of their own, and start open, with nothing to write.
pub proof fn connections_start_afresh(
    a: &mut ConnectionCounter,
    b: &mut ConnectionCounter,
    role: ProtocolRole,
    first: MqttChannel,
    second: MqttChannel,
)
    requires
        call_ensures(MqttChannel::new, (a, role), first),
        *old(b) == *final(a),
        call_ensures(MqttChannel::new, (b, role), second),
    ensures
        first@.connection_id != second@.connection_id,
        first@.connection_id < u64::MAX ==> second@.connection_id == first@.connection_id + 1,
        first@.role == role,
        first@.open,
        first@.writing,
        first@.outbox.len() == 0,
        first@.version == ProtocolVersion::V311,
        first@.session.bind is None,
        first@.session.pkt_counter == 0,
{
}

/// Taking the outbox hands out every command in order and leaves none; a writer
/// that has stopped leaves the channel shut and unwritten.
pub proof fn outboxes_are_emptied(
    a: &mut MqttChannel,
    b: &mut MqttChannel,
    taken: Vec<WriteCmd>,
    stopped: (),
    i: int,
)
    requires
        call_ensures(MqttChannel::take_outbox, (a,), taken),
        call_ensures(MqttChannel::writer_stopped, (b,), stopped),
        0 <= i < taken@.len(),
    ensures
        taken@.len() == old(a)@.outbox.len(),
        taken@[i]@ == old(a)@.outbox[i],
        final(a)@.outbox.len() == 0,
        final(a)@.open == old(a)@.open,
        final(a)@.writing == old(a)@.writing,
        final(a)@.session == old(a)@.session,
        final(a)@.version == old(a)@.version,
        !final(b)@.open,
        !final(b)@.writing,
        final(b)@.outbox.len() == 0,
        final(b)@.session == old(b)@.session,
{
}

/// Closing a channel says whether it was open, so that it is closed once.
pub proof fn channels_close_once(
    a: &mut MqttChannel,
    b: &mut MqttChannel,
    first: bool,
    second: bool,
    open: bool,
)
    requires
        old(a)@.open,
        call_ensures(MqttChannel::close, (a,), first),
        *old(b) == *final(a),
        call_ensures(MqttChannel::close, (b,), second),
        call_ensures(MqttChannel::is_open, (&*final(b),), open),
    ensures
        first,
        !second,
        !open,
{
}

/// A broker starts with nothing; a connection that is attached can be taken out
/// again, and others stay.
pub proof fn connections_come_and_go(
    a: &mut Broker,
    b: &mut Broker,
    connection: u64,
    other: u64,
    channel: MqttChannel,
    attached: (),
    open: bool,
    taken: Option<MqttChannel>,
)
    requires
        call_ensures(Broker::attach, (a, connection, channel), attached),
        *old(b) == *final(a),
        call_ensures(Broker::is_open, (&*old(b), connection), open),
        call_ensures(Broker::detach, (b, connection), taken),
        other != connection,
    ensures
        open == channel@.open,
        taken matches Some(c) && c@ == channel@,
        !final(b)@.channels.contains_key(connection),
        final(b)@.channels.contains_key(other) == old(a)@.channels.contains_key(other),
        final(b)@.channels.contains_key(other) ==> final(b)@.channels[other]
            == old(a)@.channels[other],
        final(b)@.sessions == old(a)@.sessions,
        final(b)@.subscriptions == old(a)@.subscriptions,
{
}

/// A new broker knows nobody.
pub proof fn brokers_start_empty(r: Broker, name: Seq<char>, connection: u64)
    requires
        call_ensures(Broker::new, (), r),
    ensures
        !r@.sessions.contains_key(name),
        !r@.subscriptions.contains_key(name),
        !r@.channels.contains_key(connection),
{
}

// ----------------------------------------------------------------------------
// Making values
// ----------------------------------------------------------------------------

/// Accepting and refusing, and the authenticator that accepts everybody.
pub proof fn answers_of_authentication(
    connect: &ConnectPacket,
    everybody: &AcceptAllAuthenticator,
    code: ConnackReturnCode,
    yes: AuthResult,
    no: AuthResult,
    always: AuthResult,
)
    requires
        call_ensures(AuthResult::accept, (), yes),
        call_ensures(AuthResult::reject, (code,), no),
        call_ensures(AcceptAllAuthenticator::authenticate, (everybody, connect), always),
    ensures
        yes.accepted && yes.return_code == ConnackReturnCode::Accepted,
        !no.accepted && no.return_code == code,
        always.accepted && always.return_code == ConnackReturnCode::Accepted,
{
}

/// What a configuration starts with.
pub proof fn configurations_start_plain(client_id: &str, r: MqttClientConfig)
    requires
        call_ensures(MqttClientConfig::new, (client_id,), r),
    ensures
        (*r.client_id)@ == client_id@,
        r.protocol_version == ProtocolVersion::V311,
        r.clean_session,
        r.keep_alive_secs == 60,
        r.credentials is None,
        r.initial_subscriptions@.len() == 0,
        r.will is None,
{
    assert(r@.initial_subscriptions.len() == 0);
}

/// Each step of a configuration sets what it is named after and nothing else.
pub proof fn configurations_change_step_by_step(
    c: MqttClientConfig,
    version: ProtocolVersion,
    clean: bool,
    secs: u16,
    username: &str,
    password: Bytes,
    filter: &str,
    qos: QoS,
    will: WillMessage,
    a: MqttClientConfig,
    b: MqttClientConfig,
    d: MqttClientConfig,
    e: MqttClientConfig,
    f: MqttClientConfig,
    g: MqttClientConfig,
)
    requires
        call_ensures(MqttClientConfig::protocol_version, (c, version), a),
        call_ensures(MqttClientConfig::clean_session, (a, clean), b),
        call_ensures(MqttClientConfig::keep_alive, (b, secs), d),
        call_ensures(MqttClientConfig::with_credentials, (d, username, password), e),
        call_ensures(MqttClientConfig::with_initial_subscribe, (e, filter, qos), f),
        call_ensures(MqttClientConfig::with_will, (f, will), g),
    ensures
        g@.client_id == c@.client_id,
        g@.protocol_version == version,
        g@.clean_session == clean,
        g@.keep_alive_secs == secs,
        g@.connect_timeout == c@.connect_timeout,
        g@.credentials == Some((username@, buffers::payload(password))),
        g@.initial_subscriptions.len() == c@.initial_subscriptions.len() + 1,
        g@.initial_subscriptions.last() == (filter@, qos),
        g@.initial_subscriptions.drop_last() == c@.initial_subscriptions,
        g@.will matches Some(w) && w.topic == (*will.topic)@ && w.payload == buffers::payload(
            will.payload,
        ) && w.qos == will.qos && w.retain == will.retain,
{
}

/// Values are made of what they are given.
pub proof fn values_are_made_of_their_parts(
    text: &str,
    bytes: Bytes,
    qos: QoS,
    retain: bool,
    id: PacketId,
    p: PublishPacket,
    will: WillMessage,
    credentials: Credentials,
    filter: TopicFilter,
    named: PublishPacket,
    empty: UnsubackPacket,
    incoming: IncomingPublish,
)
    requires
        call_ensures(WillMessage::new, (text, bytes, qos, retain), will),
        call_ensures(Credentials::new, (text, bytes), credentials),
        call_ensures(TopicFilter::new, (text, qos), filter),
        call_ensures(PublishPacket::with_id, (p, id), named),
        call_ensures(UnsubackPacket::new, (id,), empty),
        call_ensures(crate::broker::incoming_from_packet, (&p,), incoming),
    ensures
        (*will.topic)@ == text@,
        buffers::payload(will.payload) == buffers::payload(bytes),
        will.qos == qos,
        will.retain == retain,
        (*credentials.username)@ == text@,
        buffers::payload(credentials.password) == buffers::payload(bytes),
        (*filter.filter)@ == text@,
        filter.qos == qos,
        named.packet_id == Some(id),
        (*named.topic)@ == (*p.topic)@,
        buffers::payload(named.payload) == buffers::payload(p.payload),
        named.qos == p.qos,
        named.retain == p.retain,
        named.dup == p.dup,
        empty.packet_id == id,
        empty.reason_codes@.len() == 0,
        (*incoming.topic)@ == (*p.topic)@,
        buffers::payload(incoming.payload) == buffers::payload(p.payload),
        incoming.qos == p.qos,
        incoming.retain == p.retain,
        incoming.dup == p.dup,
        incoming.packet_id == p.packet_id,
{
    assert(named@.topic == p@.topic && named@.payload == p@.payload);
    assert(incoming@.topic == p@.topic && incoming@.payload == p@.payload);
    assert(empty@.reason_codes.len() == 0);
    assert(credentials@ == (text@, buffers::payload(bytes)));
    assert(filter@ == (text@, qos));
}

// ----------------------------------------------------------------------------
// The two sides of the protocol
// ----------------------------------------------------------------------------

/// A connection is MQTT when its first byte has the type of CONNECT.
pub proof fn connects_are_detected(bytes: &[u8], r: bool)
    requires
        call_ensures(detect, (bytes,), r),
    ensures
        bytes@.len() == 0 ==> !r,
        bytes@.len() > 0 ==> r == (0x10 <= bytes@[0] < 0x20),
{
}

/// A client keeps the first of its connections for its operations.
pub proof fn the_first_connection_stays(
    fresh: MqttProtocol,
    a: &mut MqttProtocol,
    b: &mut MqttProtocol,
    first: u64,
    second: u64,
    noted: (),
    before: Result<u64, MqttError>,
    after: Result<u64, MqttError>,
)
    requires
        call_ensures(MqttProtocol::client, (), fresh),
        call_ensures(MqttProtocol::acquire_channel, (&fresh,), before),
        *old(a) == fresh,
        call_ensures(MqttProtocol::open_channel, (a, first), noted),
        *old(b) == *final(a),
        call_ensures(MqttProtocol::open_channel, (b, second), noted),
        call_ensures(MqttProtocol::acquire_channel, (&*final(b),), after),
    ensures
        before matches Err(MqttError::NotConnected(_)),
        after == Ok::<u64, MqttError>(first),
{
}

/// A server has no connection to offer, whatever it has opened.
pub proof fn servers_offer_no_connection(
    fresh: MqttProtocol,
    a: &mut MqttProtocol,
    connection: u64,
    noted: (),
    role: ProtocolRole,
    after: Result<u64, MqttError>,
)
    requires
        call_ensures(MqttProtocol::server, (), fresh),
        *old(a) == fresh,
        call_ensures(MqttProtocol::open_channel, (a, connection), noted),
        call_ensures(MqttProtocol::role, (&*final(a),), role),
        call_ensures(MqttProtocol::acquire_channel, (&*final(a),), after),
    ensures
        role == ProtocolRole::Server,
        after matches Err(MqttError::Configuration(_)),
{
}

/// A publish that no endpoint takes goes to the handler, if there is one; a chain
/// without endpoints hands the publish on as it came.
pub proof fn chains_hand_on(
    publish: PublishPacket,
    matched: bool,
    has_handler: bool,
    fallback: bool,
    chain: ServerChain,
    r: Option<PublishPacket>,
)
    requires
        call_ensures(inbound::falls_back, (matched, has_handler), fallback),
        call_ensures(ServerChain::new, (publish,), chain),
        call_ensures(ServerChain::finish, (chain,), r),
    ensures
        matched ==> !fallback,
        !matched ==> fallback == has_handler,
        r matches Some(p) && p@ == publish@,
{
}

/// A chain in which an endpoint has failed hands nothing on.
pub proof fn failed_chains_keep_back(
    chain: &mut ServerChain,
    applied: (),
    r: Option<PublishPacket>,
)
    requires
        call_ensures(ServerChain::apply, (chain, ChainOutcome::Failed), applied),
        call_ensures(ServerChain::finish, (*final(chain),), r),
    ensures
        r is None,
{
}

// ----------------------------------------------------------------------------
// Buffers
// ----------------------------------------------------------------------------

/// Encoding into a buffer appends what encoding on its own gives, and a packet
/// that cannot be encoded leaves the buffer as it was.
pub proof fn encoding_appends(
    packet: &Packet,
    buf: &mut BytesMut,
    alone: Result<Vec<u8>, MqttError>,
    r: Result<(), MqttError>,
)
    requires
        call_ensures(
            encode::encode_packet,
            (
                packet,
                match packet {
                    Packet::Connect(c) => c.version,
                    _ => ProtocolVersion::V311,
                },
            ),
            alone,
        ),
        call_ensures(Packet::encode, (packet, buf), r),
    ensures
        alone matches Ok(v) ==> r is Ok && buffers::buffered(*final(buf)) == buffers::buffered(
            *old(buf),
        ) + v@,
        alone matches Err(e) ==> r == Err::<(), MqttError>(e) && buffers::buffered(*final(buf))
            == buffers::buffered(*old(buf)),
{
}

/// Decoding without a version is decoding for MQTT 3.1.1.
pub proof fn decoding_takes_the_plain_version(
    a: &mut BytesMut,
    b: &mut BytesMut,
    r: Result<Option<Packet>, MqttError>,
    same: Result<Option<Packet>, MqttError>,
)
    requires
        call_ensures(Packet::decode, (a,), r),
        call_ensures(decode::decode_packet_from_bytes, (b, ProtocolVersion::V311), same),
        *old(a) == *old(b),
    ensures
        buffers::buffered(*final(a)) == buffers::buffered(*final(b)),
        r matches Ok(Some(p)) ==> (same matches Ok(Some(q)) && p@ == q@),
        r matches Ok(None) ==> same matches Ok(None),
        r matches Err(e) ==> same == Err::<Option<Packet>, MqttError>(e),
{
}

/// A variable byte integer is written or refused as a whole.
pub proof fn integers_are_written_or_refused(
    output: &mut Vec<u8>,
    value: usize,
    alone: Vec<u8>,
    r: Result<(), MqttError>,
)
    requires
        call_ensures(wire::write_vbi, (output, value), r),
        call_ensures(wire::encode_remaining_length, (value,), alone),
    ensures
        r is Ok <==> value < 128 * 128 * 128 * 128,
        r is Ok ==> final(output)@ == old(output)@ + alone@,
        r is Err ==> final(output)@ == old(output)@ && r == Err::<(), MqttError>(
            MqttError::Codec(CodecError::VariableByteIntegerOutOfRange { value }),
        ),
{
}

// ----------------------------------------------------------------------------
// Packets that come in
// ----------------------------------------------------------------------------

/// A server answers PINGREQ with PINGRESP and PUBREC with PUBREL.
pub proof fn pings_and_pubrecs_are_answered(
    a: &mut Broker,
    b: &mut Broker,
    connection: u64,
    client_id: &Arc<str>,
    id: PacketId,
    ra: Result<ServerEffect, MqttError>,
    rb: Result<ServerEffect, MqttError>,
)
    requires
        call_ensures(
            server::dispatch_server_inbound,
            (a, connection, client_id, Packet::Pingreq),
            ra,
        ),
        call_ensures(
            server::dispatch_server_inbound,
            (b, connection, client_id, Packet::Pubrec(id)),
            rb,
        ),
        old(a)@.channels.contains_key(connection),
        old(a)@.channels[connection].writing,
        old(b)@ == old(a)@,
    ensures
        ra is Ok,
        rb is Ok,
        final(a)@.channels[connection].outbox == old(a)@.channels[connection].outbox.push(
            WriteView::Packet(PacketView::Pingresp),
        ),
        final(b)@.channels[connection].outbox == old(b)@.channels[connection].outbox.push(
            WriteView::Packet(PacketView::Pubrel(id)),
        ),
        final(a)@.sessions == old(a)@.sessions,
        final(b)@.sessions == old(b)@.sessions,
        final(a)@.subscriptions == old(a)@.subscriptions,
        final(b)@.subscriptions == old(b)@.subscriptions,
{
    laws::servers_answer_pings_and_pubrecs(
        old(a)@,
        connection,
        wire::text(*client_id),
        id,
    );
}

/// A server answers SUBSCRIBE with one code per filter: the level that was asked
/// for, or a failure where the filter is none.
pub proof fn filters_are_answered(
    broker: &mut Broker,
    connection: u64,
    client_id: &Arc<str>,
    packet: Packet,
    s: SubscribeView,
    i: int,
    r: Result<ServerEffect, MqttError>,
)
    requires
        call_ensures(
            server::dispatch_server_inbound,
            (broker, connection, client_id, packet),
            r,
        ),
        packet@ == PacketView::Subscribe(s),
        old(broker)@.channels.contains_key(connection),
        old(broker)@.channels[connection].writing,
        old(broker)@.sessions.contains_key((**client_id)@),
        0 <= i < s.subscriptions.len(),
    ensures
        r is Ok,
        final(broker)@.channels[connection].outbox.last() matches WriteView::Packet(
            PacketView::Suback(a),
        ) && a.packet_id == s.packet_id && a.return_codes.len() == s.subscriptions.len()
            && a.return_codes[i] == (if topic::refusal(
            topic::filter_violation(s.subscriptions[i].0),
        ) is Ok {
            SubackCode::Granted(s.subscriptions[i].1)
        } else {
            SubackCode::Failure
        }),
        final(broker)@.channels[connection].outbox.drop_last()
            == old(broker)@.channels[connection].outbox,
        topic::refusal(topic::filter_violation(s.subscriptions[i].0)) is Ok && (forall|j: int|
            i < j < s.subscriptions.len() ==> (#[trigger] s.subscriptions[j]).0
                != s.subscriptions[i].0) ==> final(broker)@.subscriptions.contains_key(
            s.subscriptions[i].0,
        ) && final(broker)@.subscriptions[s.subscriptions[i].0].contains_pair(
            (**client_id)@,
            s.subscriptions[i].1,
        ),
{
    let name = wire::text(*client_id);
    let other: u64 = if connection == 0 {
        1
    } else {
        0
    };
    laws::subscribes_are_answered(old(broker)@, connection, name, s, i, other);
    if forall|j: int|
        i < j < s.subscriptions.len() ==> (#[trigger] s.subscriptions[j]).0
            != s.subscriptions[i].0 {
        fanout::filters_are_granted_as_asked(old(broker)@, name, s.subscriptions, i);
    }
}

/// A server answers UNSUBSCRIBE with one success per topic, and the client's
/// other subscriptions stay.
pub proof fn topics_are_answered(
    broker: &mut Broker,
    connection: u64,
    client_id: &Arc<str>,
    packet: Packet,
    u: UnsubscribeView,
    i: int,
    f: Seq<char>,
    r: Result<ServerEffect, MqttError>,
)
    requires
        call_ensures(
            server::dispatch_server_inbound,
            (broker, connection, client_id, packet),
            r,
        ),
        packet@ == PacketView::Unsubscribe(u),
        old(broker)@.channels.contains_key(connection),
        old(broker)@.channels[connection].writing,
        old(broker)@.sessions.contains_key((**client_id)@),
        0 <= i < u.topics.len(),
        old(broker)@.subscriptions.contains_key(f),
    ensures
        r is Ok,
        final(broker)@.channels[connection].outbox.last() matches WriteView::Packet(
            PacketView::Unsuback(a),
        ) && a.packet_id == u.packet_id && a.reason_codes.len() == u.topics.len()
            && a.reason_codes[i] == 0,
        final(broker)@.channels[connection].outbox.drop_last()
            == old(broker)@.channels[connection].outbox,
        !u.topics.contains(f) ==> final(broker)@.subscriptions[f]
            == old(broker)@.subscriptions[f],
        final(broker)@.subscriptions.contains_key(u.topics[i])
            ==> !final(broker)@.subscriptions[u.topics[i]].contains_key((**client_id)@),
{
    let name = wire::text(*client_id);
    let other: u64 = if connection == 0 {
        1
    } else {
        0
    };
    laws::unsubscribes_are_answered(old(broker)@, connection, name, u, i, other);
    let stranger = name.push('x');
    assert(stranger.len() != name.len());
    fanout::unsubscribing_leaves_the_rest(
        old(broker)@,
        name,
        u.topics,
        f,
        stranger,
        QoS::AtMostOnce,
    );
    fanout::unsubscribed_filters_are_gone(old(broker)@, name, u.topics, i);
}

/// A server acknowledges a publish by its level, and hands it on as it came: at
/// once, or at QoS 2 once it is released.
pub proof fn publishes_are_taken_in(
    broker: &mut Broker,
    connection: u64,
    client_id: &Arc<str>,
    packet: PublishPacket,
    r: Result<ServerEffect, MqttError>,
)
    requires
        call_ensures(
            server::dispatch_server_inbound,
            (broker, connection, client_id, Packet::Publish(packet)),
            r,
        ),
        old(broker)@.channels.contains_key(connection),
        old(broker)@.channels[connection].writing,
        packet.packet_id is Some,
    ensures
        ({
            let id = packet.packet_id.unwrap();
            let was = old(broker)@.channels[connection];
            let now = final(broker)@.channels[connection];
            &&& r matches Ok(e) && e@.fire is None && (packet.qos != QoS::ExactlyOnce ==> (
            e@.chain matches Some((p, due)) && p == packet@ && due is None)) && (packet.qos
                == QoS::ExactlyOnce ==> e@.chain is None)
            &&& packet.qos == QoS::AtMostOnce ==> now.outbox == was.outbox && now.session
                == was.session
            &&& packet.qos == QoS::AtLeastOnce ==> now.outbox == was.outbox.push(
                WriteView::Packet(PacketView::Puback(id)),
            ) && now.session == was.session
            &&& packet.qos == QoS::ExactlyOnce ==> now.outbox == was.outbox.push(
                WriteView::Packet(PacketView::Pubrec(id)),
            ) && now.session.qos2_recv.contains_pair(id, packet@)
            &&& final(broker)@.sessions == old(broker)@.sessions
            &&& final(broker)@.subscriptions == old(broker)@.subscriptions
        }),
{
    let other: u64 = if connection == 0 {
        1
    } else {
        0
    };
    laws::servers_hand_publishes_on(
        old(broker)@,
        connection,
        wire::text(*client_id),
        packet@,
        other,
    );
}

/// A client acknowledges a publish by its level and hands it to the endpoints as
/// it came: at once, or at QoS 2 once it is released.
pub proof fn clients_take_publishes_in(
    channel: &mut MqttChannel,
    packet: PublishPacket,
    r: ClientTurn,
)
    requires
        call_ensures(client::on_event, (channel, ClientEvent::Packet(Packet::Publish(packet))), r),
        old(channel)@.writing,
        packet.packet_id is Some,
    ensures
        ({
            let id = packet.packet_id.unwrap();
            let was = old(channel)@;
            let now = final(channel)@;
            &&& r.fire is None
            &&& r.outcome == Ok::<bool, MqttError>(false)
            &&& packet.qos != QoS::ExactlyOnce ==> (r.deliver matches Some(p) && p@ == packet@)
            &&& packet.qos == QoS::ExactlyOnce ==> r.deliver is None
            &&& packet.qos == QoS::AtMostOnce ==> now.outbox == was.outbox
            &&& packet.qos == QoS::AtLeastOnce ==> now.outbox == was.outbox.push(
                WriteView::Packet(PacketView::Puback(id)),
            )
            &&& packet.qos == QoS::ExactlyOnce ==> now.outbox == was.outbox.push(
                WriteView::Packet(PacketView::Pubrec(id)),
            ) && now.session.qos2_recv.contains_pair(id, packet@)
        }),
{
}

/// PUBREL at a client hands out what is held under the identifier and is answered
/// with PUBCOMP either way.
pub proof fn clients_take_releases_in(channel: &mut MqttChannel, id: PacketId, r: ClientTurn)
    requires
        call_ensures(client::on_event, (channel, ClientEvent::Packet(Packet::Pubrel(id))), r),
        old(channel)@.writing,
    ensures
        r.outcome == Ok::<bool, MqttError>(false),
        r.fire is None,
        final(channel)@.outbox == old(channel)@.outbox.push(
            WriteView::Packet(PacketView::Pubcomp(id)),
        ),
        !final(channel)@.session.qos2_recv.contains_key(id),
        old(channel)@.session.qos2_recv.contains_key(id) ==> (r.deliver matches Some(p) && p@
            == old(channel)@.session.qos2_recv[id]),
        !old(channel)@.session.qos2_recv.contains_key(id) ==> r.deliver is None,
{
}

/// After the endpoints the publish goes to the subscribers, and a QoS 2 publish is
/// completed towards its sender last.
pub proof fn chains_are_completed(
    s: &ServerSession,
    broker: &mut Broker,
    id: PacketId,
    publish: PublishPacket,
    r: Result<(), MqttError>,
)
    requires
        call_ensures(ServerSession::on_chain, (s, broker, Some(id), Some(publish)), r),
        old(broker)@.channels.contains_key(s@.connection),
        old(broker)@.channels[s@.connection].writing,
    ensures
        r is Ok,
        final(broker)@.channels.contains_key(s@.connection),
        final(broker)@.channels[s@.connection].outbox.len() > 0,
        final(broker)@.channels[s@.connection].outbox.last() == WriteView::Packet(
            PacketView::Pubcomp(id),
        ),
        final(broker)@.sessions == old(broker)@.sessions,
        final(broker)@.subscriptions == old(broker)@.subscriptions,
{
    let after = final(broker)@;
    let taken = choose|mid: BrokerView| #[trigger]
        server::chain_taken_in(
            old(broker)@,
            mid,
            s@.connection,
            s@.client_id,
            Some(id),
            Some(publish@),
            r,
        ) && (match r {
            Ok(_) => after == mid,
            Err(_) => crate::broker::unregistered(mid, after, s@.client_id, false),
        });
    laws::chains_publish_then_complete(
        old(broker)@,
        taken,
        s@.connection,
        s@.client_id,
        id,
        publish@,
        r,
    );
    let mid = choose|mid: BrokerView| #[trigger]
        crate::broker::published(old(broker)@, mid, s@.client_id, publish@) && taken.sessions
            == mid.sessions && taken.subscriptions == mid.subscriptions;
    fanout::publishing_only_delivers(old(broker)@, mid, s@.client_id, publish@);
}

// ----------------------------------------------------------------------------
// Words
// ----------------------------------------------------------------------------

/// Packets are named as the protocol names them.
pub proof fn packets_are_named(packet: &Packet, r: &'static str)
    requires
        call_ensures(Packet::name, (packet,), r),
    ensures
        packet is Connect ==> r@ == "CONNECT"@,
        packet is Connack ==> r@ == "CONNACK"@,
        packet is Publish ==> r@ == "PUBLISH"@,
        packet is Puback ==> r@ == "PUBACK"@,
        packet is Pubrec ==> r@ == "PUBREC"@,
        packet is Pubrel ==> r@ == "PUBREL"@,
        packet is Pubcomp ==> r@ == "PUBCOMP"@,
        packet is Subscribe ==> r@ == "SUBSCRIBE"@,
        packet is Suback ==> r@ == "SUBACK"@,
        packet is Unsubscribe ==> r@ == "UNSUBSCRIBE"@,
        packet is Unsuback ==> r@ == "UNSUBACK"@,
        packet is Pingreq ==> r@ == "PINGREQ"@,
        packet is Pingresp ==> r@ == "PINGRESP"@,
        packet is Disconnect ==> r@ == "DISCONNECT"@,
{
}

/// The answers to CONNECT in words.
pub proof fn answers_are_described(code: ConnackReturnCode, r: &'static str)
    requires
        call_ensures(ConnackReturnCode::description, (code,), r),
    ensures
        code is Accepted ==> r@ == "Accepted"@,
        code is UnacceptableProtocolVersion ==> r@ == "Unacceptable Protocol Version"@,
        code is IdentifierRejected ==> r@ == "Identifier Rejected"@,
        code is ServerUnavailable ==> r@ == "Server Unavailable"@,
        code is BadUsernameOrPassword ==> r@ == "Bad Username or Password"@,
        code is NotAuthorized ==> r@ == "Not Authorized"@,
{
}

/// An error says of what kind it is, and then what it carries.
pub proof fn messages_name_the_kind(e: &MqttError, r: String)
    requires
        call_ensures(MqttError::message, (e,), r),
    ensures
        e is Io ==> "I/O: "@.is_prefix_of(r@),
        e is ChannelClosed ==> r@ == "channel closed"@,
        e is AckTimeout ==> r@ == "ack timeout"@,
        *e == MqttError::Timeout(TimeoutKind::Connack) ==> r@ == "timeout: "@ + "Connack"@,
        *e == MqttError::Timeout(TimeoutKind::ConnectReceive) ==> r@ == "timeout: "@
            + "ConnectReceive"@,
        *e == MqttError::Timeout(TimeoutKind::Ack) ==> r@ == "timeout: "@ + "Ack"@,
        *e matches MqttError::Configuration(m) ==> r@ == "configuration: "@ + m@,
        *e matches MqttError::NotConnected(m) ==> r@ == "not connected: "@ + m@,
        *e matches MqttError::Unsupported(m) ==> r@ == "unsupported: "@ + m@,
{
}

/// A violation in words: its name, and the number or the answer that it carries.
pub proof fn violations_are_named(v: Violation, r: String)
    requires
        call_ensures(MqttError::message, (&MqttError::Protocol(v),), r),
    ensures
        v is ExpectedConnack ==> r@ == "protocol violation: "@ + "ExpectedConnack"@,
        v is ExpectedConnect ==> r@ == "protocol violation: "@ + "ExpectedConnect"@,
        v is InvalidProtocolName ==> r@ == "protocol violation: "@ + "InvalidProtocolName"@,
        v is EmptyTopic ==> r@ == "protocol violation: "@ + "EmptyTopic"@,
        v is TopicTooLong ==> r@ == "protocol violation: "@ + "TopicTooLong"@,
        v is WildcardInPublishTopic ==> r@ == "protocol violation: "@ + "WildcardInPublishTopic"@,
        v is HashWildcardNotTerminal ==> r@ == "protocol violation: "@ + "HashWildcardNotTerminal"@,
        v is WildcardMixedWithLiteral ==> r@ == "protocol violation: "@ + "WildcardMixedWithLiteral"@,
        v is SessionAlreadyBound ==> r@ == "protocol violation: "@ + "SessionAlreadyBound"@,
        v is Utf8NullCharacter ==> r@ == "protocol violation: "@ + "Utf8NullCharacter"@,
        v matches Violation::UnsupportedProtocolLevel(n) ==> r@ == "protocol violation: "@ + ("UnsupportedProtocolLevel"@ + "("@
            + text::decimal(n as nat) + ")"@),
        v matches Violation::DuplicateProperty(n) ==> r@ == "protocol violation: "@ + ("DuplicateProperty"@ + "("@
            + text::decimal(n as nat) + ")"@),
        v matches Violation::MalformedProperty(n) ==> r@ == "protocol violation: "@ + ("MalformedProperty"@ + "("@
            + text::decimal(n as nat) + ")"@),
        v matches Violation::UnknownProperty(n) ==> r@ == "protocol violation: "@ + ("UnknownProperty"@ + "("@
            + text::decimal(n as nat) + ")"@),
        v is ConnectionRefused && v->ConnectionRefused_0 is Accepted ==> r@
            == "protocol violation: "@ + ("ConnectionRefused"@ + "("@ + "Accepted"@ + ")"@),
        v is ConnectionRefused && v->ConnectionRefused_0 is UnacceptableProtocolVersion ==> r@
            == "protocol violation: "@ + ("ConnectionRefused"@ + "("@ + "UnacceptableProtocolVersion"@ + ")"@),
        v is ConnectionRefused && v->ConnectionRefused_0 is IdentifierRejected ==> r@
            == "protocol violation: "@ + ("ConnectionRefused"@ + "("@ + "IdentifierRejected"@ + ")"@),
        v is ConnectionRefused && v->ConnectionRefused_0 is ServerUnavailable ==> r@
            == "protocol violation: "@ + ("ConnectionRefused"@ + "("@ + "ServerUnavailable"@ + ")"@),
        v is ConnectionRefused && v->ConnectionRefused_0 is BadUsernameOrPassword ==> r@
            == "protocol violation: "@ + ("ConnectionRefused"@ + "("@ + "BadUsernameOrPassword"@ + ")"@),
        v is ConnectionRefused && v->ConnectionRefused_0 is NotAuthorized ==> r@
            == "protocol violation: "@ + ("ConnectionRefused"@ + "("@ + "NotAuthorized"@ + ")"@),
{
}

/// A codec error in words: its name, and the numbers that it carries.
pub proof fn codec_errors_are_named(c: CodecError, r: String)
    requires
        call_ensures(MqttError::message, (&MqttError::Codec(c),), r),
    ensures
        c is UnexpectedEof ==> r@ == "codec: "@ + "UnexpectedEof"@,
        c is MalformedLength ==> r@ == "codec: "@ + "MalformedLength"@,
        c is InvalidUtf8 ==> r@ == "codec: "@ + "InvalidUtf8"@,
        c is ReservedFlagSet ==> r@ == "codec: "@ + "ReservedFlagSet"@,
        c matches CodecError::InvalidPacketType(n) ==> r@ == "codec: "@ + ("InvalidPacketType"@ + "("@ + text::decimal(
            n as nat,
        ) + ")"@),
        c matches CodecError::QosInvalid(n) ==> r@ == "codec: "@ + ("QosInvalid"@ + "("@ + text::decimal(
            n as nat,
        ) + ")"@),
        c matches CodecError::PayloadTooLong { len, max } ==> r@ == "codec: "@ + (
        "PayloadTooLong { len: "@ + text::decimal(len as nat) + ", max: "@ + text::decimal(
            max as nat,
        ) + " }"@),
        c matches CodecError::VariableByteIntegerOutOfRange { value } ==> r@ == "codec: "@ + (
        "VariableByteIntegerOutOfRange { value: "@ + text::decimal(value as nat) + " }"@),
{
}

} // verus!
