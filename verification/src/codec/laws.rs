//! What encoding and decoding promise of each other.

use vstd::prelude::*;
use vstd::utf8::*;

use crate::codec::decode;
use crate::codec::encode;
use crate::error::MqttError;
use crate::packet;
use crate::packet::{
    ConnackView, ConnectView, Packet, PacketType, PacketView, ProtocolVersion, PublishView,
    SubackView, SubscribeView, UnsubackView, UnsubscribeView, WillView,
};
use crate::properties;
use crate::properties::PropertiesView;
use crate::request;
use crate::request::{QoS, SubackCode};
use crate::wire;

verus! {

// ----------------------------------------------------------------------------
// What survives the wire
// ----------------------------------------------------------------------------

/// Properties are dropped on MQTT 3.1.1.
pub open spec fn kept_properties(version: ProtocolVersion, m: PropertiesView) -> PropertiesView {
    match version {
        ProtocolVersion::V311 => PropertiesView::empty(),
        ProtocolVersion::V5 => m,
    }
}

pub open spec fn kept_will(version: ProtocolVersion, will: Option<WillView>) -> Option<WillView> {
    match will {
        None => None,
        Some(w) => Some(WillView { properties: kept_properties(version, w.properties), ..w }),
    }
}

/// A packet as the peer sees it. MQTT 3.1.1 carries no properties and no
/// UNSUBACK reason codes; QoS 0 carries no packet identifier.
pub open spec fn on_wire(p: PacketView, version: ProtocolVersion) -> PacketView {
    match p {
        PacketView::Connect(c) => PacketView::Connect(
            ConnectView {
                properties: kept_properties(c.version, c.properties),
                will: kept_will(c.version, c.will),
                ..c
            },
        ),
        PacketView::Connack(c) => PacketView::Connack(
            ConnackView { properties: kept_properties(version, c.properties), ..c },
        ),
        PacketView::Publish(p) => PacketView::Publish(
            PublishView {
                properties: kept_properties(version, p.properties),
                packet_id: if p.qos == QoS::AtMostOnce {
                    None
                } else {
                    p.packet_id
                },
                ..p
            },
        ),
        PacketView::Unsuback(u) => PacketView::Unsuback(
            UnsubackView {
                reason_codes: match version {
                    ProtocolVersion::V311 => Seq::empty(),
                    ProtocolVersion::V5 => u.reason_codes,
                },
                ..u
            },
        ),
        _ => p,
    }
}

/// Text whose byte length fits a two-byte prefix.
pub open spec fn short_text(c: Seq<char>) -> bool {
    encode_utf8(c).len() <= 0xffff
}

pub open spec fn fits_connect(c: ConnectView) -> bool {
    &&& short_text(c.client_id)
    &&& c.username matches Some(u) ==> short_text(u)
    &&& c.password matches Some(p) ==> p.len() <= 0xffff
    &&& c.will matches Some(w) ==> short_text(w.topic) && w.payload.len() <= 0xffff
}

pub open spec fn short_topics(topics: Seq<Seq<char>>) -> bool {
    forall|i: int| 0 <= i < topics.len() ==> #[trigger] short_text(topics[i])
}

pub open spec fn short_subscriptions(subscriptions: Seq<(Seq<char>, QoS)>) -> bool {
    forall|i: int| 0 <= i < subscriptions.len() ==> short_text(#[trigger] subscriptions[i].0)
}

/// What the wire format can carry: strings that fit their length prefix, a
/// packet identifier where QoS asks for one, and at least one entry in the
/// packets that list something.
pub open spec fn fits(p: PacketView, version: ProtocolVersion) -> bool {
    match p {
        PacketView::Connect(c) => fits_connect(c),
        PacketView::Publish(p) => short_text(p.topic) && (p.qos != QoS::AtMostOnce
            ==> p.packet_id is Some),
        PacketView::Subscribe(s) => s.subscriptions.len() > 0 && short_subscriptions(
            s.subscriptions,
        ),
        PacketView::Suback(s) => version == ProtocolVersion::V5 || s.return_codes.len() > 0,
        PacketView::Unsubscribe(u) => u.topics.len() > 0 && short_topics(u.topics),
        _ => true,
    }
}

/// Property blocks of the packet are well typed.
spec fn typed(p: PacketView) -> bool {
    match p {
        PacketView::Connect(c) => properties::well_typed(c.properties) && (c.will matches Some(w)
            ==> properties::well_typed(w.properties)),
        PacketView::Connack(c) => properties::well_typed(c.properties),
        PacketView::Publish(p) => properties::well_typed(p.properties),
        _ => true,
    }
}

// ----------------------------------------------------------------------------
// Pieces
// ----------------------------------------------------------------------------

proof fn opt_block_round_trip(version: ProtocolVersion, m: PropertiesView, rest: Seq<u8>)
    requires
        properties::well_typed(m),
        encode::opt_block_bytes(version, m) is Ok,
    ensures
        decode::take_opt_block(version, encode::opt_block_bytes(version, m).unwrap() + rest) == Ok::<
            (PropertiesView, Seq<u8>),
            MqttError,
        >((kept_properties(version, m), rest)),
{
    match version {
        ProtocolVersion::V311 => {
            assert(Seq::<u8>::empty() + rest =~= rest);
        },
        ProtocolVersion::V5 => {
            properties::block_round_trip(m, rest);
        },
    }
}

proof fn no_properties_round_trip(version: ProtocolVersion, rest: Seq<u8>)
    ensures
        decode::take_opt_block(version, encode::no_properties(version) + rest) == Ok::<
            (PropertiesView, Seq<u8>),
            MqttError,
        >((PropertiesView::empty(), rest)),
{
    match version {
        ProtocolVersion::V311 => {
            assert(Seq::<u8>::empty() + rest =~= rest);
        },
        ProtocolVersion::V5 => {
            properties::empty_block_is_one_byte();
            properties::block_round_trip(PropertiesView::empty(), rest);
        },
    }
}

proof fn connect_flags_round_trip(c: ConnectView)
    ensures
        decode::flag(encode::connect_flags(c), 128) == (c.username is Some),
        decode::flag(encode::connect_flags(c), 64) == (c.password is Some),
        decode::flag(encode::connect_flags(c), 2) == c.clean_session,
        decode::flag(encode::connect_flags(c), 4) == (c.will is Some),
        c.will matches Some(w) ==> (encode::connect_flags(c) / 8) % 4 == request::qos_number(w.qos)
            && decode::flag(encode::connect_flags(c), 32) == w.retain,
{
}

proof fn will_round_trip(c: ConnectView, rest: Seq<u8>)
    requires
        fits_connect(c),
        c.will matches Some(w) ==> properties::well_typed(w.properties),
        encode::will_bytes(c.version, c.will) is Ok,
    ensures
        decode::take_will(
            c.version,
            encode::connect_flags(c),
            encode::will_bytes(c.version, c.will).unwrap() + rest,
        ) == Ok::<(Option<WillView>, Seq<u8>), MqttError>((kept_will(c.version, c.will), rest)),
{
    connect_flags_round_trip(c);
    let flags = encode::connect_flags(c);
    match c.will {
        None => {
            assert(Seq::<u8>::empty() + rest =~= rest);
        },
        Some(w) => {
            let block = encode::opt_block_bytes(c.version, w.properties).unwrap();
            let s2 = wire::prefixed(w.payload) + rest;
            let s1 = wire::prefixed_text(w.topic) + s2;
            assert(encode::will_bytes(c.version, c.will).unwrap() + rest =~= block + s1);
            opt_block_round_trip(c.version, w.properties, s1);
            wire::text_round_trip(w.topic, s2);
            wire::prefixed_round_trip(w.payload, rest);
        },
    }
}

proof fn opt_text_round_trip(t: Option<Seq<char>>, rest: Seq<u8>)
    requires
        t matches Some(c) ==> short_text(c),
    ensures
        decode::take_opt_text(t is Some, encode::opt_text_bytes(t) + rest) == Ok::<
            (Option<Seq<char>>, Seq<u8>),
            MqttError,
        >((t, rest)),
{
    match t {
        None => {
            assert(Seq::<u8>::empty() + rest =~= rest);
        },
        Some(c) => {
            wire::text_round_trip(c, rest);
        },
    }
}

proof fn opt_binary_round_trip(b: Option<Seq<u8>>, rest: Seq<u8>)
    requires
        b matches Some(p) ==> p.len() <= 0xffff,
    ensures
        decode::take_opt_binary(b is Some, encode::opt_binary_bytes(b) + rest) == Ok::<
            (Option<Seq<u8>>, Seq<u8>),
            MqttError,
        >((b, rest)),
{
    match b {
        None => {
            assert(Seq::<u8>::empty() + rest =~= rest);
        },
        Some(p) => {
            wire::prefixed_round_trip(p, rest);
        },
    }
}

// ----------------------------------------------------------------------------
// Bodies
// ----------------------------------------------------------------------------

proof fn connect_round_trip(c: ConnectView)
    requires
        fits_connect(c),
        typed(PacketView::Connect(c)),
        encode::connect_body(c) is Ok,
    ensures
        decode::connect_from(encode::connect_body(c).unwrap()) == Ok::<PacketView, MqttError>(
            on_wire(PacketView::Connect(c), c.version),
        ),
{
    let body = encode::connect_body(c).unwrap();
    let head = encode::connect_head(c);
    let s5 = Seq::<u8>::empty();
    let s4 = encode::opt_binary_bytes(c.password);
    let s3 = encode::opt_text_bytes(c.username) + s4;
    let s2 = encode::will_bytes(c.version, c.will).unwrap() + s3;
    let s1 = wire::prefixed_text(c.client_id) + s2;
    let s0 = encode::opt_block_bytes(c.version, c.properties).unwrap() + s1;
    assert(body == head + s0);
    assert(head.len() == 10);
    assert(body.skip(10) =~= s0);
    assert(body.take(6) =~= decode::protocol_name());
    assert(body[6] == head[6] && body[7] == head[7] && body[8] == head[8] && body[9] == head[9]);
    assert(head[8] * 256 + head[9] == c.keep_alive);
    assert(s4 + s5 =~= s4);
    connect_flags_round_trip(c);
    opt_block_round_trip(c.version, c.properties, s1);
    wire::text_round_trip(c.client_id, s2);
    will_round_trip(c, s3);
    opt_text_round_trip(c.username, s4);
    opt_binary_round_trip(c.password, s5);
}

proof fn connack_round_trip(c: ConnackView, version: ProtocolVersion)
    requires
        typed(PacketView::Connack(c)),
        encode::connack_body(c, version) is Ok,
    ensures
        decode::connack_from(version, encode::connack_body(c, version).unwrap()) == Ok::<
            PacketView,
            MqttError,
        >(on_wire(PacketView::Connack(c), version)),
{
    let body = encode::connack_body(c, version).unwrap();
    packet::connack_codes_round_trip(c.return_code);
    match version {
        ProtocolVersion::V311 => {
            assert(body.skip(2) =~= Seq::empty());
        },
        ProtocolVersion::V5 => {
            let block = properties::block_bytes(c.properties).unwrap();
            assert(body.skip(2) =~= block + Seq::<u8>::empty());
            properties::block_round_trip(c.properties, Seq::empty());
        },
    }
}

proof fn publish_round_trip(p: PublishView, version: ProtocolVersion)
    requires
        fits(PacketView::Publish(p), version),
        typed(PacketView::Publish(p)),
        encode::publish_body(p, version) is Ok,
    ensures
        decode::publish_from(
            version,
            encode::publish_first(p),
            encode::publish_body(p, version).unwrap(),
        ) == Ok::<PacketView, MqttError>(on_wire(PacketView::Publish(p), version)),
{
    let body = encode::publish_body(p, version).unwrap();
    let s2 = encode::opt_block_bytes(version, p.properties).unwrap() + p.payload;
    let s1 = encode::publish_id(p) + s2;
    assert(body =~= wire::prefixed_text(p.topic) + s1);
    let first = encode::publish_first(p);
    assert((first / 2) % 4 == request::qos_number(p.qos));
    wire::text_round_trip(p.topic, s1);
    if p.qos == QoS::AtMostOnce {
        assert(s1 =~= s2);
    } else {
        wire::u16_round_trip(p.packet_id.unwrap(), s2);
    }
    opt_block_round_trip(version, p.properties, p.payload);
}

proof fn u16_front(v: u16, rest: Seq<u8>)
    ensures
        ({
            let s = wire::u16_bytes(v) + rest;
            s.len() == 2 + rest.len() && (s[0] * 256 + s[1]) as u16 == v && s.skip(2) == rest
        }),
{
    assert((wire::u16_bytes(v) + rest).skip(2) =~= rest);
}

proof fn ack_round_trip(version: ProtocolVersion, first: u8, packet_type: PacketType, id: u16)
    requires
        first % 16 == (if packet_type == PacketType::Pubrel {
            2int
        } else {
            0
        }),
    ensures
        decode::ack_from(version, first, packet_type, wire::u16_bytes(id)) == Ok::<
            PacketView,
            MqttError,
        >(decode::ack_of(packet_type, id)),
{
    u16_front(id, Seq::empty());
    assert(wire::u16_bytes(id) + Seq::<u8>::empty() =~= wire::u16_bytes(id));
}

/// Reading one subscription that was written adds it to the list.
proof fn subscription_round_trip(
    version: ProtocolVersion,
    topic: Seq<char>,
    qos: QoS,
    rest: Seq<u8>,
    acc: Seq<(Seq<char>, QoS)>,
)
    requires
        short_text(topic),
    ensures
        decode::take_subscriptions(
            version,
            wire::prefixed_text(topic) + (seq![request::qos_number(qos)] + rest),
            acc,
        ) == decode::take_subscriptions(version, rest, acc.push((topic, qos))),
{
    let options = seq![request::qos_number(qos)] + rest;
    wire::text_round_trip(topic, options);
    assert(options.skip(1) =~= rest);
    assert(options[0] == request::qos_number(qos));
    assert(decode::options_error(version, request::qos_number(qos)) == Ok::<QoS, MqttError>(qos));
}

proof fn subscriptions_round_trip(
    version: ProtocolVersion,
    v: Seq<(Seq<char>, QoS)>,
    rest: Seq<u8>,
    acc: Seq<(Seq<char>, QoS)>,
)
    requires
        short_subscriptions(v),
    ensures
        decode::take_subscriptions(version, encode::subscription_bytes(v) + rest, acc)
            == decode::take_subscriptions(version, rest, acc + v),
    decreases v.len(),
{
    if v.len() == 0 {
        assert(encode::subscription_bytes(v) + rest =~= rest);
        assert(acc + v =~= acc);
    } else {
        let init = v.drop_last();
        let (topic, qos) = v.last();
        let number = request::qos_number(qos);
        let tail = wire::prefixed_text(topic) + (seq![number] + rest);
        assert forall|i: int| 0 <= i < init.len() implies short_text(#[trigger] init[i].0) by {
            assert(short_text(v[i].0));
        }
        wire::joined(
            encode::subscription_bytes(init),
            wire::prefixed_text(topic) + seq![number],
            rest,
        );
        wire::joined(wire::prefixed_text(topic), seq![number], rest);
        subscriptions_round_trip(version, init, tail, acc);
        assert(short_text(v[v.len() - 1].0));
        subscription_round_trip(version, topic, qos, rest, acc + init);
        assert((acc + init).push((topic, qos)) =~= acc + v);
    }
}

proof fn subscribe_round_trip(s: SubscribeView, version: ProtocolVersion)
    requires
        fits(PacketView::Subscribe(s), version),
    ensures
        decode::subscribe_from(version, encode::subscribe_body(s, version)) == Ok::<
            PacketView,
            MqttError,
        >(PacketView::Subscribe(s)),
{
    let bytes = encode::subscription_bytes(s.subscriptions);
    u16_front(s.packet_id, encode::no_properties(version) + bytes);
    no_properties_round_trip(version, bytes);
    assert(bytes.len() >= 3);
    assert(bytes + Seq::<u8>::empty() =~= bytes);
    subscriptions_round_trip(version, s.subscriptions, Seq::empty(), Seq::empty());
    assert(Seq::<(Seq<char>, QoS)>::empty() + s.subscriptions =~= s.subscriptions);
}

proof fn codes_round_trip(
    version: ProtocolVersion,
    v: Seq<SubackCode>,
    acc: Seq<SubackCode>,
)
    ensures
        decode::take_codes(version, encode::code_bytes(v), acc) == Ok::<
            Seq<SubackCode>,
            MqttError,
        >(acc + v),
    decreases v.len(),
{
    if v.len() == 0 {
        assert(acc + v =~= acc);
    } else {
        assert(encode::code_bytes(v).skip(1) =~= encode::code_bytes(v.skip(1)));
        request::suback_numbers_round_trip(v[0], 0);
        codes_round_trip(version, v.skip(1), acc.push(v[0]));
        assert(acc.push(v[0]) + v.skip(1) =~= acc + v);
    }
}

proof fn suback_round_trip(s: SubackView, version: ProtocolVersion)
    requires
        fits(PacketView::Suback(s), version),
    ensures
        decode::suback_from(version, encode::suback_body(s, version)) == Ok::<
            PacketView,
            MqttError,
        >(PacketView::Suback(s)),
{
    let bytes = encode::code_bytes(s.return_codes);
    u16_front(s.packet_id, encode::no_properties(version) + bytes);
    no_properties_round_trip(version, bytes);
    codes_round_trip(version, s.return_codes, Seq::empty());
    assert(Seq::<SubackCode>::empty() + s.return_codes =~= s.return_codes);
}

proof fn topics_round_trip(v: Seq<Seq<char>>, rest: Seq<u8>, acc: Seq<Seq<char>>)
    requires
        short_topics(v),
    ensures
        decode::take_topics(encode::topic_bytes(v) + rest, acc) == decode::take_topics(
            rest,
            acc + v,
        ),
    decreases v.len(),
{
    if v.len() == 0 {
        assert(encode::topic_bytes(v) + rest =~= rest);
        assert(acc + v =~= acc);
    } else {
        let init = v.drop_last();
        let topic = v.last();
        let tail = wire::prefixed_text(topic) + rest;
        assert forall|i: int| 0 <= i < init.len() implies #[trigger] short_text(init[i]) by {
            assert(short_text(v[i]));
        }
        wire::joined(encode::topic_bytes(init), wire::prefixed_text(topic), rest);
        topics_round_trip(init, tail, acc);
        assert(short_text(v[v.len() - 1]));
        wire::text_round_trip(topic, rest);
        assert((acc + init).push(topic) =~= acc + v);
    }
}

proof fn unsubscribe_round_trip(u: UnsubscribeView, version: ProtocolVersion)
    requires
        fits(PacketView::Unsubscribe(u), version),
    ensures
        decode::unsubscribe_from(version, encode::unsubscribe_body(u, version)) == Ok::<
            PacketView,
            MqttError,
        >(PacketView::Unsubscribe(u)),
{
    let bytes = encode::topic_bytes(u.topics);
    u16_front(u.packet_id, encode::no_properties(version) + bytes);
    no_properties_round_trip(version, bytes);
    assert(bytes.len() >= 2);
    assert(bytes + Seq::<u8>::empty() =~= bytes);
    topics_round_trip(u.topics, Seq::empty(), Seq::empty());
    assert(Seq::<Seq<char>>::empty() + u.topics =~= u.topics);
}

proof fn unsuback_round_trip(u: UnsubackView, version: ProtocolVersion)
    ensures
        decode::unsuback_from(version, encode::unsuback_body(u, version)) == Ok::<
            PacketView,
            MqttError,
        >(on_wire(PacketView::Unsuback(u), version)),
{
    match version {
        ProtocolVersion::V311 => {
            u16_front(u.packet_id, Seq::empty());
            assert(wire::u16_bytes(u.packet_id) + Seq::<u8>::empty() =~= wire::u16_bytes(
                u.packet_id,
            ));
        },
        ProtocolVersion::V5 => {
            u16_front(u.packet_id, seq![0u8] + u.reason_codes);
            no_properties_round_trip(version, u.reason_codes);
        },
    }
}

// ----------------------------------------------------------------------------
// Packets
// ----------------------------------------------------------------------------

/// Decoding a frame comes down to parsing its body.
pub(crate) proof fn frame_round_trip(
    first: u8,
    packet_type: PacketType,
    body: Seq<u8>,
    version: ProtocolVersion,
    rest: Seq<u8>,
)
    requires
        packet::type_from(first / 16) == Ok::<PacketType, ()>(packet_type),
        body.len() <= wire::MAX_VARIABLE_BYTE_INTEGER,
    ensures
        decode::take_packet(encode::frame(first, body) + rest, version) == (decode::Decoded {
            packet: match decode::packet_from(first, packet_type, body, version) {
                Err(e) => Err(e),
                Ok(p) => Ok(Some(p)),
            },
            rest,
        }),
{
    let s = encode::frame(first, body) + rest;
    let after = body + rest;
    assert(s.skip(1) =~= wire::vbi_bytes(body.len()) + after);
    assert(s[0] == first);
    wire::vbi_length(body.len());
    wire::length_round_trip(body.len(), after);
    assert(after.take(body.len() as int) =~= body);
    assert(after.skip(body.len() as int) =~= rest);
}

/// The first byte, the type and the body of a packet that has an encoding.
spec fn parts(p: PacketView, version: ProtocolVersion) -> (u8, PacketType, Seq<u8>) {
    match p {
        PacketView::Connect(c) => (0x10, PacketType::Connect, encode::connect_body(c).unwrap()),
        PacketView::Connack(c) => (
            0x20,
            PacketType::Connack,
            encode::connack_body(c, version).unwrap(),
        ),
        PacketView::Publish(p) => (
            encode::publish_first(p),
            PacketType::Publish,
            encode::publish_body(p, version).unwrap(),
        ),
        PacketView::Puback(id) => (0x40, PacketType::Puback, wire::u16_bytes(id)),
        PacketView::Pubrec(id) => (0x50, PacketType::Pubrec, wire::u16_bytes(id)),
        PacketView::Pubrel(id) => (0x62, PacketType::Pubrel, wire::u16_bytes(id)),
        PacketView::Pubcomp(id) => (0x70, PacketType::Pubcomp, wire::u16_bytes(id)),
        PacketView::Subscribe(s) => (
            0x82,
            PacketType::Subscribe,
            encode::subscribe_body(s, version),
        ),
        PacketView::Suback(s) => (0x90, PacketType::Suback, encode::suback_body(s, version)),
        PacketView::Unsubscribe(u) => (
            0xA2,
            PacketType::Unsubscribe,
            encode::unsubscribe_body(u, version),
        ),
        PacketView::Unsuback(u) => (0xB0, PacketType::Unsuback, encode::unsuback_body(u, version)),
        PacketView::Pingreq => (0xC0, PacketType::Pingreq, Seq::empty()),
        PacketView::Pingresp => (0xD0, PacketType::Pingresp, Seq::empty()),
        PacketView::Disconnect => (0xE0, PacketType::Disconnect, Seq::empty()),
    }
}

proof fn packet_is_a_frame(p: PacketView, version: ProtocolVersion)
    requires
        encode::packet_bytes(p, version) is Ok,
    ensures
        ({
            let (first, packet_type, body) = parts(p, version);
            encode::packet_bytes(p, version) == Ok::<Seq<u8>, MqttError>(encode::frame(first, body))
                && packet::type_from(first / 16) == Ok::<PacketType, ()>(packet_type)
        }),
{
}

proof fn body_round_trip(p: PacketView, version: ProtocolVersion)
    requires
        fits(p, version),
        typed(p),
        encode::packet_bytes(p, version) is Ok,
    ensures
        ({
            let (first, packet_type, body) = parts(p, version);
            decode::packet_from(first, packet_type, body, version) == Ok::<PacketView, MqttError>(
                on_wire(p, version),
            )
        }),
{
    reveal(decode::packet_from);
    match p {
        PacketView::Connect(c) => {
            connect_round_trip(c);
        },
        PacketView::Connack(c) => {
            connack_round_trip(c, version);
        },
        PacketView::Publish(p) => {
            publish_round_trip(p, version);
        },
        PacketView::Puback(id) => {
            ack_round_trip(version, 0x40, PacketType::Puback, id);
        },
        PacketView::Pubrec(id) => {
            ack_round_trip(version, 0x50, PacketType::Pubrec, id);
        },
        PacketView::Pubrel(id) => {
            ack_round_trip(version, 0x62, PacketType::Pubrel, id);
        },
        PacketView::Pubcomp(id) => {
            ack_round_trip(version, 0x70, PacketType::Pubcomp, id);
        },
        PacketView::Subscribe(s) => {
            subscribe_round_trip(s, version);
        },
        PacketView::Suback(s) => {
            suback_round_trip(s, version);
        },
        PacketView::Unsubscribe(u) => {
            unsubscribe_round_trip(u, version);
        },
        PacketView::Unsuback(u) => {
            unsuback_round_trip(u, version);
        },
        PacketView::Pingreq => {},
        PacketView::Pingresp => {},
        PacketView::Disconnect => {},
    }
}

proof fn packets_are_typed(p: Packet)
    ensures
        typed(p@),
{
    match p {
        Packet::Connect(c) => {
            properties::blocks_are_well_typed(c.properties);
            if let Some(w) = c.will {
                properties::blocks_are_well_typed(w.properties);
            }
        },
        Packet::Connack(c) => {
            properties::blocks_are_well_typed(c.properties);
        },
        Packet::Publish(p) => {
            properties::blocks_are_well_typed(p.properties);
        },
        _ => {},
    }
}

/// The longest frame: the first byte, four bytes of Remaining Length, and a body
/// of the length that those can express.
pub open spec fn max_frame() -> int {
    5 + wire::MAX_VARIABLE_BYTE_INTEGER
}

proof fn body_is_short(first: u8, body: Seq<u8>)
    requires
        encode::frame(first, body).len() <= max_frame(),
    ensures
        body.len() <= wire::MAX_VARIABLE_BYTE_INTEGER,
{
    if body.len() > wire::MAX_VARIABLE_BYTE_INTEGER {
        wire::vbi_length_beyond(body.len());
    }
}

/// Decoding an encoded packet gives back the packet, as far as its version
/// carries it, and leaves the bytes that follow.
pub proof fn packet_round_trip(p: Packet, version: ProtocolVersion, rest: Seq<u8>)
    requires
        fits(p@, version),
        encode::packet_bytes(p@, version) is Ok,
        encode::packet_bytes(p@, version).unwrap().len() <= max_frame(),
    ensures
        decode::take_packet(encode::packet_bytes(p@, version).unwrap() + rest, version) == (
        decode::Decoded { packet: Ok(Some(on_wire(p@, version))), rest }),
{
    let (first, packet_type, body) = parts(p@, version);
    packets_are_typed(p);
    packet_is_a_frame(p@, version);
    body_is_short(first, body);
    body_round_trip(p@, version);
    frame_round_trip(first, packet_type, body, version, rest);
}

/// A packet that has arrived in part only is left in the buffer: decoding asks
/// for more bytes and takes nothing.
pub proof fn partial_packet_waits(p: Packet, version: ProtocolVersion, k: int)
    requires
        encode::packet_bytes(p@, version) is Ok,
        encode::packet_bytes(p@, version).unwrap().len() <= max_frame(),
        0 <= k < encode::packet_bytes(p@, version).unwrap().len(),
    ensures
        ({
            let s = encode::packet_bytes(p@, version).unwrap().take(k);
            decode::take_packet(s, version) == (decode::Decoded { packet: Ok(None), rest: s })
        }),
{
    let (first, packet_type, body) = parts(p@, version);
    packet_is_a_frame(p@, version);
    body_is_short(first, body);
    let whole = encode::frame(first, body);
    let length = wire::vbi_bytes(body.len());
    let s = whole.take(k);
    wire::vbi_length(body.len());
    if k >= 2 {
        assert(s[0] == first);
        if k - 1 < length.len() {
            assert(s.skip(1) =~= length.take(k - 1));
            wire::length_prefix_waits(body.len(), 4, k - 1);
        } else {
            let part = body.take(k - 1 - length.len());
            assert(s.skip(1) =~= length + part);
            wire::length_round_trip(body.len(), part);
        }
    }
}

/// Bytes that arrive later do not change what has been decoded: once decoding
/// has given a packet or an error, the same comes out with more bytes behind.
pub proof fn decoding_reads_no_further(s: Seq<u8>, version: ProtocolVersion, more: Seq<u8>)
    requires
        decode::take_packet(s, version).packet != Ok::<Option<PacketView>, MqttError>(None),
    ensures
        decode::take_packet(s + more, version).packet == decode::take_packet(s, version).packet,
        decode::take_packet(s + more, version).rest == decode::take_packet(s, version).rest + more,
{
    let t = s + more;
    assert(t[0] == s[0]);
    assert(t.skip(1) =~= s.skip(1) + more);
    wire::length_reads_no_further(s.skip(1), 4, more);
    if let Ok(packet_type) = packet::type_from(s[0] / 16) {
        if let Ok(Some((n, after))) = wire::take_length(s.skip(1)) {
            assert((after + more).take(n as int) =~= after.take(n as int));
            assert((after + more).skip(n as int) =~= after.skip(n as int) + more);
        }
    }
}

/// Decoding takes bytes off the front of the buffer and leaves the others.
pub proof fn decoding_leaves_a_suffix(s: Seq<u8>, version: ProtocolVersion)
    ensures
        decode::take_packet(s, version).rest.is_suffix_of(s),
{
    let rest = decode::take_packet(s, version).rest;
    if s.len() >= 2 {
        wire::length_leaves_a_suffix(s.skip(1), 4);
        if let Ok(Some((n, after))) = wire::take_length(s.skip(1)) {
            if after.len() >= n {
                assert(after.skip(n as int) =~= s.skip(s.len() - after.len() + n));
            }
        }
    }
    assert(rest =~= s.skip(s.len() - rest.len()));
}

/// Writing the header of a PUBLISH and then its payload writes the encoded
/// packet.
pub proof fn publish_header_and_payload(p: PublishView, version: ProtocolVersion)
    ensures
        encode::publish_header(p, version) matches Ok(h) ==> encode::packet_bytes(
            PacketView::Publish(p),
            version,
        ) == Ok::<Seq<u8>, MqttError>(h + p.payload),
{
    if let Ok(h) = encode::publish_header(p, version) {
        let variable = encode::publish_variable_header(p, version).unwrap();
        assert(h + p.payload =~= encode::frame(encode::publish_first(p), variable + p.payload));
    }
}

/// CONNECT establishes the version of a connection: the version that it is
/// encoded or decoded under makes no difference.
pub proof fn connect_carries_its_version(
    c: ConnectView,
    first: u8,
    body: Seq<u8>,
    a: ProtocolVersion,
    b: ProtocolVersion,
)
    ensures
        encode::packet_bytes(PacketView::Connect(c), a) == encode::packet_bytes(
            PacketView::Connect(c),
            b,
        ),
        decode::packet_from(first, PacketType::Connect, body, a) == decode::packet_from(
            first,
            PacketType::Connect,
            body,
            b,
        ),
{
    reveal(decode::packet_from);
}

} // verus!
