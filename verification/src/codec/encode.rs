//! Packets to bytes.

use std::sync::Arc;

use bytes::Bytes;
use vstd::prelude::*;

use crate::buffers;
use crate::error::{CodecError, MqttError};
use crate::packet;
use crate::packet::{
    ConnackPacket, ConnackView, ConnectPacket, ConnectView, Packet, PacketView, ProtocolVersion,
    PublishPacket, PublishView, SubackPacket, SubackView, SubscribePacket, SubscribeView,
    UnsubackPacket, UnsubackView, UnsubscribePacket, UnsubscribeView, WillPacket, WillView,
};
use crate::properties;
use crate::properties::{Properties, PropertiesView};
use crate::request;
use crate::request::{PacketId, QoS, SubackCode};
use crate::wire;

verus! {

// ----------------------------------------------------------------------------
// Model
// ----------------------------------------------------------------------------

/// A whole packet: the first byte, the Remaining Length, the body.
pub open spec fn frame(first: u8, body: Seq<u8>) -> Seq<u8> {
    seq![first] + (wire::vbi_bytes(body.len()) + body)
}

/// A property block, which only MQTT 5 has.
pub open spec fn opt_block_bytes(version: ProtocolVersion, m: PropertiesView) -> Result<
    Seq<u8>,
    MqttError,
> {
    match version {
        ProtocolVersion::V311 => Ok(Seq::empty()),
        ProtocolVersion::V5 => properties::block_bytes(m),
    }
}

/// The empty property block, which only MQTT 5 has.
pub open spec fn no_properties(version: ProtocolVersion) -> Seq<u8> {
    match version {
        ProtocolVersion::V311 => Seq::empty(),
        ProtocolVersion::V5 => seq![0u8],
    }
}

/// A bit with the given weight.
pub open spec fn bit(set: bool, weight: u8) -> int {
    if set {
        weight as int
    } else {
        0
    }
}

/// The flags byte of CONNECT: user name 128, password 64, will retain 32, will
/// QoS 8 and 16, will 4, clean session 2.
pub open spec fn connect_flags(c: ConnectView) -> u8 {
    (bit(c.clean_session, 2) + (match c.will {
        Some(w) => 4 + 8 * request::qos_number(w.qos) + bit(w.retain, 32),
        None => 0,
    }) + bit(c.username is Some, 128) + bit(c.password is Some, 64)) as u8
}

/// The fixed part of a CONNECT body.
pub open spec fn connect_head(c: ConnectView) -> Seq<u8> {
    seq![0u8, 4u8, 0x4Du8, 0x51u8, 0x54u8, 0x54u8, packet::version_level(c.version), connect_flags(
        c,
    )] + wire::u16_bytes(c.keep_alive)
}

/// The will, without its flags.
pub open spec fn will_bytes(version: ProtocolVersion, will: Option<WillView>) -> Result<
    Seq<u8>,
    MqttError,
> {
    match will {
        None => Ok(Seq::empty()),
        Some(w) => match opt_block_bytes(version, w.properties) {
            Err(e) => Err(e),
            Ok(b) => Ok(b + wire::prefixed_text(w.topic) + wire::prefixed(w.payload)),
        },
    }
}

pub open spec fn opt_text_bytes(t: Option<Seq<char>>) -> Seq<u8> {
    match t {
        Some(c) => wire::prefixed_text(c),
        None => Seq::empty(),
    }
}

pub open spec fn opt_binary_bytes(b: Option<Seq<u8>>) -> Seq<u8> {
    match b {
        Some(b) => wire::prefixed(b),
        None => Seq::empty(),
    }
}

pub open spec fn connect_body(c: ConnectView) -> Result<Seq<u8>, MqttError> {
    match opt_block_bytes(c.version, c.properties) {
        Err(e) => Err(e),
        Ok(b) => match will_bytes(c.version, c.will) {
            Err(e) => Err(e),
            Ok(w) => Ok(
                connect_head(c) + (b + (wire::prefixed_text(c.client_id) + (w + (opt_text_bytes(
                    c.username,
                ) + opt_binary_bytes(c.password))))),
            ),
        },
    }
}

pub open spec fn connack_body(c: ConnackView, version: ProtocolVersion) -> Result<
    Seq<u8>,
    MqttError,
> {
    let present: u8 = if c.session_present {
        1
    } else {
        0
    };
    match version {
        ProtocolVersion::V311 => Ok(seq![present, packet::connack_number(c.return_code)]),
        ProtocolVersion::V5 => match properties::block_bytes(c.properties) {
            Err(e) => Err(e),
            Ok(b) => Ok(seq![present, packet::connack_reason(c.return_code)] + b),
        },
    }
}

/// The first byte of PUBLISH: the type, DUP 8, QoS 2 and 4, RETAIN 1.
pub open spec fn publish_first(p: PublishView) -> u8 {
    (0x30 + bit(p.dup, 8) + 2 * request::qos_number(p.qos) + bit(p.retain, 1)) as u8
}

/// The packet identifier, which stands there at QoS 1 and 2 only.
pub open spec fn publish_id(p: PublishView) -> Seq<u8> {
    match (p.qos, p.packet_id) {
        (QoS::AtMostOnce, _) => Seq::empty(),
        (_, Some(id)) => wire::u16_bytes(id),
        (_, None) => Seq::empty(),
    }
}

/// What a PUBLISH body holds before the payload.
pub open spec fn publish_variable_header(p: PublishView, version: ProtocolVersion) -> Result<
    Seq<u8>,
    MqttError,
> {
    match opt_block_bytes(version, p.properties) {
        Err(e) => Err(e),
        Ok(b) => Ok(wire::prefixed_text(p.topic) + (publish_id(p) + b)),
    }
}

pub open spec fn publish_body(p: PublishView, version: ProtocolVersion) -> Result<
    Seq<u8>,
    MqttError,
> {
    match publish_variable_header(p, version) {
        Err(e) => Err(e),
        Ok(h) => Ok(h + p.payload),
    }
}

/// Everything that is written before the payload of a PUBLISH. At QoS 1 and 2
/// a packet without an identifier is refused.
pub open spec fn publish_header(p: PublishView, version: ProtocolVersion) -> Result<
    Seq<u8>,
    MqttError,
> {
    match publish_variable_header(p, version) {
        Err(e) => Err(e),
        Ok(h) => if p.qos != QoS::AtMostOnce && p.packet_id is None {
            Err(MqttError::Codec(CodecError::PayloadTooLong { len: 0, max: 0 }))
        } else {
            Ok(seq![publish_first(p)] + (wire::vbi_bytes(h.len() + p.payload.len()) + h))
        },
    }
}

pub open spec fn subscription_bytes(v: Seq<(Seq<char>, QoS)>) -> Seq<u8>
    decreases v.len(),
{
    if v.len() == 0 {
        Seq::empty()
    } else {
        subscription_bytes(v.drop_last()) + (wire::prefixed_text(v.last().0) + seq![
            request::qos_number(v.last().1),
        ])
    }
}

pub open spec fn subscribe_body(s: SubscribeView, version: ProtocolVersion) -> Seq<u8> {
    wire::u16_bytes(s.packet_id) + (no_properties(version) + subscription_bytes(s.subscriptions))
}

pub open spec fn code_bytes(v: Seq<SubackCode>) -> Seq<u8> {
    v.map_values(|c: SubackCode| request::suback_number(c))
}

pub open spec fn suback_body(s: SubackView, version: ProtocolVersion) -> Seq<u8> {
    wire::u16_bytes(s.packet_id) + (no_properties(version) + code_bytes(s.return_codes))
}

pub open spec fn topic_bytes(v: Seq<Seq<char>>) -> Seq<u8>
    decreases v.len(),
{
    if v.len() == 0 {
        Seq::empty()
    } else {
        topic_bytes(v.drop_last()) + wire::prefixed_text(v.last())
    }
}

pub open spec fn unsubscribe_body(u: UnsubscribeView, version: ProtocolVersion) -> Seq<u8> {
    wire::u16_bytes(u.packet_id) + (no_properties(version) + topic_bytes(u.topics))
}

pub open spec fn unsuback_body(u: UnsubackView, version: ProtocolVersion) -> Seq<u8> {
    match version {
        ProtocolVersion::V311 => wire::u16_bytes(u.packet_id),
        ProtocolVersion::V5 => wire::u16_bytes(u.packet_id) + (seq![0u8] + u.reason_codes),
    }
}

/// A frame around a body that may have no encoding.
pub open spec fn framed(first: u8, body: Result<Seq<u8>, MqttError>) -> Result<
    Seq<u8>,
    MqttError,
> {
    match body {
        Err(e) => Err(e),
        Ok(b) => Ok(frame(first, b)),
    }
}

/// The encoding of a packet on a connection of the given version. CONNECT goes
/// by the version that it carries.
pub open spec fn packet_bytes(p: PacketView, version: ProtocolVersion) -> Result<
    Seq<u8>,
    MqttError,
> {
    match p {
        PacketView::Connect(c) => framed(0x10, connect_body(c)),
        PacketView::Connack(c) => framed(0x20, connack_body(c, version)),
        PacketView::Publish(p) => framed(publish_first(p), publish_body(p, version)),
        PacketView::Puback(id) => Ok(frame(0x40, wire::u16_bytes(id))),
        PacketView::Pubrec(id) => Ok(frame(0x50, wire::u16_bytes(id))),
        PacketView::Pubrel(id) => Ok(frame(0x62, wire::u16_bytes(id))),
        PacketView::Pubcomp(id) => Ok(frame(0x70, wire::u16_bytes(id))),
        PacketView::Subscribe(s) => Ok(frame(0x82, subscribe_body(s, version))),
        PacketView::Suback(s) => Ok(frame(0x90, suback_body(s, version))),
        PacketView::Unsubscribe(u) => Ok(frame(0xA2, unsubscribe_body(u, version))),
        PacketView::Unsuback(u) => Ok(frame(0xB0, unsuback_body(u, version))),
        PacketView::Pingreq => Ok(frame(0xC0, Seq::empty())),
        PacketView::Pingresp => Ok(frame(0xD0, Seq::empty())),
        PacketView::Disconnect => Ok(frame(0xE0, Seq::empty())),
    }
}

// ----------------------------------------------------------------------------
// Encoders
// ----------------------------------------------------------------------------

/// What an encoder returns, given what the model says.
pub open spec fn writes(want: Result<Seq<u8>, MqttError>, got: Result<Vec<u8>, MqttError>) -> bool {
    match want {
        Ok(b) => got matches Ok(v) && v@ == b,
        Err(e) => got == Err::<Vec<u8>, MqttError>(e),
    }
}

/// Puts the first byte and the Remaining Length before a body.
fn enclose(first: u8, body: &Vec<u8>) -> (r: Vec<u8>)
    ensures
        r@ == frame(first, body@),
{
    let mut out: Vec<u8> = Vec::new();
    out.push(first);
    wire::write_length(&mut out, body.len() as u128);
    wire::write_bytes(&mut out, body.as_slice());
    assert(out@ =~= frame(first, body@));
    out
}

fn write_opt_block(version: ProtocolVersion, m: &Properties, body: &mut Vec<u8>) -> (r: Result<
    (),
    MqttError,
>)
    ensures
        match opt_block_bytes(version, m@) {
            Ok(b) => r is Ok && final(body)@ == old(body)@ + b,
            Err(e) => r == Err::<(), MqttError>(e),
        },
{
    match version {
        ProtocolVersion::V311 => {
            assert(body@ =~= body@ + Seq::<u8>::empty());
            Ok(())
        },
        ProtocolVersion::V5 => m.encode(body),
    }
}

fn write_no_properties(version: ProtocolVersion, body: &mut Vec<u8>)
    ensures
        final(body)@ == old(body)@ + no_properties(version),
{
    let ghost before = body@;
    match version {
        ProtocolVersion::V311 => {},
        ProtocolVersion::V5 => {
            proof {
                properties::empty_block_is_one_byte();
            }
            let _written = Properties::default().encode(body);
        },
    }
    assert(body@ =~= before + no_properties(version));
}

/// The weight of a flag that is set.
fn weight(set: bool, value: u8) -> (r: u8)
    ensures
        r == bit(set, value),
{
    if set {
        value
    } else {
        0
    }
}

fn pack_connect_flags(conn: &ConnectPacket) -> (r: u8)
    ensures
        r == connect_flags(conn@),
{
    let mut flags: u8 = weight(conn.clean_session, 2);
    if let Some(will) = &conn.will {
        flags = flags + 4 + 8 * will.qos.as_u8() + weight(will.retain, 32);
    }
    flags = flags + weight(conn.username.is_some(), 128);
    flags + weight(conn.password.is_some(), 64)
}

fn write_will(version: ProtocolVersion, will: &Option<WillPacket>, body: &mut Vec<u8>) -> (r:
    Result<(), MqttError>)
    ensures
        match will_bytes(version, packet::opt_will(*will)) {
            Ok(b) => r is Ok && final(body)@ == old(body)@ + b,
            Err(e) => r == Err::<(), MqttError>(e),
        },
{
    let ghost before = body@;
    if let Some(w) = will {
        match write_opt_block(version, &w.properties, body) {
            Ok(_) => {},
            Err(e) => {
                return Err(e);
            },
        }
        wire::write_arc_str(body, &w.topic);
        wire::write_short_prefixed(body, buffers::bytes_slice(&w.payload));
    }
    proof {
        if let Ok(b) = will_bytes(version, packet::opt_will(*will)) {
            assert(body@ =~= before + b);
        }
    }
    Ok(())
}

fn write_opt_text(t: &Option<Arc<str>>, body: &mut Vec<u8>)
    ensures
        final(body)@ == old(body)@ + opt_text_bytes(wire::opt_text(*t)),
{
    let ghost before = body@;
    if let Some(s) = t {
        wire::write_arc_str(body, s);
    }
    assert(body@ =~= before + opt_text_bytes(wire::opt_text(*t)));
}

fn write_opt_binary(b: &Option<Bytes>, body: &mut Vec<u8>)
    ensures
        final(body)@ == old(body)@ + opt_binary_bytes(buffers::opt_payload(*b)),
{
    let ghost before = body@;
    if let Some(b) = b {
        wire::write_short_prefixed(body, buffers::bytes_slice(b));
    }
    assert(body@ =~= before + opt_binary_bytes(buffers::opt_payload(*b)));
}

proof fn joined(a: Seq<u8>, b: Seq<u8>, c: Seq<u8>, d: Seq<u8>, e: Seq<u8>, f: Seq<u8>)
    ensures
        a + b + c + d + e + f == a + (b + (c + (d + (e + f)))),
{
    assert(a + b + c + d + e + f =~= a + (b + (c + (d + (e + f)))));
}

pub fn encode_connect(conn: &ConnectPacket) -> (r: Result<Vec<u8>, MqttError>)
    ensures
        writes(framed(0x10, connect_body(conn@)), r),
{
    let mut body: Vec<u8> = vec![0x00, 0x04, 0x4D, 0x51, 0x54, 0x54];
    body.push(conn.version.level());
    body.push(pack_connect_flags(conn));
    wire::write_u16(&mut body, conn.keep_alive);
    assert(body@ =~= connect_head(conn@));
    match write_opt_block(conn.version, &conn.properties, &mut body) {
        Ok(_) => {},
        Err(e) => {
            return Err(e);
        },
    }
    wire::write_arc_str(&mut body, &conn.client_id);
    match write_will(conn.version, &conn.will, &mut body) {
        Ok(_) => {},
        Err(e) => {
            return Err(e);
        },
    }
    write_opt_text(&conn.username, &mut body);
    write_opt_binary(&conn.password, &mut body);
    proof {
        joined(
            connect_head(conn@),
            opt_block_bytes(conn.version, conn@.properties).unwrap(),
            wire::prefixed_text(conn@.client_id),
            will_bytes(conn.version, conn@.will).unwrap(),
            opt_text_bytes(conn@.username),
            opt_binary_bytes(conn@.password),
        );
    }
    Ok(enclose(0x10, &body))
}

pub fn encode_connack(ack: &ConnackPacket, version: ProtocolVersion) -> (r: Result<
    Vec<u8>,
    MqttError,
>)
    ensures
        writes(framed(0x20, connack_body(ack@, version)), r),
{
    let mut body: Vec<u8> = Vec::new();
    body.push(weight(ack.session_present, 1));
    match version {
        ProtocolVersion::V311 => {
            body.push(ack.return_code.as_u8());
        },
        ProtocolVersion::V5 => {
            body.push(ack.return_code.to_v5_reason());
            match ack.properties.encode(&mut body) {
                Ok(_) => {},
                Err(e) => {
                    return Err(e);
                },
            }
        },
    }
    assert(body@ =~= connack_body(ack@, version).unwrap());
    Ok(enclose(0x20, &body))
}

fn pack_publish_first(p: &PublishPacket) -> (r: u8)
    ensures
        r == publish_first(p@),
{
    0x30 + weight(p.dup, 8) + 2 * p.qos.as_u8() + weight(p.retain, 1)
}

/// Writes what a PUBLISH body holds before the payload.
fn write_publish_variable_header(
    p: &PublishPacket,
    version: ProtocolVersion,
    body: &mut Vec<u8>,
) -> (r: Result<(), MqttError>)
    ensures
        match publish_variable_header(p@, version) {
            Ok(h) => r is Ok && final(body)@ == old(body)@ + h,
            Err(e) => r == Err::<(), MqttError>(e),
        },
{
    let ghost before = body@;
    wire::write_arc_str(body, &p.topic);
    if p.qos != QoS::AtMostOnce {
        if let Some(id) = p.packet_id {
            wire::write_u16(body, id);
        }
    }
    match write_opt_block(version, &p.properties, body) {
        Ok(_) => {},
        Err(e) => {
            return Err(e);
        },
    }
    assert(body@ =~= before + publish_variable_header(p@, version).unwrap());
    Ok(())
}

pub fn encode_publish(p: &PublishPacket, version: ProtocolVersion) -> (r: Result<
    Vec<u8>,
    MqttError,
>)
    ensures
        writes(framed(publish_first(p@), publish_body(p@, version)), r),
{
    let mut body: Vec<u8> = Vec::new();
    match write_publish_variable_header(p, version, &mut body) {
        Ok(_) => {},
        Err(e) => {
            return Err(e);
        },
    }
    wire::write_bytes(&mut body, buffers::bytes_slice(&p.payload));
    assert(body@ =~= publish_body(p@, version).unwrap());
    Ok(enclose(pack_publish_first(p), &body))
}

/// Encodes a PUBLISH up to its payload, for a writer that sends the payload
/// straight from its own buffer afterwards.
pub fn encode_publish_header(p: &PublishPacket, version: ProtocolVersion) -> (r: Result<
    Vec<u8>,
    MqttError,
>)
    ensures
        writes(publish_header(p@, version), r),
{
    let mut variable: Vec<u8> = Vec::new();
    match write_publish_variable_header(p, version, &mut variable) {
        Ok(_) => {},
        Err(e) => {
            return Err(e);
        },
    }
    if p.qos != QoS::AtMostOnce && p.packet_id.is_none() {
        return Err(MqttError::Codec(CodecError::PayloadTooLong { len: 0, max: 0 }));
    }
    assert(variable@ =~= publish_variable_header(p@, version).unwrap());
    let length: u128 = variable.len() as u128 + buffers::bytes_slice(&p.payload).len() as u128;
    let mut out: Vec<u8> = Vec::new();
    out.push(pack_publish_first(p));
    wire::write_length(&mut out, length);
    wire::write_bytes(&mut out, variable.as_slice());
    assert(out@ =~= publish_header(p@, version).unwrap());
    Ok(out)
}

pub fn encode_subscribe(s: &SubscribePacket, version: ProtocolVersion) -> (r: Vec<u8>)
    ensures
        r@ == frame(0x82, subscribe_body(s@, version)),
{
    let mut body: Vec<u8> = Vec::new();
    wire::write_u16(&mut body, s.packet_id);
    write_no_properties(version, &mut body);
    let ghost head = body@;
    let ghost subs = s@.subscriptions;
    let mut i: usize = 0;
    assert(head + subscription_bytes(subs.take(0)) =~= head);
    while i < s.subscriptions.len()
        invariant
            subs == s@.subscriptions,
            i <= subs.len(),
            body@ == head + subscription_bytes(subs.take(i as int)),
        decreases subs.len() - i,
    {
        wire::write_arc_str(&mut body, &s.subscriptions[i].topic);
        body.push(s.subscriptions[i].qos.as_u8());
        proof {
            let next = subs.take(i + 1);
            assert(next.drop_last() =~= subs.take(i as int));
            assert(next.last() == s.subscriptions@[i as int]@);
            assert(body@ =~= head + subscription_bytes(next));
        }
        i += 1;
    }
    assert(subs.take(i as int) =~= subs);
    assert(body@ =~= subscribe_body(s@, version));
    enclose(0x82, &body)
}

pub fn encode_suback(s: &SubackPacket, version: ProtocolVersion) -> (r: Vec<u8>)
    ensures
        r@ == frame(0x90, suback_body(s@, version)),
{
    let mut body: Vec<u8> = Vec::new();
    wire::write_u16(&mut body, s.packet_id);
    write_no_properties(version, &mut body);
    let ghost head = body@;
    let mut i: usize = 0;
    assert(head + code_bytes(s.return_codes@.take(0)) =~= head);
    while i < s.return_codes.len()
        invariant
            i <= s.return_codes@.len(),
            body@ == head + code_bytes(s.return_codes@.take(i as int)),
        decreases s.return_codes@.len() - i,
    {
        body.push(s.return_codes[i].as_u8());
        assert(body@ =~= head + code_bytes(s.return_codes@.take(i + 1)));
        i += 1;
    }
    assert(s.return_codes@.take(i as int) =~= s.return_codes@);
    assert(body@ =~= suback_body(s@, version));
    enclose(0x90, &body)
}

pub fn encode_unsubscribe(u: &UnsubscribePacket, version: ProtocolVersion) -> (r: Vec<u8>)
    ensures
        r@ == frame(0xA2, unsubscribe_body(u@, version)),
{
    let mut body: Vec<u8> = Vec::new();
    wire::write_u16(&mut body, u.packet_id);
    write_no_properties(version, &mut body);
    let ghost head = body@;
    let ghost topics = u@.topics;
    let mut i: usize = 0;
    assert(head + topic_bytes(topics.take(0)) =~= head);
    while i < u.topics.len()
        invariant
            topics == u@.topics,
            i <= topics.len(),
            body@ == head + topic_bytes(topics.take(i as int)),
        decreases topics.len() - i,
    {
        wire::write_arc_str(&mut body, &u.topics[i]);
        proof {
            let next = topics.take(i + 1);
            assert(next.drop_last() =~= topics.take(i as int));
            assert(next.last() == wire::text(u.topics@[i as int]));
            assert(body@ =~= head + topic_bytes(next));
        }
        i += 1;
    }
    assert(topics.take(i as int) =~= topics);
    assert(body@ =~= unsubscribe_body(u@, version));
    enclose(0xA2, &body)
}

pub fn encode_unsuback(packet: &UnsubackPacket, version: ProtocolVersion) -> (r: Vec<u8>)
    ensures
        r@ == frame(0xB0, unsuback_body(packet@, version)),
{
    let mut body: Vec<u8> = Vec::new();
    wire::write_u16(&mut body, packet.packet_id);
    if let ProtocolVersion::V5 = version {
        body.push(0x00);
        wire::write_bytes(&mut body, packet.reason_codes.as_slice());
    }
    assert(body@ =~= unsuback_body(packet@, version));
    enclose(0xB0, &body)
}

fn encode_id(first: u8, id: PacketId) -> (r: Vec<u8>)
    ensures
        r@ == frame(first, wire::u16_bytes(id)),
{
    let mut body: Vec<u8> = Vec::new();
    wire::write_u16(&mut body, id);
    assert(body@ =~= wire::u16_bytes(id));
    enclose(first, &body)
}

fn encode_bare(first: u8) -> (r: Vec<u8>)
    ensures
        r@ == frame(first, Seq::empty()),
{
    let body: Vec<u8> = Vec::new();
    enclose(first, &body)
}

/// Encodes any packet for a connection of the given version.
pub fn encode_packet(packet: &Packet, version: ProtocolVersion) -> (r: Result<Vec<u8>, MqttError>)
    ensures
        writes(packet_bytes(packet@, version), r),
{
    match packet {
        // CONNECT carries its own version and establishes that of the connection.
        Packet::Connect(c) => encode_connect(&**c),
        Packet::Connack(c) => encode_connack(c, version),
        Packet::Publish(p) => encode_publish(p, version),
        Packet::Puback(id) => Ok(encode_id(0x40, *id)),
        Packet::Pubrec(id) => Ok(encode_id(0x50, *id)),
        Packet::Pubrel(id) => Ok(encode_id(0x62, *id)),
        Packet::Pubcomp(id) => Ok(encode_id(0x70, *id)),
        Packet::Subscribe(s) => Ok(encode_subscribe(s, version)),
        Packet::Suback(s) => Ok(encode_suback(s, version)),
        Packet::Unsubscribe(u) => Ok(encode_unsubscribe(u, version)),
        Packet::Unsuback(u) => Ok(encode_unsuback(u, version)),
        Packet::Pingreq => Ok(encode_bare(0xC0)),
        Packet::Pingresp => Ok(encode_bare(0xD0)),
        Packet::Disconnect => Ok(encode_bare(0xE0)),
    }
}

} // verus!
