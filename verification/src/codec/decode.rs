//! Bytes to packets.

use std::sync::Arc;

use bytes::{Bytes, BytesMut};
use vstd::prelude::*;

use crate::buffers;
use crate::error::{CodecError, MqttError, Violation};
use crate::packet;
use crate::packet::{
    ConnackPacket, ConnackReturnCode, ConnackView, ConnectPacket, ConnectView, Packet, PacketType,
    PacketView, ProtocolVersion, PublishPacket, PublishView, SubackPacket, SubackView,
    SubscribePacket, SubscribeView, TopicSubscription, UnsubackPacket, UnsubackView,
    UnsubscribePacket, UnsubscribeView, WillPacket, WillView,
};
use crate::properties;
use crate::properties::{Properties, PropertiesView};
use crate::request;
use crate::request::{QoS, SubackCode};
use crate::wire;

verus! {

// ----------------------------------------------------------------------------
// Model
// ----------------------------------------------------------------------------

pub open spec fn too_long(len: int, max: usize) -> MqttError {
    MqttError::Codec(CodecError::PayloadTooLong { len: len as usize, max })
}

pub open spec fn invalid_type(v: u8) -> MqttError {
    MqttError::Codec(CodecError::InvalidPacketType(v))
}

pub open spec fn reserved_flag() -> MqttError {
    MqttError::Codec(CodecError::ReservedFlagSet)
}

/// Whether the bit with the given weight is set.
pub open spec fn flag(b: u8, weight: u8) -> bool {
    (b / weight) % 2 == 1
}

/// A property block, which only MQTT 5 has.
pub open spec fn take_opt_block(version: ProtocolVersion, s: Seq<u8>) -> Result<
    (PropertiesView, Seq<u8>),
    MqttError,
> {
    match version {
        ProtocolVersion::V311 => Ok((PropertiesView::empty(), s)),
        ProtocolVersion::V5 => properties::take_block(s),
    }
}

/// Nothing may follow.
pub open spec fn end_of_body(rest: Seq<u8>) -> Result<(), MqttError> {
    if rest.len() == 0 {
        Ok(())
    } else {
        Err(too_long(rest.len() as int, 0))
    }
}

/// The will, when the flags byte of CONNECT says that there is one.
pub open spec fn take_will(version: ProtocolVersion, flags: u8, s: Seq<u8>) -> Result<
    (Option<WillView>, Seq<u8>),
    MqttError,
> {
    if !flag(flags, 4) {
        Ok((None, s))
    } else {
        match take_opt_block(version, s) {
            Err(e) => Err(e),
            Ok((properties, s1)) => match wire::take_text(s1) {
                Err(e) => Err(e),
                Ok((topic, s2)) => match wire::take_prefixed(s2) {
                    Err(e) => Err(e),
                    Ok((payload, s3)) => match request::qos_from((flags / 8) % 4) {
                        None => Err(MqttError::Codec(CodecError::QosInvalid((flags / 8) % 4))),
                        Some(qos) => Ok(
                            (
                                Some(
                                    WillView {
                                        properties,
                                        topic,
                                        payload,
                                        qos,
                                        retain: flag(flags, 32),
                                    },
                                ),
                                s3,
                            ),
                        ),
                    },
                },
            },
        }
    }
}

/// Text that is there when its flag is set.
pub open spec fn take_opt_text(there: bool, s: Seq<u8>) -> Result<
    (Option<Seq<char>>, Seq<u8>),
    MqttError,
> {
    if !there {
        Ok((None, s))
    } else {
        match wire::take_text(s) {
            Err(e) => Err(e),
            Ok((c, rest)) => Ok((Some(c), rest)),
        }
    }
}

/// Binary data that is there when its flag is set.
pub open spec fn take_opt_binary(there: bool, s: Seq<u8>) -> Result<
    (Option<Seq<u8>>, Seq<u8>),
    MqttError,
> {
    if !there {
        Ok((None, s))
    } else {
        match wire::take_prefixed(s) {
            Err(e) => Err(e),
            Ok((b, rest)) => Ok((Some(b), rest)),
        }
    }
}

/// The protocol name in a CONNECT body, with its length.
pub open spec fn protocol_name() -> Seq<u8> {
    seq![0u8, 4u8, 0x4Du8, 0x51u8, 0x54u8, 0x54u8]
}

/// What follows the fixed part of a CONNECT body.
pub open spec fn connect_payload(
    version: ProtocolVersion,
    flags: u8,
    keep_alive: u16,
    s: Seq<u8>,
) -> Result<ConnectView, MqttError> {
    match take_opt_block(version, s) {
        Err(e) => Err(e),
        Ok((properties, s1)) => match wire::take_text(s1) {
            Err(e) => Err(e),
            Ok((client_id, s2)) => match take_will(version, flags, s2) {
                Err(e) => Err(e),
                Ok((will, s3)) => match take_opt_text(flag(flags, 128), s3) {
                    Err(e) => Err(e),
                    Ok((username, s4)) => match take_opt_binary(flag(flags, 64), s4) {
                        Err(e) => Err(e),
                        Ok((password, _)) => Ok(
                            ConnectView {
                                version,
                                properties,
                                client_id,
                                clean_session: flag(flags, 2),
                                keep_alive,
                                username,
                                password,
                                will,
                            },
                        ),
                    },
                },
            },
        },
    }
}

pub open spec fn connect_from(body: Seq<u8>) -> Result<PacketView, MqttError> {
    if body.len() < 10 {
        Err(wire::eof())
    } else if body.take(6) != protocol_name() {
        Err(MqttError::Protocol(Violation::InvalidProtocolName))
    } else {
        match packet::version_from(body[6]) {
            None => Err(MqttError::Protocol(Violation::UnsupportedProtocolLevel(body[6]))),
            Some(version) => match connect_payload(
                version,
                body[7],
                (body[8] * 256 + body[9]) as u16,
                body.skip(10),
            ) {
                Err(e) => Err(e),
                Ok(c) => Ok(PacketView::Connect(c)),
            },
        }
    }
}

/// The return code in a CONNACK.
pub open spec fn return_code(version: ProtocolVersion, v: u8) -> Option<ConnackReturnCode> {
    match version {
        ProtocolVersion::V311 => match packet::connack_from(v) {
            Ok(c) => Some(c),
            Err(_) => None,
        },
        ProtocolVersion::V5 => packet::connack_from_reason(v),
    }
}

pub open spec fn connack_from(version: ProtocolVersion, body: Seq<u8>) -> Result<
    PacketView,
    MqttError,
> {
    if body.len() < 2 {
        Err(wire::eof())
    } else {
        match return_code(version, body[1]) {
            None => Err(invalid_type(body[1])),
            Some(code) => match take_opt_block(version, body.skip(2)) {
                Err(e) => Err(e),
                Ok((properties, rest)) => match end_of_body(rest) {
                    Err(e) => Err(e),
                    Ok(_) => Ok(
                        PacketView::Connack(
                            ConnackView {
                                properties,
                                session_present: flag(body[0], 1),
                                return_code: code,
                            },
                        ),
                    ),
                },
            },
        }
    }
}

/// The packet identifier, which stands there at QoS 1 and 2 only.
pub open spec fn take_publish_id(qos: QoS, s: Seq<u8>) -> Result<
    (Option<u16>, Seq<u8>),
    MqttError,
> {
    if qos == QoS::AtMostOnce {
        Ok((None, s))
    } else {
        match wire::take_u16(s) {
            Err(e) => Err(e),
            Ok((id, rest)) => Ok((Some(id), rest)),
        }
    }
}

pub open spec fn publish_from(version: ProtocolVersion, first: u8, body: Seq<u8>) -> Result<
    PacketView,
    MqttError,
> {
    if body.len() < 2 {
        Err(wire::eof())
    } else {
        match request::qos_from((first / 2) % 4) {
            None => Err(MqttError::Codec(CodecError::QosInvalid((first / 2) % 4))),
            Some(qos) => match wire::take_text(body) {
                Err(e) => Err(e),
                Ok((topic, s1)) => match take_publish_id(qos, s1) {
                    Err(e) => Err(e),
                    Ok((packet_id, s2)) => match take_opt_block(version, s2) {
                        Err(e) => Err(e),
                        Ok((properties, payload)) => Ok(
                            PacketView::Publish(
                                PublishView {
                                    properties,
                                    topic,
                                    payload,
                                    dup: flag(first, 8),
                                    qos,
                                    retain: flag(first, 1),
                                    packet_id,
                                },
                            ),
                        ),
                    },
                },
            },
        }
    }
}

/// A body that holds little more than a packet identifier: exactly two bytes
/// on MQTT 3.1.1, at least two on MQTT 5.
pub open spec fn id_body_error(version: ProtocolVersion, body: Seq<u8>) -> Result<(), MqttError> {
    match version {
        ProtocolVersion::V311 => if body.len() == 2 {
            Ok(())
        } else {
            Err(too_long(body.len() as int, 2))
        },
        ProtocolVersion::V5 => if body.len() >= 2 {
            Ok(())
        } else {
            Err(too_long(body.len() as int, usize::MAX))
        },
    }
}

/// A reason code and a property block that are checked and dropped. Both may
/// be missing; nothing may follow.
pub open spec fn reason_error(s: Seq<u8>) -> Result<(), MqttError> {
    if s.len() <= 1 {
        Ok(())
    } else {
        match properties::take_block(s.skip(1)) {
            Err(e) => Err(e),
            Ok((_, rest)) => end_of_body(rest),
        }
    }
}

/// The packet with a given identifier, for the four types that hold no more.
pub open spec fn ack_of(packet_type: PacketType, id: u16) -> PacketView {
    match packet_type {
        PacketType::Puback => PacketView::Puback(id),
        PacketType::Pubrec => PacketView::Pubrec(id),
        PacketType::Pubrel => PacketView::Pubrel(id),
        _ => PacketView::Pubcomp(id),
    }
}

pub open spec fn ack_from(
    version: ProtocolVersion,
    first: u8,
    packet_type: PacketType,
    body: Seq<u8>,
) -> Result<PacketView, MqttError> {
    match id_body_error(version, body) {
        Err(e) => Err(e),
        Ok(_) => if first % 16 != (if packet_type == PacketType::Pubrel {
            2int
        } else {
            0
        }) {
            Err(reserved_flag())
        } else {
            match reason_error(body.skip(2)) {
                Err(e) => Err(e),
                Ok(_) => Ok(ack_of(packet_type, (body[0] * 256 + body[1]) as u16)),
            }
        },
    }
}

/// The subscription options byte. MQTT 3.1.1 has a QoS level there; MQTT 5 has
/// a QoS level, two flags, and a retain handling value below 3.
pub open spec fn options_error(version: ProtocolVersion, options: u8) -> Result<QoS, MqttError> {
    if (match version {
        ProtocolVersion::V311 => options > 2,
        ProtocolVersion::V5 => options >= 64 || (options / 16) % 4 == 3,
    }) {
        Err(reserved_flag())
    } else {
        match request::qos_from(options % 4) {
            None => Err(MqttError::Codec(CodecError::QosInvalid(options % 4))),
            Some(qos) => Ok(qos),
        }
    }
}

/// Reads subscriptions up to the end of `s`, adding them to `acc`.
pub open spec fn take_subscriptions(
    version: ProtocolVersion,
    s: Seq<u8>,
    acc: Seq<(Seq<char>, QoS)>,
) -> Result<Seq<(Seq<char>, QoS)>, MqttError>
    decreases s.len(),
{
    if s.len() == 0 {
        Ok(acc)
    } else {
        match wire::take_text(s) {
            Err(e) => Err(e),
            Ok((topic, rest)) => if rest.len() == 0 || rest.len() > s.len() {
                Err(wire::eof())
            } else {
                match options_error(version, rest[0]) {
                    Err(e) => Err(e),
                    Ok(qos) => take_subscriptions(version, rest.skip(1), acc.push((topic, qos))),
                }
            },
        }
    }
}

pub open spec fn subscribe_from(version: ProtocolVersion, body: Seq<u8>) -> Result<
    PacketView,
    MqttError,
> {
    if body.len() < 5 {
        Err(wire::eof())
    } else {
        match take_opt_block(version, body.skip(2)) {
            Err(e) => Err(e),
            Ok((_, rest)) => match take_subscriptions(version, rest, Seq::empty()) {
                Err(e) => Err(e),
                Ok(subscriptions) => Ok(
                    PacketView::Subscribe(
                        SubscribeView {
                            packet_id: (body[0] * 256 + body[1]) as u16,
                            subscriptions,
                        },
                    ),
                ),
            },
        }
    }
}

/// A SUBACK code. MQTT 5 has more failure codes than this library tells apart.
pub open spec fn code_from(version: ProtocolVersion, b: u8) -> Option<SubackCode> {
    match request::suback_from(b) {
        Some(c) => Some(c),
        None => if version == ProtocolVersion::V5 && b >= 0x80 {
            Some(SubackCode::Failure)
        } else {
            None
        },
    }
}

/// Reads SUBACK codes up to the end of `s`, adding them to `acc`.
pub open spec fn take_codes(version: ProtocolVersion, s: Seq<u8>, acc: Seq<SubackCode>) -> Result<
    Seq<SubackCode>,
    MqttError,
>
    decreases s.len(),
{
    if s.len() == 0 {
        Ok(acc)
    } else {
        match code_from(version, s[0]) {
            None => Err(invalid_type(s[0])),
            Some(c) => take_codes(version, s.skip(1), acc.push(c)),
        }
    }
}

pub open spec fn suback_from(version: ProtocolVersion, body: Seq<u8>) -> Result<
    PacketView,
    MqttError,
> {
    if body.len() < 3 {
        Err(wire::eof())
    } else {
        match take_opt_block(version, body.skip(2)) {
            Err(e) => Err(e),
            Ok((_, rest)) => match take_codes(version, rest, Seq::empty()) {
                Err(e) => Err(e),
                Ok(return_codes) => Ok(
                    PacketView::Suback(
                        SubackView {
                            packet_id: (body[0] * 256 + body[1]) as u16,
                            return_codes,
                        },
                    ),
                ),
            },
        }
    }
}

/// Reads topics up to the end of `s`, adding them to `acc`.
pub open spec fn take_topics(s: Seq<u8>, acc: Seq<Seq<char>>) -> Result<Seq<Seq<char>>, MqttError>
    decreases s.len(),
{
    if s.len() == 0 {
        Ok(acc)
    } else {
        match wire::take_text(s) {
            Err(e) => Err(e),
            Ok((topic, rest)) => if rest.len() < s.len() {
                take_topics(rest, acc.push(topic))
            } else {
                Err(wire::eof())
            },
        }
    }
}

pub open spec fn unsubscribe_from(version: ProtocolVersion, body: Seq<u8>) -> Result<
    PacketView,
    MqttError,
> {
    if body.len() < 4 {
        Err(wire::eof())
    } else {
        match take_opt_block(version, body.skip(2)) {
            Err(e) => Err(e),
            Ok((_, rest)) => match take_topics(rest, Seq::empty()) {
                Err(e) => Err(e),
                Ok(topics) => Ok(
                    PacketView::Unsubscribe(
                        UnsubscribeView { packet_id: (body[0] * 256 + body[1]) as u16, topics },
                    ),
                ),
            },
        }
    }
}

pub open spec fn unsuback_from(version: ProtocolVersion, body: Seq<u8>) -> Result<
    PacketView,
    MqttError,
> {
    match id_body_error(version, body) {
        Err(e) => Err(e),
        Ok(_) => match take_opt_block(version, body.skip(2)) {
            Err(e) => Err(e),
            Ok((_, reason_codes)) => Ok(
                PacketView::Unsuback(
                    UnsubackView { packet_id: (body[0] * 256 + body[1]) as u16, reason_codes },
                ),
            ),
        },
    }
}

/// A packet without a body.
pub open spec fn bare_from(p: PacketView, body: Seq<u8>) -> Result<PacketView, MqttError> {
    match end_of_body(body) {
        Err(e) => Err(e),
        Ok(_) => Ok(p),
    }
}

pub open spec fn disconnect_from(version: ProtocolVersion, body: Seq<u8>) -> Result<
    PacketView,
    MqttError,
> {
    match version {
        ProtocolVersion::V311 => bare_from(PacketView::Disconnect, body),
        ProtocolVersion::V5 => match reason_error(body) {
            Err(e) => Err(e),
            Ok(_) => Ok(PacketView::Disconnect),
        },
    }
}

/// The packet that a body holds, by its type and first byte.
#[verifier::opaque]
pub open spec fn packet_from(
    first: u8,
    packet_type: PacketType,
    body: Seq<u8>,
    version: ProtocolVersion,
) -> Result<PacketView, MqttError> {
    match packet_type {
        PacketType::Connect => connect_from(body),
        PacketType::Connack => connack_from(version, body),
        PacketType::Publish => publish_from(version, first, body),
        PacketType::Puback => ack_from(version, first, packet_type, body),
        PacketType::Pubrec => ack_from(version, first, packet_type, body),
        PacketType::Pubrel => ack_from(version, first, packet_type, body),
        PacketType::Pubcomp => ack_from(version, first, packet_type, body),
        PacketType::Subscribe => subscribe_from(version, body),
        PacketType::Suback => suback_from(version, body),
        PacketType::Unsubscribe => unsubscribe_from(version, body),
        PacketType::Unsuback => unsuback_from(version, body),
        PacketType::Pingreq => bare_from(PacketView::Pingreq, body),
        PacketType::Pingresp => bare_from(PacketView::Pingresp, body),
        PacketType::Disconnect => disconnect_from(version, body),
    }
}

/// A packet and the bytes behind it, or `None` when its last byte has not
/// arrived. An error in the body takes the whole frame off; other errors and
/// `None` take nothing.
pub struct Decoded {
    pub packet: Result<Option<PacketView>, MqttError>,
    pub rest: Seq<u8>,
}

/// Decodes one packet from the front of `s`.
pub open spec fn take_packet(s: Seq<u8>, version: ProtocolVersion) -> Decoded {
    if s.len() < 2 {
        Decoded { packet: Ok(None), rest: s }
    } else {
        match packet::type_from(s[0] / 16) {
            Err(_) => Decoded { packet: Err(invalid_type(s[0] / 16)), rest: s },
            Ok(packet_type) => match wire::take_length(s.skip(1)) {
                Err(e) => Decoded { packet: Err(e), rest: s },
                Ok(None) => Decoded { packet: Ok(None), rest: s },
                Ok(Some((n, after))) => if after.len() < n {
                    Decoded { packet: Ok(None), rest: s }
                } else {
                    Decoded {
                        packet: match packet_from(s[0], packet_type, after.take(n as int), version) {
                            Err(e) => Err(e),
                            Ok(p) => Ok(Some(p)),
                        },
                        rest: after.skip(n as int),
                    }
                },
            },
        }
    }
}

// ----------------------------------------------------------------------------
// Readers
// ----------------------------------------------------------------------------

/// What a parser returns, given what the model says.
pub open spec fn parses(want: Result<PacketView, MqttError>, got: Result<Packet, MqttError>) -> bool {
    match want {
        Ok(p) => got matches Ok(v) && v@ == p,
        Err(e) => got == Err::<Packet, MqttError>(e),
    }
}

fn is_set(b: u8, weight: u8) -> (r: bool)
    requires
        weight > 0,
    ensures
        r == flag(b, weight),
{
    (b / weight) % 2 == 1
}

fn read_opt_block(version: ProtocolVersion, body: &[u8], cursor: &mut usize) -> (r: Result<
    Properties,
    MqttError,
>)
    requires
        *old(cursor) <= body@.len(),
    ensures
        match take_opt_block(version, body@.skip(*old(cursor) as int)) {
            Ok((m, rest)) => (r matches Ok(got) && got@ == m) && wire::cursor_at(
                body@,
                *final(cursor) as int,
                rest,
            ),
            Err(e) => r == Err::<Properties, MqttError>(e),
        },
{
    match version {
        ProtocolVersion::V311 => Ok(Properties::default()),
        ProtocolVersion::V5 => Properties::parse(body, cursor),
    }
}

/// Reads binary data behind its two-byte length.
fn read_bytes(body: &[u8], cursor: &mut usize) -> (r: Result<Bytes, MqttError>)
    requires
        *old(cursor) <= body@.len(),
    ensures
        match wire::take_prefixed(body@.skip(*old(cursor) as int)) {
            Ok((b, rest)) => (r matches Ok(got) && buffers::payload(got) == b) && wire::cursor_at(
                body@,
                *final(cursor) as int,
                rest,
            ),
            Err(e) => r == Err::<Bytes, MqttError>(e) && *final(cursor) == *old(cursor)
                + wire::prefix_stop(body@.skip(*old(cursor) as int)),
        },
{
    match wire::read_prefixed_bytes(body, cursor) {
        Ok(b) => Ok(buffers::copy_bytes(b)),
        Err(e) => Err(e),
    }
}

fn read_will(version: ProtocolVersion, flags: u8, body: &[u8], cursor: &mut usize) -> (r: Result<
    Option<WillPacket>,
    MqttError,
>)
    requires
        *old(cursor) <= body@.len(),
    ensures
        match take_will(version, flags, body@.skip(*old(cursor) as int)) {
            Ok((w, rest)) => (r matches Ok(got) && packet::opt_will(got) == w) && wire::cursor_at(
                body@,
                *final(cursor) as int,
                rest,
            ),
            Err(e) => r == Err::<Option<WillPacket>, MqttError>(e),
        },
{
    if !is_set(flags, 4) {
        return Ok(None);
    }
    let properties = match read_opt_block(version, body, cursor) {
        Ok(p) => p,
        Err(e) => {
            return Err(e);
        },
    };
    let topic = match wire::read_arc_str(body, cursor) {
        Ok(t) => t,
        Err(e) => {
            return Err(e);
        },
    };
    let payload = match read_bytes(body, cursor) {
        Ok(b) => b,
        Err(e) => {
            return Err(e);
        },
    };
    let will_qos_bits: u8 = (flags / 8) % 4;
    match QoS::from_u8(will_qos_bits) {
        Some(qos) => Ok(
            Some(WillPacket { properties, topic, payload, qos, retain: is_set(flags, 32) }),
        ),
        None => Err(MqttError::Codec(CodecError::QosInvalid(will_qos_bits))),
    }
}

fn read_opt_text(there: bool, body: &[u8], cursor: &mut usize) -> (r: Result<
    Option<Arc<str>>,
    MqttError,
>)
    requires
        *old(cursor) <= body@.len(),
    ensures
        match take_opt_text(there, body@.skip(*old(cursor) as int)) {
            Ok((t, rest)) => (r matches Ok(got) && wire::opt_text(got) == t) && wire::cursor_at(
                body@,
                *final(cursor) as int,
                rest,
            ),
            Err(e) => r == Err::<Option<Arc<str>>, MqttError>(e),
        },
{
    if !there {
        return Ok(None);
    }
    match wire::read_arc_str(body, cursor) {
        Ok(t) => Ok(Some(t)),
        Err(e) => Err(e),
    }
}

fn read_opt_binary(there: bool, body: &[u8], cursor: &mut usize) -> (r: Result<
    Option<Bytes>,
    MqttError,
>)
    requires
        *old(cursor) <= body@.len(),
    ensures
        match take_opt_binary(there, body@.skip(*old(cursor) as int)) {
            Ok((b, rest)) => (r matches Ok(got) && buffers::opt_payload(got) == b)
                && wire::cursor_at(body@, *final(cursor) as int, rest),
            Err(e) => r == Err::<Option<Bytes>, MqttError>(e),
        },
{
    if !there {
        return Ok(None);
    }
    match read_bytes(body, cursor) {
        Ok(b) => Ok(Some(b)),
        Err(e) => Err(e),
    }
}

/// Whether a body starts with the protocol name.
fn has_protocol_name(body: &[u8]) -> (r: bool)
    requires
        body@.len() >= 10,
    ensures
        r == (body@.take(6) == protocol_name()),
{
    let r = body[0] == 0 && body[1] == 4 && body[2] == 0x4D && body[3] == 0x51 && body[4] == 0x54
        && body[5] == 0x54;
    proof {
        let name = protocol_name();
        assert(name.len() == 6);
        if r {
            assert(body@.take(6) =~= name);
        } else {
            assert(forall|i: int| 0 <= i < 6 ==> #[trigger] body@.take(6)[i] == body@[i]);
            if body@.take(6) == name {
                assert(body@.take(6)[0] == name[0] && body@.take(6)[1] == name[1] && body@.take(
                    6,
                )[2] == name[2] && body@.take(6)[3] == name[3] && body@.take(6)[4] == name[4]
                    && body@.take(6)[5] == name[5]);
            }
        }
    }
    r
}

// ----------------------------------------------------------------------------
// Parsers
// ----------------------------------------------------------------------------

pub fn parse_connect(body: &[u8]) -> (r: Result<Packet, MqttError>)
    ensures
        parses(connect_from(body@), r),
{
    if body.len() < 10 {
        return Err(MqttError::Codec(CodecError::UnexpectedEof));
    }
    if !has_protocol_name(body) {
        return Err(MqttError::Protocol(Violation::InvalidProtocolName));
    }
    let level: u8 = body[6];
    let version = match ProtocolVersion::from_level(level) {
        Some(v) => v,
        None => {
            return Err(MqttError::Protocol(Violation::UnsupportedProtocolLevel(level)));
        },
    };
    let flags: u8 = body[7];
    let keep_alive: u16 = (body[8] as u16) * 256 + body[9] as u16;
    let mut cursor: usize = 10;
    let properties = match read_opt_block(version, body, &mut cursor) {
        Ok(p) => p,
        Err(e) => {
            return Err(e);
        },
    };
    let client_id = match wire::read_arc_str(body, &mut cursor) {
        Ok(t) => t,
        Err(e) => {
            return Err(e);
        },
    };
    let will = match read_will(version, flags, body, &mut cursor) {
        Ok(w) => w,
        Err(e) => {
            return Err(e);
        },
    };
    let username = match read_opt_text(is_set(flags, 128), body, &mut cursor) {
        Ok(t) => t,
        Err(e) => {
            return Err(e);
        },
    };
    let password = match read_opt_binary(is_set(flags, 64), body, &mut cursor) {
        Ok(b) => b,
        Err(e) => {
            return Err(e);
        },
    };
    Ok(
        Packet::Connect(
            Box::new(
                ConnectPacket {
                    version,
                    properties,
                    client_id,
                    clean_session: is_set(flags, 2),
                    keep_alive,
                    username,
                    password,
                    will,
                },
            ),
        ),
    )
}

/// Reports bytes that are left over.
fn require_end(left: usize) -> (r: Result<(), MqttError>)
    ensures
        r == (if left == 0 {
            Ok::<(), MqttError>(())
        } else {
            Err(too_long(left as int, 0))
        }),
{
    if left != 0 {
        return Err(MqttError::Codec(CodecError::PayloadTooLong { len: left, max: 0 }));
    }
    Ok(())
}

pub fn parse_connack(body: &[u8], version: ProtocolVersion) -> (r: Result<Packet, MqttError>)
    ensures
        parses(connack_from(version, body@), r),
{
    if body.len() < 2 {
        return Err(MqttError::Codec(CodecError::UnexpectedEof));
    }
    let session_present = is_set(body[0], 1);
    let code = match version {
        ProtocolVersion::V311 => match ConnackReturnCode::try_from(body[1]) {
            Ok(c) => Some(c),
            Err(_) => None,
        },
        ProtocolVersion::V5 => ConnackReturnCode::from_v5_reason(body[1]),
    };
    let return_code = match code {
        Some(c) => c,
        None => {
            return Err(MqttError::Codec(CodecError::InvalidPacketType(body[1])));
        },
    };
    let mut cursor: usize = 2;
    let properties = match read_opt_block(version, body, &mut cursor) {
        Ok(p) => p,
        Err(e) => {
            return Err(e);
        },
    };
    match require_end(body.len() - cursor) {
        Ok(_) => {},
        Err(e) => {
            return Err(e);
        },
    }
    Ok(Packet::Connack(ConnackPacket { properties, session_present, return_code }))
}

pub fn parse_publish(first: u8, body: &[u8], version: ProtocolVersion) -> (r: Result<
    Packet,
    MqttError,
>)
    ensures
        parses(publish_from(version, first, body@), r),
{
    if body.len() < 2 {
        return Err(MqttError::Codec(CodecError::UnexpectedEof));
    }
    let dup = is_set(first, 8);
    let retain = is_set(first, 1);
    let qos_bits: u8 = (first / 2) % 4;
    let qos = match QoS::from_u8(qos_bits) {
        Some(q) => q,
        None => {
            return Err(MqttError::Codec(CodecError::QosInvalid(qos_bits)));
        },
    };
    let mut cursor: usize = 0;
    assert(body@.skip(0) =~= body@);
    let topic = match wire::read_arc_str(body, &mut cursor) {
        Ok(t) => t,
        Err(e) => {
            return Err(e);
        },
    };
    let packet_id = if qos != QoS::AtMostOnce {
        match wire::read_u16(body, &mut cursor) {
            Ok(id) => Some(id),
            Err(e) => {
                return Err(e);
            },
        }
    } else {
        None
    };
    let properties = match read_opt_block(version, body, &mut cursor) {
        Ok(p) => p,
        Err(e) => {
            return Err(e);
        },
    };
    let payload_bytes = vstd::slice::slice_subrange(body, cursor, body.len());
    assert(payload_bytes@ =~= body@.skip(cursor as int));
    let payload = buffers::copy_bytes(payload_bytes);
    Ok(Packet::Publish(PublishPacket { properties, topic, payload, dup, qos, retain, packet_id }))
}

fn check_id_body(version: ProtocolVersion, body: &[u8]) -> (r: Result<(), MqttError>)
    ensures
        r == id_body_error(version, body@),
{
    match version {
        ProtocolVersion::V311 => if body.len() != 2 {
            return Err(MqttError::Codec(CodecError::PayloadTooLong { len: body.len(), max: 2 }));
        },
        ProtocolVersion::V5 => if body.len() < 2 {
            return Err(
                MqttError::Codec(
                    CodecError::PayloadTooLong { len: body.len(), max: usize::MAX },
                ),
            );
        },
    }
    Ok(())
}

/// Checks a reason code and a property block from `at` on.
fn check_reason(body: &[u8], at: usize) -> (r: Result<(), MqttError>)
    requires
        at <= body@.len(),
    ensures
        r == reason_error(body@.skip(at as int)),
{
    if body.len() - at <= 1 {
        return Ok(());
    }
    let mut cursor: usize = at + 1;
    assert(body@.skip(at as int).skip(1) =~= body@.skip(cursor as int));
    match Properties::parse(body, &mut cursor) {
        Ok(_) => {},
        Err(e) => {
            return Err(e);
        },
    }
    require_end(body.len() - cursor)
}

pub fn parse_ack_packet(
    first: u8,
    packet_type: PacketType,
    body: &[u8],
    version: ProtocolVersion,
) -> (r: Result<Packet, MqttError>)
    ensures
        parses(ack_from(version, first, packet_type, body@), r),
{
    match check_id_body(version, body) {
        Ok(_) => {},
        Err(e) => {
            return Err(e);
        },
    }
    let expected: u8 = if packet_type == PacketType::Pubrel {
        2
    } else {
        0
    };
    if first % 16 != expected {
        return Err(MqttError::Codec(CodecError::ReservedFlagSet));
    }
    let id: u16 = (body[0] as u16) * 256 + body[1] as u16;
    match check_reason(body, 2) {
        Ok(_) => {},
        Err(e) => {
            return Err(e);
        },
    }
    Ok(
        match packet_type {
            PacketType::Puback => Packet::Puback(id),
            PacketType::Pubrec => Packet::Pubrec(id),
            PacketType::Pubrel => Packet::Pubrel(id),
            _ => Packet::Pubcomp(id),
        },
    )
}

fn check_options(version: ProtocolVersion, options: u8) -> (r: Result<QoS, MqttError>)
    ensures
        r == options_error(version, options),
{
    let reserved = match version {
        ProtocolVersion::V311 => options > 2,
        ProtocolVersion::V5 => options >= 64 || (options / 16) % 4 == 3,
    };
    if reserved {
        return Err(MqttError::Codec(CodecError::ReservedFlagSet));
    }
    match QoS::from_u8(options % 4) {
        Some(q) => Ok(q),
        None => Err(MqttError::Codec(CodecError::QosInvalid(options % 4))),
    }
}

pub fn parse_subscribe(body: &[u8], version: ProtocolVersion) -> (r: Result<Packet, MqttError>)
    ensures
        parses(subscribe_from(version, body@), r),
{
    if body.len() < 5 {
        return Err(MqttError::Codec(CodecError::UnexpectedEof));
    }
    let packet_id: u16 = (body[0] as u16) * 256 + body[1] as u16;
    let mut cursor: usize = 2;
    match read_opt_block(version, body, &mut cursor) {
        Ok(_) => {},
        Err(e) => {
            return Err(e);
        },
    }
    let ghost want = take_subscriptions(version, body@.skip(cursor as int), Seq::empty());
    let mut subscriptions: Vec<TopicSubscription> = Vec::new();
    assert(packet::subscription_views(subscriptions@) =~= Seq::empty());
    while cursor < body.len()
        invariant
            cursor <= body@.len(),
            body@.len() >= 5,
            subscribe_from(version, body@) == (match want {
                Err(e) => Err::<PacketView, MqttError>(e),
                Ok(subscriptions) => Ok(
                    PacketView::Subscribe(SubscribeView { packet_id, subscriptions }),
                ),
            }),
            want == take_subscriptions(
                version,
                body@.skip(cursor as int),
                packet::subscription_views(subscriptions@),
            ),
        decreases body@.len() - cursor,
    {
        let ghost before = body@.skip(cursor as int);
        let ghost acc = packet::subscription_views(subscriptions@);
        let topic = match wire::read_arc_str(body, &mut cursor) {
            Ok(t) => t,
            Err(e) => {
                return Err(e);
            },
        };
        if cursor >= body.len() {
            return Err(MqttError::Codec(CodecError::UnexpectedEof));
        }
        assert(body@.skip(cursor as int).skip(1) =~= body@.skip(cursor + 1));
        let qos = match check_options(version, body[cursor]) {
            Ok(q) => q,
            Err(e) => {
                return Err(e);
            },
        };
        cursor += 1;
        subscriptions.push(TopicSubscription { topic, qos });
        assert(packet::subscription_views(subscriptions@) =~= acc.push((wire::text(topic), qos)));
    }
    Ok(Packet::Subscribe(SubscribePacket { packet_id, subscriptions }))
}

fn read_code(version: ProtocolVersion, b: u8) -> (r: Option<SubackCode>)
    ensures
        r == code_from(version, b),
{
    match SubackCode::from_u8(b) {
        Some(c) => Some(c),
        None => if version == ProtocolVersion::V5 && b >= 0x80 {
            Some(SubackCode::Failure)
        } else {
            None
        },
    }
}

pub fn parse_suback(body: &[u8], version: ProtocolVersion) -> (r: Result<Packet, MqttError>)
    ensures
        parses(suback_from(version, body@), r),
{
    if body.len() < 3 {
        return Err(MqttError::Codec(CodecError::UnexpectedEof));
    }
    let packet_id: u16 = (body[0] as u16) * 256 + body[1] as u16;
    let mut cursor: usize = 2;
    match read_opt_block(version, body, &mut cursor) {
        Ok(_) => {},
        Err(e) => {
            return Err(e);
        },
    }
    let ghost want = take_codes(version, body@.skip(cursor as int), Seq::empty());
    let mut return_codes: Vec<SubackCode> = Vec::new();
    while cursor < body.len()
        invariant
            cursor <= body@.len(),
            body@.len() >= 3,
            suback_from(version, body@) == (match want {
                Err(e) => Err::<PacketView, MqttError>(e),
                Ok(return_codes) => Ok(PacketView::Suback(SubackView { packet_id, return_codes })),
            }),
            want == take_codes(version, body@.skip(cursor as int), return_codes@),
        decreases body@.len() - cursor,
    {
        assert(body@.skip(cursor as int).skip(1) =~= body@.skip(cursor + 1));
        match read_code(version, body[cursor]) {
            Some(c) => {
                return_codes.push(c);
            },
            None => {
                return Err(MqttError::Codec(CodecError::InvalidPacketType(body[cursor])));
            },
        }
        cursor += 1;
    }
    Ok(Packet::Suback(SubackPacket { packet_id, return_codes }))
}

pub fn parse_unsubscribe(body: &[u8], version: ProtocolVersion) -> (r: Result<Packet, MqttError>)
    ensures
        parses(unsubscribe_from(version, body@), r),
{
    if body.len() < 4 {
        return Err(MqttError::Codec(CodecError::UnexpectedEof));
    }
    let packet_id: u16 = (body[0] as u16) * 256 + body[1] as u16;
    let mut cursor: usize = 2;
    match read_opt_block(version, body, &mut cursor) {
        Ok(_) => {},
        Err(e) => {
            return Err(e);
        },
    }
    let ghost want = take_topics(body@.skip(cursor as int), Seq::empty());
    let mut topics: Vec<Arc<str>> = Vec::new();
    assert(packet::texts(topics@) =~= Seq::empty());
    while cursor < body.len()
        invariant
            cursor <= body@.len(),
            body@.len() >= 4,
            unsubscribe_from(version, body@) == (match want {
                Err(e) => Err::<PacketView, MqttError>(e),
                Ok(topics) => Ok(PacketView::Unsubscribe(UnsubscribeView { packet_id, topics })),
            }),
            want == take_topics(body@.skip(cursor as int), packet::texts(topics@)),
        decreases body@.len() - cursor,
    {
        let ghost acc = packet::texts(topics@);
        let topic = match wire::read_arc_str(body, &mut cursor) {
            Ok(t) => t,
            Err(e) => {
                return Err(e);
            },
        };
        topics.push(topic);
        assert(packet::texts(topics@) =~= acc.push(wire::text(topic)));
    }
    Ok(Packet::Unsubscribe(UnsubscribePacket { packet_id, topics }))
}

pub fn parse_unsuback(body: &[u8], version: ProtocolVersion) -> (r: Result<Packet, MqttError>)
    ensures
        parses(unsuback_from(version, body@), r),
{
    match check_id_body(version, body) {
        Ok(_) => {},
        Err(e) => {
            return Err(e);
        },
    }
    let packet_id: u16 = (body[0] as u16) * 256 + body[1] as u16;
    let mut cursor: usize = 2;
    match read_opt_block(version, body, &mut cursor) {
        Ok(_) => {},
        Err(e) => {
            return Err(e);
        },
    }
    let mut reason_codes: Vec<u8> = Vec::new();
    wire::write_bytes(
        &mut reason_codes,
        vstd::slice::slice_subrange(body, cursor, body.len()),
    );
    assert(reason_codes@ =~= body@.skip(cursor as int));
    Ok(Packet::Unsuback(UnsubackPacket { packet_id, reason_codes }))
}

fn parse_disconnect(body: &[u8], version: ProtocolVersion) -> (r: Result<Packet, MqttError>)
    ensures
        parses(disconnect_from(version, body@), r),
{
    assert(body@.skip(0) =~= body@);
    let checked = match version {
        ProtocolVersion::V311 => require_end(body.len()),
        ProtocolVersion::V5 => check_reason(body, 0),
    };
    match checked {
        Ok(_) => Ok(Packet::Disconnect),
        Err(e) => Err(e),
    }
}

/// Parses the body of a packet.
pub fn parse_packet(
    first: u8,
    packet_type: PacketType,
    body: &[u8],
    version: ProtocolVersion,
) -> (r: Result<Packet, MqttError>)
    ensures
        parses(packet_from(first, packet_type, body@, version), r),
{
    proof {
        reveal(packet_from);
    }
    match packet_type {
        PacketType::Connect => parse_connect(body),
        PacketType::Connack => parse_connack(body, version),
        PacketType::Publish => parse_publish(first, body, version),
        PacketType::Puback | PacketType::Pubrec | PacketType::Pubrel | PacketType::Pubcomp => {
            parse_ack_packet(first, packet_type, body, version)
        },
        PacketType::Subscribe => parse_subscribe(body, version),
        PacketType::Suback => parse_suback(body, version),
        PacketType::Unsubscribe => parse_unsubscribe(body, version),
        PacketType::Unsuback => parse_unsuback(body, version),
        PacketType::Pingreq => match require_end(body.len()) {
            Ok(_) => Ok(Packet::Pingreq),
            Err(e) => Err(e),
        },
        PacketType::Pingresp => match require_end(body.len()) {
            Ok(_) => Ok(Packet::Pingresp),
            Err(e) => Err(e),
        },
        PacketType::Disconnect => parse_disconnect(body, version),
    }
}

/// The type that the first byte of a packet gives.
pub fn packet_type_of(first: u8) -> (r: Result<PacketType, MqttError>)
    ensures
        r == (match packet::type_from(first / 16) {
            Ok(t) => Ok::<PacketType, MqttError>(t),
            Err(_) => Err(invalid_type(first / 16)),
        }),
{
    match PacketType::try_from(first / 16) {
        Ok(t) => Ok(t),
        Err(_) => Err(MqttError::Codec(CodecError::InvalidPacketType(first / 16))),
    }
}

/// Tries to decode one packet from a buffer. `Ok(None)` asks for more bytes.
/// The bytes of a packet leave the buffer once all of them are there.
pub fn decode_packet_from_bytes(buf: &mut BytesMut, version: ProtocolVersion) -> (r: Result<
    Option<Packet>,
    MqttError,
>)
    ensures
        match take_packet(buffers::buffered(*old(buf)), version).packet {
            Ok(Some(p)) => r matches Ok(Some(got)) && got@ == p,
            Ok(None) => r matches Ok(None),
            Err(e) => r == Err::<Option<Packet>, MqttError>(e),
        },
        buffers::buffered(*final(buf)) == take_packet(
            buffers::buffered(*old(buf)),
            version,
        ).rest,
{
    let ghost s = buffers::buffered(*buf);
    let bytes = buffers::buffer_slice(buf);
    if bytes.len() < 2 {
        return Ok(None);
    }
    let first: u8 = bytes[0];
    let packet_type = match packet_type_of(first) {
        Ok(t) => t,
        Err(e) => {
            return Err(e);
        },
    };
    let after = vstd::slice::slice_subrange(bytes, 1, bytes.len());
    assert(after@ =~= s.skip(1));
    let (remaining, rl_bytes): (usize, usize) = match wire::decode_remaining_length_from_slice(
        after,
    ) {
        Ok(Some(v)) => v,
        Ok(None) => {
            return Ok(None);
        },
        Err(e) => {
            return Err(e);
        },
    };
    let header_len: usize = 1 + rl_bytes;
    let total: usize = header_len + remaining;
    assert(s.skip(1).skip(rl_bytes as int) =~= s.skip(header_len as int));
    if bytes.len() < total {
        return Ok(None);
    }
    let frame = buffers::split_front(buf, total);
    let frame_bytes = buffers::buffer_slice(&frame);
    let body = vstd::slice::slice_subrange(frame_bytes, header_len, frame_bytes.len());
    assert(body@ =~= s.skip(header_len as int).take(remaining as int));
    assert(s.skip(header_len as int).skip(remaining as int) =~= s.skip(total as int));
    match parse_packet(first, packet_type, body, version) {
        Ok(p) => Ok(Some(p)),
        Err(e) => Err(e),
    }
}

} // verus!
