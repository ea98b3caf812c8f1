//! Where the fields of each packet stand on the wire.
//!
//! The laws here are stated on bytes: what a packet is written as, and what
//! bytes in that layout are read as.

use vstd::prelude::*;
use vstd::utf8::*;

use crate::codec::decode;
use crate::codec::encode;
use crate::codec::laws;
use crate::error::{CodecError, MqttError, Violation};
use crate::packet;
use crate::packet::{
    ConnackReturnCode, ConnackView, ConnectView, PacketType, PacketView, ProtocolVersion,
    PublishView, SubackView, SubscribeView, UnsubackView, UnsubscribeView, WillView,
};
use crate::properties;
use crate::properties::PropertiesView;
use crate::request;
use crate::request::{QoS, SubackCode};
use crate::wire;

verus! {

// ----------------------------------------------------------------------------
// Property blocks
// ----------------------------------------------------------------------------

/// `block` is how properties are written: MQTT 5 has a property block, MQTT 3.1.1
/// has nothing there.
pub open spec fn writes_block(version: ProtocolVersion, m: PropertiesView, block: Seq<u8>) -> bool {
    match version {
        ProtocolVersion::V311 => block.len() == 0,
        ProtocolVersion::V5 => properties::block_bytes(m) == Ok::<Seq<u8>, MqttError>(block),
    }
}

/// `block` is a property block that holds the properties in `body`.
pub open spec fn is_block_of(block: Seq<u8>, body: Seq<u8>, m: PropertiesView) -> bool {
    &&& body.len() <= 268_435_455
    &&& block == wire::vbi_bytes(body.len()) + body
    &&& properties::take_properties(body, PropertiesView::empty()) == Ok::<
        PropertiesView,
        MqttError,
    >(m)
    &&& properties::value_error(m) is Ok
}

/// `block` is what properties are read from, in whatever order they stand there.
pub open spec fn reads_block(version: ProtocolVersion, m: PropertiesView, block: Seq<u8>) -> bool {
    match version {
        ProtocolVersion::V311 => block.len() == 0 && m == PropertiesView::empty(),
        ProtocolVersion::V5 => exists|body: Seq<u8>| #[trigger] is_block_of(block, body, m),
    }
}

proof fn block_at_front(
    version: ProtocolVersion,
    m: PropertiesView,
    block: Seq<u8>,
    rest: Seq<u8>,
)
    requires
        reads_block(version, m, block),
    ensures
        decode::take_opt_block(version, block + rest) == Ok::<(PropertiesView, Seq<u8>), MqttError>(
            (m, rest),
        ),
{
    match version {
        ProtocolVersion::V311 => {
            assert(block + rest =~= rest);
        },
        ProtocolVersion::V5 => {
            let body = choose|body: Seq<u8>| #[trigger] is_block_of(block, body, m);
            wire::joined(wire::vbi_bytes(body.len()), body, rest);
            properties::laws::blocks_are_read_whole(body, rest);
        },
    }
}

/// A single zero byte is the empty property block.
pub proof fn one_zero_is_the_empty_block(rest: Seq<u8>)
    ensures
        reads_block(ProtocolVersion::V5, PropertiesView::empty(), seq![0u8]),
        writes_block(ProtocolVersion::V5, PropertiesView::empty(), seq![0u8]),
        properties::take_block(seq![0u8] + rest) == Ok::<(PropertiesView, Seq<u8>), MqttError>(
            (PropertiesView::empty(), rest),
        ),
{
    let none = Seq::<u8>::empty();
    properties::empty_block_is_one_byte();
    properties::block_round_trip(PropertiesView::empty(), rest);
    assert(wire::vbi_bytes(0) + none =~= seq![0u8]);
    assert(properties::value_error(PropertiesView::empty()) is Ok) by {
        reveal(properties::block_bytes);
    }
    assert(is_block_of(seq![0u8], none, PropertiesView::empty()));
}

proof fn two_at_front(a: u8, b: u8, rest: Seq<u8>)
    ensures
        (seq![a, b] + rest).len() == 2 + rest.len(),
        (seq![a, b] + rest)[0] == a,
        (seq![a, b] + rest)[1] == b,
        (seq![a, b] + rest).skip(2) == rest,
{
    assert((seq![a, b] + rest).skip(2) =~= rest);
}

// ----------------------------------------------------------------------------
// CONNECT
// ----------------------------------------------------------------------------

/// CONNECT is written as the protocol name, the protocol level, the flags (user
/// name 128, password 64, will retain 32, will QoS 8 and 16, will 4, clean
/// session 2), the keep-alive, the properties, and then, as far as they are
/// there, the client identifier, the will properties, the will topic, the will
/// payload, the user name and the password, in that order.
pub proof fn connect_is_written_field_by_field(
    c: ConnectView,
    version: ProtocolVersion,
    block: Seq<u8>,
    will_block: Seq<u8>,
)
    requires
        writes_block(c.version, c.properties, block),
        c.will matches Some(w) ==> writes_block(c.version, w.properties, will_block),
    ensures
        ({
            let level: u8 = if c.version == ProtocolVersion::V5 {
                5
            } else {
                4
            };
            let clean: int = if c.clean_session {
                2
            } else {
                0
            };
            let will: int = match c.will {
                Some(w) => 4 + (match w.qos {
                    QoS::AtMostOnce => 0int,
                    QoS::AtLeastOnce => 8,
                    QoS::ExactlyOnce => 16,
                }) + (if w.retain {
                    32int
                } else {
                    0
                }),
                None => 0,
            };
            let named: int = if c.username is Some {
                128
            } else {
                0
            };
            let secret: int = if c.password is Some {
                64
            } else {
                0
            };
            let flags = (named + secret + will + clean) as u8;
            let head = seq![
                0u8,
                4u8,
                0x4Du8,
                0x51u8,
                0x54u8,
                0x54u8,
                level,
                flags,
                (c.keep_alive / 256) as u8,
                (c.keep_alive % 256) as u8,
            ];
            let testament = match c.will {
                Some(w) => will_block + wire::prefixed_text(w.topic) + wire::prefixed(w.payload),
                None => Seq::empty(),
            };
            let user = match c.username {
                Some(u) => wire::prefixed_text(u),
                None => Seq::empty(),
            };
            let password = match c.password {
                Some(p) => wire::prefixed(p),
                None => Seq::empty(),
            };
            let body = head + (block + (wire::prefixed_text(c.client_id) + (testament + (user
                + password))));
            encode::packet_bytes(PacketView::Connect(c), version) == Ok::<Seq<u8>, MqttError>(
                seq![0x10u8] + (wire::vbi_bytes(body.len()) + body),
            )
        }),
{
    let none = Seq::<u8>::empty();
    assert(c.version == ProtocolVersion::V311 ==> block =~= none);
    assert(c.version == ProtocolVersion::V311 && c.will is Some ==> will_block =~= none);
    let level: u8 = if c.version == ProtocolVersion::V5 {
        5
    } else {
        4
    };
    assert(encode::connect_head(c) =~= seq![
        0u8,
        4u8,
        0x4Du8,
        0x51u8,
        0x54u8,
        0x54u8,
        level,
        encode::connect_flags(c),
        (c.keep_alive / 256) as u8,
        (c.keep_alive % 256) as u8,
    ]);
}

proof fn connect_fields_are_read(
    version: ProtocolVersion,
    flags: u8,
    keep_alive: u16,
    m: PropertiesView,
    block: Seq<u8>,
    id: Seq<char>,
    s2: Seq<u8>,
    will: Option<WillView>,
    user: Seq<char>,
    password: Seq<u8>,
    extra: Seq<u8>,
)
    requires
        reads_block(version, m, block),
        encode_utf8(id).len() <= 65535,
        encode_utf8(user).len() <= 65535,
        password.len() <= 65535,
        decode::take_will(version, flags, s2) == Ok::<(Option<WillView>, Seq<u8>), MqttError>(
            (
                will,
                (if (flags / 128) % 2 == 1 {
                    wire::prefixed_text(user)
                } else {
                    Seq::empty()
                }) + ((if (flags / 64) % 2 == 1 {
                    wire::prefixed(password)
                } else {
                    Seq::empty()
                }) + extra),
            ),
        ),
    ensures
        decode::connect_payload(
            version,
            flags,
            keep_alive,
            block + (wire::prefixed_text(id) + s2),
        ) == Ok::<ConnectView, MqttError>(
            ConnectView {
                version,
                properties: m,
                client_id: id,
                clean_session: (flags / 2) % 2 == 1,
                keep_alive,
                username: if (flags / 128) % 2 == 1 {
                    Some(user)
                } else {
                    None
                },
                password: if (flags / 64) % 2 == 1 {
                    Some(password)
                } else {
                    None
                },
                will,
            },
        ),
{
    let none = Seq::<u8>::empty();
    let s4 = (if (flags / 64) % 2 == 1 {
        wire::prefixed(password)
    } else {
        none
    }) + extra;
    block_at_front(version, m, block, wire::prefixed_text(id) + s2);
    wire::text_round_trip(id, s2);
    wire::text_round_trip(user, s4);
    wire::prefixed_round_trip(password, extra);
    assert(none + s4 =~= s4);
}

proof fn connect_head_is_read(version: ProtocolVersion, flags: u8, hi: u8, lo: u8, rest: Seq<u8>)
    ensures
        decode::connect_from(
            seq![
                0u8,
                4u8,
                0x4Du8,
                0x51u8,
                0x54u8,
                0x54u8,
                if version == ProtocolVersion::V5 {
                    5u8
                } else {
                    4u8
                },
                flags,
                hi,
                lo,
            ] + rest,
        ) == (match decode::connect_payload(version, flags, (hi * 256 + lo) as u16, rest) {
            Ok(c) => Ok(PacketView::Connect(c)),
            Err(e) => Err::<PacketView, MqttError>(e),
        }),
{
    let level: u8 = if version == ProtocolVersion::V5 {
        5
    } else {
        4
    };
    let head = seq![0u8, 4u8, 0x4Du8, 0x51u8, 0x54u8, 0x54u8, level, flags, hi, lo];
    let body = head + rest;
    assert(body.skip(10) =~= rest);
    assert(body.take(6) =~= decode::protocol_name());
    assert(body[6] == level && body[7] == flags && body[8] == hi && body[9] == lo);
}

proof fn will_is_read(
    version: ProtocolVersion,
    flags: u8,
    m: PropertiesView,
    block: Seq<u8>,
    topic: Seq<char>,
    payload: Seq<u8>,
    rest: Seq<u8>,
)
    requires
        reads_block(version, m, block),
        encode_utf8(topic).len() <= 65535,
        payload.len() <= 65535,
        (flags / 4) % 2 == 1,
        (flags / 8) % 4 != 3,
    ensures
        decode::take_will(
            version,
            flags,
            block + (wire::prefixed_text(topic) + wire::prefixed(payload)) + rest,
        ) == Ok::<(Option<WillView>, Seq<u8>), MqttError>(
            (
                Some(
                    WillView {
                        properties: m,
                        topic,
                        payload,
                        qos: if (flags / 8) % 4 == 0 {
                            QoS::AtMostOnce
                        } else if (flags / 8) % 4 == 1 {
                            QoS::AtLeastOnce
                        } else {
                            QoS::ExactlyOnce
                        },
                        retain: (flags / 32) % 2 == 1,
                    },
                ),
                rest,
            ),
        ),
{
    let s2 = wire::prefixed(payload) + rest;
    let s1 = wire::prefixed_text(topic) + s2;
    wire::joined(block, wire::prefixed_text(topic) + wire::prefixed(payload), rest);
    wire::joined(wire::prefixed_text(topic), wire::prefixed(payload), rest);
    block_at_front(version, m, block, s1);
    wire::text_round_trip(topic, s2);
    wire::prefixed_round_trip(payload, rest);
}

/// A CONNECT body in that layout is read back field by field. When both flags
/// are set, the field that comes first is the user name and the one behind it
/// is the password. What follows the last field makes no difference.
#[verifier::rlimit(50)]
pub proof fn connect_is_read_field_by_field(
    version: ProtocolVersion,
    flags: u8,
    hi: u8,
    lo: u8,
    m: PropertiesView,
    block: Seq<u8>,
    id: Seq<char>,
    will_m: PropertiesView,
    will_block: Seq<u8>,
    topic: Seq<char>,
    payload: Seq<u8>,
    user: Seq<char>,
    password: Seq<u8>,
    extra: Seq<u8>,
)
    requires
        reads_block(version, m, block),
        reads_block(version, will_m, will_block),
        encode_utf8(id).len() <= 65535,
        encode_utf8(topic).len() <= 65535,
        payload.len() <= 65535,
        encode_utf8(user).len() <= 65535,
        password.len() <= 65535,
        (flags / 4) % 2 == 1 ==> (flags / 8) % 4 != 3,
    ensures
        ({
            let has_will = (flags / 4) % 2 == 1;
            let has_user = (flags / 128) % 2 == 1;
            let has_password = (flags / 64) % 2 == 1;
            let head = seq![
                0u8,
                4u8,
                0x4Du8,
                0x51u8,
                0x54u8,
                0x54u8,
                if version == ProtocolVersion::V5 {
                    5u8
                } else {
                    4u8
                },
                flags,
                hi,
                lo,
            ];
            let testament = if has_will {
                will_block + (wire::prefixed_text(topic) + wire::prefixed(payload))
            } else {
                Seq::empty()
            };
            let first = if has_user {
                wire::prefixed_text(user)
            } else {
                Seq::empty()
            };
            let second = if has_password {
                wire::prefixed(password)
            } else {
                Seq::empty()
            };
            let body = head + (block + (wire::prefixed_text(id) + (testament + (first + (second
                + extra)))));
            decode::connect_from(body) matches Ok(PacketView::Connect(c)) && {
                &&& c.version == version
                &&& c.properties == m
                &&& c.client_id == id
                &&& c.clean_session == ((flags / 2) % 2 == 1)
                &&& c.keep_alive == hi * 256 + lo
                &&& c.username == (if has_user {
                    Some(user)
                } else {
                    None
                })
                &&& c.password == (if has_password {
                    Some(password)
                } else {
                    None
                })
                &&& c.will is Some == has_will
                &&& c.will matches Some(w) ==> {
                    &&& w.properties == will_m
                    &&& w.topic == topic
                    &&& w.payload == payload
                    &&& w.retain == ((flags / 32) % 2 == 1)
                    &&& w.qos == (if (flags / 8) % 4 == 0 {
                        QoS::AtMostOnce
                    } else if (flags / 8) % 4 == 1 {
                        QoS::AtLeastOnce
                    } else {
                        QoS::ExactlyOnce
                    })
                }
            }
        }),
{
    let none = Seq::<u8>::empty();
    let first = if (flags / 128) % 2 == 1 {
        wire::prefixed_text(user)
    } else {
        none
    };
    let second = if (flags / 64) % 2 == 1 {
        wire::prefixed(password)
    } else {
        none
    };
    let s3 = first + (second + extra);
    let testament = if (flags / 4) % 2 == 1 {
        will_block + (wire::prefixed_text(topic) + wire::prefixed(payload))
    } else {
        none
    };
    let s2 = testament + s3;
    let s0 = block + (wire::prefixed_text(id) + s2);
    let qos = if (flags / 8) % 4 == 0 {
        QoS::AtMostOnce
    } else if (flags / 8) % 4 == 1 {
        QoS::AtLeastOnce
    } else {
        QoS::ExactlyOnce
    };
    let will = if (flags / 4) % 2 == 1 {
        Some(
            WillView { properties: will_m, topic, payload, qos, retain: (flags / 32) % 2 == 1 },
        )
    } else {
        None
    };
    assert(decode::take_will(version, flags, s2) == Ok::<(Option<WillView>, Seq<u8>), MqttError>(
        (will, s3),
    )) by {
        if (flags / 4) % 2 == 1 {
            will_is_read(version, flags, will_m, will_block, topic, payload, s3);
        } else {
            assert(s2 =~= s3);
        }
    }
    connect_fields_are_read(
        version,
        flags,
        (hi * 256 + lo) as u16,
        m,
        block,
        id,
        s2,
        will,
        user,
        password,
        extra,
    );
    connect_head_is_read(version, flags, hi, lo, s0);
}

/// What is wrong with a CONNECT body that is too short, names another protocol
/// or has another protocol level.
pub proof fn broken_connects_are_refused(body: Seq<u8>)
    ensures
        body.len() < 10 ==> decode::connect_from(body) == Err::<PacketView, MqttError>(
            MqttError::Codec(CodecError::UnexpectedEof),
        ),
        body.len() >= 10 && !(body[0] == 0 && body[1] == 4 && body[2] == 0x4D && body[3] == 0x51
            && body[4] == 0x54 && body[5] == 0x54) ==> decode::connect_from(body) == Err::<
            PacketView,
            MqttError,
        >(MqttError::Protocol(Violation::InvalidProtocolName)),
        body.len() >= 10 && body[0] == 0 && body[1] == 4 && body[2] == 0x4D && body[3] == 0x51
            && body[4] == 0x54 && body[5] == 0x54 && body[6] != 4 && body[6] != 5
            ==> decode::connect_from(body) == Err::<PacketView, MqttError>(
            MqttError::Protocol(Violation::UnsupportedProtocolLevel(body[6])),
        ),
{
    if body.len() >= 10 {
        let name = body.take(6);
        if body[0] == 0 && body[1] == 4 && body[2] == 0x4D && body[3] == 0x51 && body[4] == 0x54
            && body[5] == 0x54 {
            assert(name =~= decode::protocol_name());
        } else if name == decode::protocol_name() {
            assert(name[0] == 0 && name[1] == 4 && name[2] == 0x4D && name[3] == 0x51 && name[4]
                == 0x54 && name[5] == 0x54);
        }
    }
}

// ----------------------------------------------------------------------------
// CONNACK
// ----------------------------------------------------------------------------

/// CONNACK is written as a byte that says whether a session is taken up, then
/// the code in the numbering of the version, then, on MQTT 5, the properties.
pub proof fn connack_is_written_field_by_field(
    c: ConnackView,
    version: ProtocolVersion,
    block: Seq<u8>,
)
    requires
        writes_block(version, c.properties, block),
    ensures
        ({
            let present: u8 = if c.session_present {
                1
            } else {
                0
            };
            let code: u8 = if version == ProtocolVersion::V311 {
                match c.return_code {
                    ConnackReturnCode::Accepted => 0,
                    ConnackReturnCode::UnacceptableProtocolVersion => 1,
                    ConnackReturnCode::IdentifierRejected => 2,
                    ConnackReturnCode::ServerUnavailable => 3,
                    ConnackReturnCode::BadUsernameOrPassword => 4,
                    ConnackReturnCode::NotAuthorized => 5,
                }
            } else {
                match c.return_code {
                    ConnackReturnCode::Accepted => 0,
                    ConnackReturnCode::UnacceptableProtocolVersion => 0x84,
                    ConnackReturnCode::IdentifierRejected => 0x85,
                    ConnackReturnCode::BadUsernameOrPassword => 0x86,
                    ConnackReturnCode::NotAuthorized => 0x87,
                    ConnackReturnCode::ServerUnavailable => 0x88,
                }
            };
            encode::packet_bytes(PacketView::Connack(c), version) == Ok::<Seq<u8>, MqttError>(
                seq![0x20u8] + (wire::vbi_bytes(2 + block.len()) + (seq![present, code] + block)),
            )
        }),
{
    if version == ProtocolVersion::V311 {
        let present: u8 = if c.session_present {
            1
        } else {
            0
        };
        let code = packet::connack_number(c.return_code);
        assert(seq![present, code] + block =~= seq![present, code]);
    }
}

/// A CONNACK body in that layout is read back field by field; a code that the
/// version does not have, and bytes behind the last field, are errors.
pub proof fn connack_is_read_field_by_field(
    version: ProtocolVersion,
    present: u8,
    code: u8,
    m: PropertiesView,
    block: Seq<u8>,
    more: Seq<u8>,
)
    requires
        reads_block(version, m, block),
    ensures
        ({
            let body = seq![present, code] + (block + more);
            let known = if version == ProtocolVersion::V311 {
                code <= 5
            } else {
                code == 0 || 0x84 <= code <= 0x88
            };
            let got = decode::connack_from(version, body);
            if !known {
                got == Err::<PacketView, MqttError>(
                    MqttError::Codec(CodecError::InvalidPacketType(code)),
                )
            } else if more.len() > 0 {
                got == Err::<PacketView, MqttError>(
                    MqttError::Codec(
                        CodecError::PayloadTooLong { len: more.len() as usize, max: 0 },
                    ),
                )
            } else {
                got matches Ok(PacketView::Connack(c)) && {
                    &&& c.properties == m
                    &&& c.session_present == (present % 2 == 1)
                    &&& code == 0 <==> c.return_code == ConnackReturnCode::Accepted
                    &&& code == 1 || code == 0x84 <==> c.return_code
                        == ConnackReturnCode::UnacceptableProtocolVersion
                    &&& code == 2 || code == 0x85 <==> c.return_code
                        == ConnackReturnCode::IdentifierRejected
                    &&& code == 3 || code == 0x88 <==> c.return_code
                        == ConnackReturnCode::ServerUnavailable
                    &&& code == 4 || code == 0x86 <==> c.return_code
                        == ConnackReturnCode::BadUsernameOrPassword
                    &&& code == 5 || code == 0x87 <==> c.return_code
                        == ConnackReturnCode::NotAuthorized
                }
            }
        }),
{
    two_at_front(present, code, block + more);
    block_at_front(version, m, block, more);
}

// ----------------------------------------------------------------------------
// PUBLISH
// ----------------------------------------------------------------------------

/// PUBLISH has DUP (8), the QoS level (2 and 4) and RETAIN (1) in its first
/// byte, then the topic, the packet identifier where the level is above QoS 0,
/// the properties, and the payload to the end. Its header alone is not written
/// without the identifier that its level asks for.
pub proof fn publish_is_written_field_by_field(
    p: PublishView,
    version: ProtocolVersion,
    block: Seq<u8>,
)
    requires
        writes_block(version, p.properties, block),
    ensures
        ({
            let first = (0x30 + (if p.dup {
                8int
            } else {
                0
            }) + (match p.qos {
                QoS::AtMostOnce => 0int,
                QoS::AtLeastOnce => 2,
                QoS::ExactlyOnce => 4,
            }) + (if p.retain {
                1int
            } else {
                0
            })) as u8;
            let id = match p.packet_id {
                Some(n) if p.qos != QoS::AtMostOnce => seq![(n / 256) as u8, (n % 256) as u8],
                _ => Seq::empty(),
            };
            let header = wire::prefixed_text(p.topic) + (id + block);
            let n = header.len() + p.payload.len();
            &&& encode::packet_bytes(PacketView::Publish(p), version) == Ok::<Seq<u8>, MqttError>(
                seq![first] + (wire::vbi_bytes(n) + (header + p.payload)),
            )
            &&& encode::publish_header(p, version) == (if p.qos != QoS::AtMostOnce
                && p.packet_id is None {
                Err::<Seq<u8>, MqttError>(
                    MqttError::Codec(CodecError::PayloadTooLong { len: 0, max: 0 }),
                )
            } else {
                Ok(seq![first] + (wire::vbi_bytes(n) + header))
            })
        }),
{
    assert(version == ProtocolVersion::V311 ==> block =~= Seq::<u8>::empty());
    if p.qos != QoS::AtMostOnce && p.packet_id is Some {
        let n = p.packet_id.unwrap();
        assert(encode::publish_id(p) =~= seq![(n / 256) as u8, (n % 256) as u8]);
    }
}

/// A PUBLISH in that layout is read back field by field; the QoS level 3 does
/// not exist.
pub proof fn publish_is_read_field_by_field(
    version: ProtocolVersion,
    first: u8,
    topic: Seq<char>,
    hi: u8,
    lo: u8,
    m: PropertiesView,
    block: Seq<u8>,
    payload: Seq<u8>,
)
    requires
        reads_block(version, m, block),
        encode_utf8(topic).len() <= 65535,
    ensures
        ({
            let level = (first / 2) % 4;
            let id = if level == 0 {
                Seq::empty()
            } else {
                seq![hi, lo]
            };
            let body = wire::prefixed_text(topic) + (id + (block + payload));
            let got = decode::publish_from(version, first, body);
            if level == 3 {
                got == Err::<PacketView, MqttError>(MqttError::Codec(CodecError::QosInvalid(3)))
            } else {
                got matches Ok(PacketView::Publish(p)) && {
                    &&& p.topic == topic
                    &&& p.payload == payload
                    &&& p.properties == m
                    &&& p.dup == ((first / 8) % 2 == 1)
                    &&& p.retain == (first % 2 == 1)
                    &&& level == 0 ==> p.qos == QoS::AtMostOnce && p.packet_id is None
                    &&& level == 1 ==> p.qos == QoS::AtLeastOnce
                    &&& level == 2 ==> p.qos == QoS::ExactlyOnce
                    &&& level > 0 ==> (p.packet_id matches Some(n) && n == hi * 256 + lo)
                }
            }
        }),
{
    let level = (first / 2) % 4;
    let s2 = block + payload;
    let id = if level == 0 {
        Seq::<u8>::empty()
    } else {
        seq![hi, lo]
    };
    wire::text_round_trip(topic, id + s2);
    two_at_front(hi, lo, s2);
    assert(Seq::<u8>::empty() + s2 =~= s2);
    block_at_front(version, m, block, payload);
}

// ----------------------------------------------------------------------------
// Acknowledgements and bare packets
// ----------------------------------------------------------------------------

/// The packets of fixed size, byte by byte.
pub proof fn small_packets_have_fixed_bytes(id: u16, version: ProtocolVersion)
    ensures
        ({
            let hi = (id / 256) as u8;
            let lo = (id % 256) as u8;
            &&& encode::packet_bytes(PacketView::Puback(id), version) == Ok::<Seq<u8>, MqttError>(
                seq![0x40u8, 2u8, hi, lo],
            )
            &&& encode::packet_bytes(PacketView::Pubrec(id), version) == Ok::<Seq<u8>, MqttError>(
                seq![0x50u8, 2u8, hi, lo],
            )
            &&& encode::packet_bytes(PacketView::Pubrel(id), version) == Ok::<Seq<u8>, MqttError>(
                seq![0x62u8, 2u8, hi, lo],
            )
            &&& encode::packet_bytes(PacketView::Pubcomp(id), version) == Ok::<Seq<u8>, MqttError>(
                seq![0x70u8, 2u8, hi, lo],
            )
            &&& encode::packet_bytes(PacketView::Pingreq, version) == Ok::<Seq<u8>, MqttError>(
                seq![0xC0u8, 0u8],
            )
            &&& encode::packet_bytes(PacketView::Pingresp, version) == Ok::<Seq<u8>, MqttError>(
                seq![0xD0u8, 0u8],
            )
            &&& encode::packet_bytes(PacketView::Disconnect, version) == Ok::<Seq<u8>, MqttError>(
                seq![0xE0u8, 0u8],
            )
        }),
{
    frame_of_an_identifier(0x40, id);
    frame_of_an_identifier(0x50, id);
    frame_of_an_identifier(0x62, id);
    frame_of_an_identifier(0x70, id);
    frame_of_nothing(0xC0);
    frame_of_nothing(0xD0);
    frame_of_nothing(0xE0);
}

proof fn frame_of_an_identifier(first: u8, id: u16)
    ensures
        encode::frame(first, wire::u16_bytes(id)) == seq![
            first,
            2u8,
            (id / 256) as u8,
            (id % 256) as u8,
        ],
{
    assert(encode::frame(first, wire::u16_bytes(id)) =~= seq![
        first,
        2u8,
        (id / 256) as u8,
        (id % 256) as u8,
    ]);
}

proof fn frame_of_nothing(first: u8)
    ensures
        encode::frame(first, Seq::empty()) == seq![first, 0u8],
{
    assert(encode::frame(first, Seq::empty()) =~= seq![first, 0u8]);
}

/// The four acknowledgements of a publish are read from their identifier. MQTT 5
/// may put a reason code, and properties, behind it, which make no difference.
/// The low half of the first byte has to be 2 for PUBREL and 0 for the others.
pub proof fn acknowledgements_are_read(
    version: ProtocolVersion,
    first: u8,
    packet_type: PacketType,
    hi: u8,
    lo: u8,
    reason: u8,
    m: PropertiesView,
    block: Seq<u8>,
)
    requires
        packet_type == PacketType::Puback || packet_type == PacketType::Pubrec || packet_type
            == PacketType::Pubrel || packet_type == PacketType::Pubcomp,
        reads_block(ProtocolVersion::V5, m, block),
    ensures
        ({
            let id = hi * 256 + lo;
            let expected: int = if packet_type == PacketType::Pubrel {
                2
            } else {
                0
            };
            let plain = decode::ack_from(version, first, packet_type, seq![hi, lo]);
            let with_reason = decode::ack_from(
                ProtocolVersion::V5,
                first,
                packet_type,
                seq![hi, lo] + seq![reason],
            );
            let with_properties = decode::ack_from(
                ProtocolVersion::V5,
                first,
                packet_type,
                seq![hi, lo] + (seq![reason] + block),
            );
            if first % 16 == expected {
                &&& plain matches Ok(p) && match packet_type {
                    PacketType::Puback => p matches PacketView::Puback(n) && n == id,
                    PacketType::Pubrec => p matches PacketView::Pubrec(n) && n == id,
                    PacketType::Pubrel => p matches PacketView::Pubrel(n) && n == id,
                    _ => p matches PacketView::Pubcomp(n) && n == id,
                }
                &&& with_reason == plain
                &&& with_properties == plain
            } else {
                &&& plain == Err::<PacketView, MqttError>(
                    MqttError::Codec(CodecError::ReservedFlagSet),
                )
                &&& with_reason == plain
                &&& with_properties == plain
            }
        }),
{
    let none = Seq::<u8>::empty();
    assert(seq![hi, lo] + none =~= seq![hi, lo]);
    two_at_front(hi, lo, none);
    two_at_front(hi, lo, seq![reason]);
    two_at_front(hi, lo, seq![reason] + block);
    assert((seq![reason] + block).skip(1) =~= block + none);
    block_at_front(ProtocolVersion::V5, m, block, none);
    properties_are_not_empty_blocks(m, block);
}

proof fn properties_are_not_empty_blocks(m: PropertiesView, block: Seq<u8>)
    requires
        reads_block(ProtocolVersion::V5, m, block),
    ensures
        block.len() >= 1,
{
    let body = choose|body: Seq<u8>| #[trigger] is_block_of(block, body, m);
    wire::vbi_length(body.len());
}

/// A body with nothing but an identifier has exactly two bytes on MQTT 3.1.1 and
/// at least two on MQTT 5; the packets without a body have none, but that an
/// MQTT 5 DISCONNECT may have a reason code.
pub proof fn bodies_have_their_size(
    first: u8,
    packet_type: PacketType,
    body: Seq<u8>,
    reason: u8,
)
    ensures
        body.len() != 2 ==> decode::ack_from(ProtocolVersion::V311, first, packet_type, body)
            == Err::<PacketView, MqttError>(
            MqttError::Codec(CodecError::PayloadTooLong { len: body.len() as usize, max: 2 }),
        ),
        body.len() != 2 ==> decode::unsuback_from(ProtocolVersion::V311, body) == Err::<
            PacketView,
            MqttError,
        >(MqttError::Codec(CodecError::PayloadTooLong { len: body.len() as usize, max: 2 })),
        body.len() < 2 ==> decode::ack_from(ProtocolVersion::V5, first, packet_type, body) == Err::<
            PacketView,
            MqttError,
        >(
            MqttError::Codec(
                CodecError::PayloadTooLong { len: body.len() as usize, max: usize::MAX },
            ),
        ),
        body.len() < 2 ==> decode::unsuback_from(ProtocolVersion::V5, body) == Err::<
            PacketView,
            MqttError,
        >(
            MqttError::Codec(
                CodecError::PayloadTooLong { len: body.len() as usize, max: usize::MAX },
            ),
        ),
        body.len() > 0 ==> decode::bare_from(PacketView::Pingreq, body) == Err::<
            PacketView,
            MqttError,
        >(MqttError::Codec(CodecError::PayloadTooLong { len: body.len() as usize, max: 0 })),
        body.len() > 0 ==> decode::disconnect_from(ProtocolVersion::V311, body) == Err::<
            PacketView,
            MqttError,
        >(MqttError::Codec(CodecError::PayloadTooLong { len: body.len() as usize, max: 0 })),
        decode::disconnect_from(ProtocolVersion::V311, Seq::empty()) == Ok::<
            PacketView,
            MqttError,
        >(PacketView::Disconnect),
        decode::disconnect_from(ProtocolVersion::V5, Seq::empty()) == Ok::<PacketView, MqttError>(
            PacketView::Disconnect,
        ),
        decode::disconnect_from(ProtocolVersion::V5, seq![reason]) == Ok::<PacketView, MqttError>(
            PacketView::Disconnect,
        ),
        decode::bare_from(PacketView::Pingreq, Seq::empty()) == Ok::<PacketView, MqttError>(
            PacketView::Pingreq,
        ),
        decode::bare_from(PacketView::Pingresp, Seq::empty()) == Ok::<PacketView, MqttError>(
            PacketView::Pingresp,
        ),
{
}

// ----------------------------------------------------------------------------
// SUBSCRIBE and SUBACK
// ----------------------------------------------------------------------------

/// Filters one after the other, each with the byte of its QoS level.
pub open spec fn filters_in_order(v: Seq<(Seq<char>, QoS)>) -> Seq<u8>
    decreases v.len(),
{
    if v.len() == 0 {
        Seq::empty()
    } else {
        let level: u8 = match v[0].1 {
            QoS::AtMostOnce => 0,
            QoS::AtLeastOnce => 1,
            QoS::ExactlyOnce => 2,
        };
        wire::prefixed_text(v[0].0) + (seq![level] + filters_in_order(v.skip(1)))
    }
}

proof fn one_more_filter(v: Seq<(Seq<char>, QoS)>, x: (Seq<char>, QoS))
    ensures
        filters_in_order(v.push(x)) == filters_in_order(v) + (wire::prefixed_text(x.0) + seq![
            request::qos_number(x.1),
        ]),
    decreases v.len(),
{
    let tail = wire::prefixed_text(x.0) + seq![request::qos_number(x.1)];
    let none = Seq::<u8>::empty();
    if v.len() == 0 {
        assert(v.push(x).skip(1) =~= v);
        assert(filters_in_order(v.push(x).skip(1)) =~= none);
        assert(seq![request::qos_number(x.1)] + none =~= seq![request::qos_number(x.1)]);
        assert(none + tail =~= tail);
    } else {
        let n = request::qos_number(v[0].1);
        let rest = filters_in_order(v.skip(1));
        one_more_filter(v.skip(1), x);
        assert(v.push(x).skip(1) =~= v.skip(1).push(x));
        assert(v.push(x)[0] == v[0]);
        wire::joined(wire::prefixed_text(v[0].0), seq![n] + rest, tail);
        wire::joined(seq![n], rest, tail);
    }
}

proof fn filters_are_in_order(v: Seq<(Seq<char>, QoS)>)
    ensures
        encode::subscription_bytes(v) == filters_in_order(v),
    decreases v.len(),
{
    if v.len() > 0 {
        filters_are_in_order(v.drop_last());
        one_more_filter(v.drop_last(), v.last());
        assert(v.drop_last().push(v.last()) =~= v);
    }
}

/// SUBSCRIBE is written as the packet identifier, the empty property block on
/// MQTT 5, and the filters in their order.
pub proof fn subscribe_is_written_field_by_field(s: SubscribeView, version: ProtocolVersion)
    ensures
        ({
            let block = if version == ProtocolVersion::V5 {
                seq![0u8]
            } else {
                Seq::empty()
            };
            let body = seq![(s.packet_id / 256) as u8, (s.packet_id % 256) as u8] + (block
                + filters_in_order(s.subscriptions));
            encode::packet_bytes(PacketView::Subscribe(s), version) == Ok::<Seq<u8>, MqttError>(
                seq![0x82u8] + (wire::vbi_bytes(body.len()) + body),
            )
        }),
{
    filters_are_in_order(s.subscriptions);
}

/// A SUBSCRIBE body is read as its identifier and its filters; its properties
/// make no difference.
pub proof fn subscribe_is_read_field_by_field(
    version: ProtocolVersion,
    hi: u8,
    lo: u8,
    m: PropertiesView,
    block: Seq<u8>,
    v: Seq<(Seq<char>, QoS)>,
)
    requires
        reads_block(version, m, block),
        v.len() > 0,
        forall|i: int| 0 <= i < v.len() ==> encode_utf8((#[trigger] v[i]).0).len() <= 65535,
    ensures
        decode::subscribe_from(version, seq![hi, lo] + (block + filters_in_order(v))) matches Ok(
            PacketView::Subscribe(s),
        ) && s.packet_id == hi * 256 + lo && s.subscriptions == v,
{
    let list = filters_in_order(v);
    two_at_front(hi, lo, block + list);
    block_at_front(version, m, block, list);
    filters_are_read(version, v, Seq::empty());
    assert(Seq::<(Seq<char>, QoS)>::empty() + v =~= v);
    assert(list.len() >= 3);
}

proof fn filters_are_read(
    version: ProtocolVersion,
    v: Seq<(Seq<char>, QoS)>,
    acc: Seq<(Seq<char>, QoS)>,
)
    requires
        forall|i: int| 0 <= i < v.len() ==> encode_utf8((#[trigger] v[i]).0).len() <= 65535,
    ensures
        decode::take_subscriptions(version, filters_in_order(v), acc) == Ok::<
            Seq<(Seq<char>, QoS)>,
            MqttError,
        >(acc + v),
    decreases v.len(),
{
    if v.len() == 0 {
        assert(acc + v =~= acc);
    } else {
        let n = request::qos_number(v[0].1);
        assert(encode_utf8(v[0].0).len() <= 65535);
        filters_are_read_one_by_one(version, v[0].0, n, filters_in_order(v.skip(1)), acc);
        assert forall|i: int| 0 <= i < v.skip(1).len() implies encode_utf8(
            (#[trigger] v.skip(1)[i]).0,
        ).len() <= 65535 by {
            assert(v.skip(1)[i] == v[i + 1]);
        }
        filters_are_read(version, v.skip(1), acc.push(v[0]));
        assert(acc.push(v[0]) + v.skip(1) =~= acc + v);
    }
}

/// One filter of a SUBSCRIBE and its options byte. On MQTT 3.1.1 that is the QoS
/// level; on MQTT 5 the level stands in the lowest two bits, two flags make no
/// difference, and the retain handling value 3 and the two highest bits are
/// reserved.
pub proof fn filters_are_read_one_by_one(
    version: ProtocolVersion,
    topic: Seq<char>,
    options: u8,
    rest: Seq<u8>,
    acc: Seq<(Seq<char>, QoS)>,
)
    requires
        encode_utf8(topic).len() <= 65535,
    ensures
        ({
            let got = decode::take_subscriptions(
                version,
                wire::prefixed_text(topic) + (seq![options] + rest),
                acc,
            );
            let reserved = if version == ProtocolVersion::V311 {
                options > 2
            } else {
                options >= 64 || (options / 16) % 4 == 3
            };
            &&& reserved ==> got == Err::<Seq<(Seq<char>, QoS)>, MqttError>(
                MqttError::Codec(CodecError::ReservedFlagSet),
            )
            &&& !reserved && options % 4 == 3 ==> got == Err::<Seq<(Seq<char>, QoS)>, MqttError>(
                MqttError::Codec(CodecError::QosInvalid(3)),
            )
            &&& !reserved && options % 4 == 0 ==> got == decode::take_subscriptions(
                version,
                rest,
                acc.push((topic, QoS::AtMostOnce)),
            )
            &&& !reserved && options % 4 == 1 ==> got == decode::take_subscriptions(
                version,
                rest,
                acc.push((topic, QoS::AtLeastOnce)),
            )
            &&& !reserved && options % 4 == 2 ==> got == decode::take_subscriptions(
                version,
                rest,
                acc.push((topic, QoS::ExactlyOnce)),
            )
        }),
{
    let tail = seq![options] + rest;
    wire::text_round_trip(topic, tail);
    assert(tail.skip(1) =~= rest);
    assert(tail[0] == options);
}

/// The byte of a SUBACK code.
pub open spec fn code_byte(c: SubackCode) -> u8 {
    match c {
        SubackCode::Granted(QoS::AtMostOnce) => 0,
        SubackCode::Granted(QoS::AtLeastOnce) => 1,
        SubackCode::Granted(QoS::ExactlyOnce) => 2,
        SubackCode::Failure => 0x80,
    }
}

/// SUBACK is written as the packet identifier, the empty property block on
/// MQTT 5, and one byte for each code.
pub proof fn suback_is_written_field_by_field(s: SubackView, version: ProtocolVersion)
    ensures
        ({
            let block = if version == ProtocolVersion::V5 {
                seq![0u8]
            } else {
                Seq::empty()
            };
            let codes = Seq::new(s.return_codes.len(), |i: int| code_byte(s.return_codes[i]));
            let body = seq![(s.packet_id / 256) as u8, (s.packet_id % 256) as u8] + (block + codes);
            encode::packet_bytes(PacketView::Suback(s), version) == Ok::<Seq<u8>, MqttError>(
                seq![0x90u8] + (wire::vbi_bytes(body.len()) + body),
            )
        }),
{
    assert(encode::code_bytes(s.return_codes) =~= Seq::new(
        s.return_codes.len(),
        |i: int| code_byte(s.return_codes[i]),
    ));
}

proof fn codes_are_read(version: ProtocolVersion, bytes: Seq<u8>, acc: Seq<SubackCode>)
    requires
        forall|i: int|
            0 <= i < bytes.len() ==> (#[trigger] bytes[i]) <= 2 || bytes[i] == 0x80 || (version
                == ProtocolVersion::V5 && bytes[i] > 0x80),
    ensures
        decode::take_codes(version, bytes, acc) matches Ok(codes) && codes.len() == acc.len()
            + bytes.len() && (forall|i: int|
            0 <= i < acc.len() ==> #[trigger] codes[i] == acc[i]) && (forall|i: int|
            0 <= i < bytes.len() ==> #[trigger] codes[acc.len() + i] == (if bytes[i] == 0 {
                SubackCode::Granted(QoS::AtMostOnce)
            } else if bytes[i] == 1 {
                SubackCode::Granted(QoS::AtLeastOnce)
            } else if bytes[i] == 2 {
                SubackCode::Granted(QoS::ExactlyOnce)
            } else {
                SubackCode::Failure
            })),
    decreases bytes.len(),
{
    if bytes.len() > 0 {
        let tail = bytes.skip(1);
        let b = bytes[0];
        let c = decode::code_from(version, b).unwrap();
        assert forall|i: int| 0 <= i < tail.len() implies (#[trigger] tail[i]) <= 2 || tail[i]
            == 0x80 || (version == ProtocolVersion::V5 && tail[i] > 0x80) by {
            assert(tail[i] == bytes[i + 1]);
        }
        codes_are_read(version, tail, acc.push(c));
        let codes = decode::take_codes(version, bytes, acc).unwrap();
        assert forall|i: int| 0 <= i < acc.len() implies #[trigger] codes[i] == acc[i] by {
            assert(codes[i] == acc.push(c)[i]);
        }
        assert forall|i: int| 0 <= i < bytes.len() implies #[trigger] codes[acc.len() + i] == (
        if bytes[i] == 0 {
            SubackCode::Granted(QoS::AtMostOnce)
        } else if bytes[i] == 1 {
            SubackCode::Granted(QoS::AtLeastOnce)
        } else if bytes[i] == 2 {
            SubackCode::Granted(QoS::ExactlyOnce)
        } else {
            SubackCode::Failure
        }) by {
            if i == 0 {
                assert(codes[acc.len() as int] == acc.push(c)[acc.len() as int]);
            } else {
                assert(codes[acc.push(c).len() + (i - 1)] == codes[acc.len() + i]);
                assert(tail[i - 1] == bytes[i]);
            }
        }
    }
}

/// A SUBACK body is read as its identifier and one code for each byte, in order.
/// MQTT 5 has more codes for failure than 0x80; other bytes are errors.
pub proof fn suback_is_read_field_by_field(
    version: ProtocolVersion,
    hi: u8,
    lo: u8,
    m: PropertiesView,
    block: Seq<u8>,
    bytes: Seq<u8>,
)
    requires
        reads_block(version, m, block),
        bytes.len() > 0,
        forall|i: int|
            0 <= i < bytes.len() ==> (#[trigger] bytes[i]) <= 2 || bytes[i] == 0x80 || (version
                == ProtocolVersion::V5 && bytes[i] > 0x80),
    ensures
        decode::suback_from(version, seq![hi, lo] + (block + bytes)) matches Ok(
            PacketView::Suback(s),
        ) && s.packet_id == hi * 256 + lo && s.return_codes.len() == bytes.len() && (forall|i: int|
            0 <= i < bytes.len() ==> #[trigger] s.return_codes[i] == (if bytes[i] == 0 {
                SubackCode::Granted(QoS::AtMostOnce)
            } else if bytes[i] == 1 {
                SubackCode::Granted(QoS::AtLeastOnce)
            } else if bytes[i] == 2 {
                SubackCode::Granted(QoS::ExactlyOnce)
            } else {
                SubackCode::Failure
            })),
{
    two_at_front(hi, lo, block + bytes);
    block_at_front(version, m, block, bytes);
    codes_are_read(version, bytes, Seq::empty());
    let codes = decode::take_codes(version, bytes, Seq::empty()).unwrap();
    let none = Seq::<SubackCode>::empty();
    assert forall|i: int| 0 <= i < bytes.len() implies #[trigger] codes[i] == (if bytes[i] == 0 {
        SubackCode::Granted(QoS::AtMostOnce)
    } else if bytes[i] == 1 {
        SubackCode::Granted(QoS::AtLeastOnce)
    } else if bytes[i] == 2 {
        SubackCode::Granted(QoS::ExactlyOnce)
    } else {
        SubackCode::Failure
    }) by {
        assert(codes[none.len() + i] == codes[i]);
    }
}

/// A byte that is no SUBACK code is an error that names it.
pub proof fn bad_codes_are_refused(
    version: ProtocolVersion,
    b: u8,
    rest: Seq<u8>,
    acc: Seq<SubackCode>,
)
    requires
        2 < b < 0x80 || (b > 0x80 && version == ProtocolVersion::V311),
    ensures
        decode::take_codes(version, seq![b] + rest, acc) == Err::<Seq<SubackCode>, MqttError>(
            MqttError::Codec(CodecError::InvalidPacketType(b)),
        ),
{
    assert((seq![b] + rest)[0] == b);
}

// ----------------------------------------------------------------------------
// UNSUBSCRIBE and UNSUBACK
// ----------------------------------------------------------------------------

/// Topics one after the other.
pub open spec fn topics_in_order(v: Seq<Seq<char>>) -> Seq<u8>
    decreases v.len(),
{
    if v.len() == 0 {
        Seq::empty()
    } else {
        wire::prefixed_text(v[0]) + topics_in_order(v.skip(1))
    }
}

proof fn one_more_topic(v: Seq<Seq<char>>, x: Seq<char>)
    ensures
        topics_in_order(v.push(x)) == topics_in_order(v) + wire::prefixed_text(x),
    decreases v.len(),
{
    let none = Seq::<u8>::empty();
    let tail = wire::prefixed_text(x);
    if v.len() == 0 {
        assert(v.push(x).skip(1) =~= v);
        assert(topics_in_order(v.push(x).skip(1)) =~= none);
        assert(tail + none =~= tail);
        assert(none + tail =~= tail);
    } else {
        one_more_topic(v.skip(1), x);
        assert(v.push(x).skip(1) =~= v.skip(1).push(x));
        assert(v.push(x)[0] == v[0]);
        wire::joined(wire::prefixed_text(v[0]), topics_in_order(v.skip(1)), tail);
    }
}

proof fn topics_are_in_order(v: Seq<Seq<char>>)
    ensures
        encode::topic_bytes(v) == topics_in_order(v),
    decreases v.len(),
{
    if v.len() > 0 {
        topics_are_in_order(v.drop_last());
        one_more_topic(v.drop_last(), v.last());
        assert(v.drop_last().push(v.last()) =~= v);
    }
}

/// UNSUBSCRIBE is written as the packet identifier, the empty property block on
/// MQTT 5, and the topics in their order.
pub proof fn unsubscribe_is_written_field_by_field(u: UnsubscribeView, version: ProtocolVersion)
    ensures
        ({
            let block = if version == ProtocolVersion::V5 {
                seq![0u8]
            } else {
                Seq::empty()
            };
            let body = seq![(u.packet_id / 256) as u8, (u.packet_id % 256) as u8] + (block
                + topics_in_order(u.topics));
            encode::packet_bytes(PacketView::Unsubscribe(u), version) == Ok::<Seq<u8>, MqttError>(
                seq![0xA2u8] + (wire::vbi_bytes(body.len()) + body),
            )
        }),
{
    topics_are_in_order(u.topics);
}

#[verifier::rlimit(50)]
proof fn topics_are_read(v: Seq<Seq<char>>, acc: Seq<Seq<char>>)
    requires
        forall|i: int| 0 <= i < v.len() ==> encode_utf8(#[trigger] v[i]).len() <= 65535,
    ensures
        decode::take_topics(topics_in_order(v), acc) == Ok::<Seq<Seq<char>>, MqttError>(acc + v),
    decreases v.len(),
{
    if v.len() == 0 {
        assert(acc + v =~= acc);
    } else {
        assert(encode_utf8(v[0]).len() <= 65535);
        wire::text_round_trip(v[0], topics_in_order(v.skip(1)));
        assert forall|i: int| 0 <= i < v.skip(1).len() implies encode_utf8(
            #[trigger] v.skip(1)[i],
        ).len() <= 65535 by {
            assert(v.skip(1)[i] == v[i + 1]);
        }
        topics_are_read(v.skip(1), acc.push(v[0]));
        assert(acc.push(v[0]) + v.skip(1) =~= acc + v);
    }
}

/// An UNSUBSCRIBE body is read as its identifier and its topics, in order.
pub proof fn unsubscribe_is_read_field_by_field(
    version: ProtocolVersion,
    hi: u8,
    lo: u8,
    m: PropertiesView,
    block: Seq<u8>,
    v: Seq<Seq<char>>,
)
    requires
        reads_block(version, m, block),
        v.len() > 0,
        forall|i: int| 0 <= i < v.len() ==> encode_utf8(#[trigger] v[i]).len() <= 65535,
    ensures
        decode::unsubscribe_from(version, seq![hi, lo] + (block + topics_in_order(v))) matches Ok(
            PacketView::Unsubscribe(u),
        ) && u.packet_id == hi * 256 + lo && u.topics == v,
{
    let list = topics_in_order(v);
    two_at_front(hi, lo, block + list);
    block_at_front(version, m, block, list);
    topics_are_read(v, Seq::empty());
    assert(Seq::<Seq<char>>::empty() + v =~= v);
    assert(list.len() >= 2);
}

/// UNSUBACK is written as the packet identifier; MQTT 5 has the empty property
/// block and the reason codes behind it.
pub proof fn unsuback_is_written_field_by_field(u: UnsubackView)
    ensures
        ({
            let hi = (u.packet_id / 256) as u8;
            let lo = (u.packet_id % 256) as u8;
            &&& encode::packet_bytes(PacketView::Unsuback(u), ProtocolVersion::V311) == Ok::<
                Seq<u8>,
                MqttError,
            >(seq![0xB0u8, 2u8, hi, lo])
            &&& encode::packet_bytes(PacketView::Unsuback(u), ProtocolVersion::V5) == Ok::<
                Seq<u8>,
                MqttError,
            >(
                seq![0xB0u8] + (wire::vbi_bytes(3 + u.reason_codes.len()) + (seq![hi, lo, 0u8]
                    + u.reason_codes)),
            )
        }),
{
    let hi = (u.packet_id / 256) as u8;
    let lo = (u.packet_id % 256) as u8;
    frame_of_an_identifier(0xB0, u.packet_id);
    assert(encode::unsuback_body(u, ProtocolVersion::V5) =~= seq![hi, lo, 0u8] + u.reason_codes);
}

/// An UNSUBACK body is read as its identifier and, on MQTT 5, the reason codes
/// behind the properties.
pub proof fn unsuback_is_read_field_by_field(
    hi: u8,
    lo: u8,
    m: PropertiesView,
    block: Seq<u8>,
    codes: Seq<u8>,
)
    requires
        reads_block(ProtocolVersion::V5, m, block),
    ensures
        decode::unsuback_from(ProtocolVersion::V311, seq![hi, lo]) matches Ok(
            PacketView::Unsuback(u),
        ) && u.packet_id == hi * 256 + lo && u.reason_codes.len() == 0,
        decode::unsuback_from(ProtocolVersion::V5, seq![hi, lo] + (block + codes)) matches Ok(
            PacketView::Unsuback(u),
        ) && u.packet_id == hi * 256 + lo && u.reason_codes == codes,
{
    let none = Seq::<u8>::empty();
    assert(seq![hi, lo] + none =~= seq![hi, lo]);
    two_at_front(hi, lo, none);
    two_at_front(hi, lo, block + codes);
    block_at_front(ProtocolVersion::V5, m, block, codes);
}

// ----------------------------------------------------------------------------
// Frames
// ----------------------------------------------------------------------------

/// The upper half of the first byte says which packet a body makes.
pub proof fn bodies_are_read_by_their_type(
    first: u8,
    body: Seq<u8>,
    version: ProtocolVersion,
    rest: Seq<u8>,
)
    requires
        body.len() <= 268_435_455,
        1 <= first / 16 <= 14,
    ensures
        ({
            let kind = first / 16;
            let got = decode::take_packet(
                seq![first] + (wire::vbi_bytes(body.len()) + body) + rest,
                version,
            );
            let want = if kind == 1 {
                decode::connect_from(body)
            } else if kind == 2 {
                decode::connack_from(version, body)
            } else if kind == 3 {
                decode::publish_from(version, first, body)
            } else if kind == 4 {
                decode::ack_from(version, first, PacketType::Puback, body)
            } else if kind == 5 {
                decode::ack_from(version, first, PacketType::Pubrec, body)
            } else if kind == 6 {
                decode::ack_from(version, first, PacketType::Pubrel, body)
            } else if kind == 7 {
                decode::ack_from(version, first, PacketType::Pubcomp, body)
            } else if kind == 8 {
                decode::subscribe_from(version, body)
            } else if kind == 9 {
                decode::suback_from(version, body)
            } else if kind == 10 {
                decode::unsubscribe_from(version, body)
            } else if kind == 11 {
                decode::unsuback_from(version, body)
            } else if kind == 12 {
                decode::bare_from(PacketView::Pingreq, body)
            } else if kind == 13 {
                decode::bare_from(PacketView::Pingresp, body)
            } else {
                decode::disconnect_from(version, body)
            };
            &&& got.packet == (match want {
                Ok(p) => Ok(Some(p)),
                Err(e) => Err::<Option<PacketView>, MqttError>(e),
            })
            &&& got.rest == rest
        }),
{
    reveal(decode::packet_from);
    let packet_type = packet::type_from(first / 16).unwrap();
    laws::frame_round_trip(first, packet_type, body, version, rest);
}

/// A first byte of no known type is an error and takes nothing; a frame that has
/// not arrived as a whole takes nothing either.
pub proof fn headers_are_checked_first(first: u8, second: u8, version: ProtocolVersion, s: Seq<u8>)
    ensures
        first / 16 == 0 || first / 16 == 15 ==> decode::take_packet(
            seq![first, second] + s,
            version,
        ).packet == Err::<Option<PacketView>, MqttError>(
            MqttError::Codec(CodecError::InvalidPacketType(first / 16)),
        ) && decode::take_packet(seq![first, second] + s, version).rest == seq![first, second] + s,
        1 <= first / 16 <= 14 && second < 128 && s.len() < second ==> decode::take_packet(
            seq![first, second] + s,
            version,
        ) == (decode::Decoded { packet: Ok(None), rest: seq![first, second] + s }),
        s.len() < 2 ==> decode::take_packet(s, version) == (decode::Decoded {
            packet: Ok(None),
            rest: s,
        }),
{
    let t = seq![first, second] + s;
    assert(t[0] == first);
    assert(t.skip(1)[0] == second);
    assert(t.skip(1).skip(1) =~= s);
}

/// Bodies that are too short for their packet are errors.
pub proof fn short_bodies_are_refused(version: ProtocolVersion, first: u8, body: Seq<u8>)
    ensures
        body.len() < 2 ==> decode::connack_from(version, body) == Err::<PacketView, MqttError>(
            MqttError::Codec(CodecError::UnexpectedEof),
        ),
        body.len() < 2 ==> decode::publish_from(version, first, body) == Err::<
            PacketView,
            MqttError,
        >(MqttError::Codec(CodecError::UnexpectedEof)),
        body.len() < 3 ==> decode::suback_from(version, body) == Err::<PacketView, MqttError>(
            MqttError::Codec(CodecError::UnexpectedEof),
        ),
        body.len() < 4 ==> decode::unsubscribe_from(version, body) == Err::<PacketView, MqttError>(
            MqttError::Codec(CodecError::UnexpectedEof),
        ),
        body.len() < 5 ==> decode::subscribe_from(version, body) == Err::<PacketView, MqttError>(
            MqttError::Codec(CodecError::UnexpectedEof),
        ),
{
}

/// Properties that have no encoding are reported.
pub proof fn packets_without_an_encoding_are_reported(
    c: ConnectView,
    k: ConnackView,
    p: PublishView,
    version: ProtocolVersion,
    e: MqttError,
)
    ensures
        c.version == ProtocolVersion::V5 && properties::block_bytes(c.properties) == Err::<
            Seq<u8>,
            MqttError,
        >(e) ==> encode::packet_bytes(PacketView::Connect(c), version) == Err::<Seq<u8>, MqttError>(
            e,
        ),
        c.version == ProtocolVersion::V5 && properties::block_bytes(c.properties) is Ok && (
        c.will matches Some(w) && properties::block_bytes(w.properties) == Err::<
            Seq<u8>,
            MqttError,
        >(e)) ==> encode::packet_bytes(PacketView::Connect(c), version) == Err::<
            Seq<u8>,
            MqttError,
        >(e),
        version == ProtocolVersion::V5 && properties::block_bytes(k.properties) == Err::<
            Seq<u8>,
            MqttError,
        >(e) ==> encode::packet_bytes(PacketView::Connack(k), version) == Err::<Seq<u8>, MqttError>(
            e,
        ),
        version == ProtocolVersion::V5 && properties::block_bytes(p.properties) == Err::<
            Seq<u8>,
            MqttError,
        >(e) ==> encode::packet_bytes(PacketView::Publish(p), version) == Err::<Seq<u8>, MqttError>(
            e,
        ) && encode::publish_header(p, version) == Err::<Seq<u8>, MqttError>(e),
{
}

/// What it is to write and to parse: exactly the bytes, exactly the packet, or
/// exactly the error.
pub proof fn writing_and_parsing_are_exact(
    b: Seq<u8>,
    p: PacketView,
    e: MqttError,
    bytes: Result<Vec<u8>, MqttError>,
    got: Result<packet::Packet, MqttError>,
)
    ensures
        encode::writes(Ok(b), bytes) ==> (bytes matches Ok(v) && v@ == b),
        encode::writes(Err(e), bytes) ==> bytes == Err::<Vec<u8>, MqttError>(e),
        decode::parses(Ok(p), got) ==> (got matches Ok(v) && v@ == p),
        decode::parses(Err(e), got) ==> got == Err::<packet::Packet, MqttError>(e),
{
}

/// A packet outside a connection is framed under MQTT 3.1.1, but for CONNECT,
/// which carries its version.
pub proof fn packets_know_their_version(c: ConnectView, p: PacketView)
    ensures
        crate::codec::own_version(PacketView::Connect(c)) == c.version,
        !(p is Connect) ==> crate::codec::own_version(p) == ProtocolVersion::V311,
{
}

/// A will at a QoS level that does not exist is an error.
pub proof fn wills_have_a_level(
    version: ProtocolVersion,
    flags: u8,
    m: PropertiesView,
    block: Seq<u8>,
    topic: Seq<char>,
    payload: Seq<u8>,
    rest: Seq<u8>,
)
    requires
        reads_block(version, m, block),
        encode_utf8(topic).len() <= 65535,
        payload.len() <= 65535,
        (flags / 4) % 2 == 1,
        (flags / 8) % 4 == 3,
    ensures
        decode::take_will(
            version,
            flags,
            block + (wire::prefixed_text(topic) + (wire::prefixed(payload) + rest)),
        ) == Err::<(Option<WillView>, Seq<u8>), MqttError>(
            MqttError::Codec(CodecError::QosInvalid(3)),
        ),
{
    let s2 = wire::prefixed(payload) + rest;
    let s1 = wire::prefixed_text(topic) + s2;
    block_at_front(version, m, block, s1);
    wire::text_round_trip(topic, s2);
    wire::prefixed_round_trip(payload, rest);
}

/// Nothing may follow the properties of an acknowledgement or of a DISCONNECT.
pub proof fn nothing_follows_the_properties(
    first: u8,
    packet_type: PacketType,
    hi: u8,
    lo: u8,
    reason: u8,
    m: PropertiesView,
    block: Seq<u8>,
    more: Seq<u8>,
)
    requires
        reads_block(ProtocolVersion::V5, m, block),
        first % 16 == (if packet_type == PacketType::Pubrel {
            2int
        } else {
            0
        }),
    ensures
        more.len() > 0 ==> decode::ack_from(
            ProtocolVersion::V5,
            first,
            packet_type,
            seq![hi, lo] + (seq![reason] + (block + more)),
        ) == Err::<PacketView, MqttError>(
            MqttError::Codec(CodecError::PayloadTooLong { len: more.len() as usize, max: 0 }),
        ),
        more.len() > 0 ==> decode::disconnect_from(
            ProtocolVersion::V5,
            seq![reason] + (block + more),
        ) == Err::<PacketView, MqttError>(
            MqttError::Codec(CodecError::PayloadTooLong { len: more.len() as usize, max: 0 }),
        ),
        more.len() == 0 ==> decode::disconnect_from(
            ProtocolVersion::V5,
            seq![reason] + (block + more),
        ) == Ok::<PacketView, MqttError>(PacketView::Disconnect),
{
    two_at_front(hi, lo, seq![reason] + (block + more));
    assert((seq![reason] + (block + more)).skip(1) =~= block + more);
    block_at_front(ProtocolVersion::V5, m, block, more);
    properties_are_not_empty_blocks(m, block);
}

/// Properties that cannot be read are the error of the packet that holds them.
pub proof fn broken_properties_break_the_packet(
    flags: u8,
    keep_alive: u16,
    hi: u8,
    lo: u8,
    s: Seq<u8>,
    e: MqttError,
)
    requires
        properties::take_block(s) == Err::<(PropertiesView, Seq<u8>), MqttError>(e),
        s.len() >= 3,
    ensures
        decode::connect_payload(ProtocolVersion::V5, flags, keep_alive, s) == Err::<
            ConnectView,
            MqttError,
        >(e),
        decode::connack_from(ProtocolVersion::V5, seq![hi, 0u8] + s) == Err::<
            PacketView,
            MqttError,
        >(e),
        decode::subscribe_from(ProtocolVersion::V5, seq![hi, lo] + s) == Err::<
            PacketView,
            MqttError,
        >(e),
        decode::suback_from(ProtocolVersion::V5, seq![hi, lo] + s) == Err::<PacketView, MqttError>(
            e,
        ),
        decode::unsubscribe_from(ProtocolVersion::V5, seq![hi, lo] + s) == Err::<
            PacketView,
            MqttError,
        >(e),
        decode::unsuback_from(ProtocolVersion::V5, seq![hi, lo] + s) == Err::<
            PacketView,
            MqttError,
        >(e),
        decode::disconnect_from(ProtocolVersion::V5, seq![lo] + s) == Err::<PacketView, MqttError>(
            e,
        ),
{
    two_at_front(hi, 0, s);
    two_at_front(hi, lo, s);
    assert((seq![lo] + s).skip(1) =~= s);
}

/// Text that cannot be read is the error of the packet that holds it.
pub proof fn broken_text_breaks_the_packet(
    version: ProtocolVersion,
    flags: u8,
    keep_alive: u16,
    first: u8,
    hi: u8,
    lo: u8,
    m: PropertiesView,
    block: Seq<u8>,
    s: Seq<u8>,
    e: MqttError,
    filters: Seq<(Seq<char>, QoS)>,
    topics: Seq<Seq<char>>,
)
    requires
        reads_block(version, m, block),
        wire::take_text(s) == Err::<(Seq<char>, Seq<u8>), MqttError>(e),
        s.len() >= 2,
        (first / 2) % 4 != 3,
    ensures
        decode::connect_payload(version, flags, keep_alive, block + s) == Err::<
            ConnectView,
            MqttError,
        >(e),
        decode::publish_from(version, first, s) == Err::<PacketView, MqttError>(e),
        decode::take_subscriptions(version, s, filters) == Err::<
            Seq<(Seq<char>, QoS)>,
            MqttError,
        >(e),
        decode::take_topics(s, topics) == Err::<Seq<Seq<char>>, MqttError>(e),
{
    block_at_front(version, m, block, s);
}

/// Properties behind a reason code that cannot be read are the error of the
/// packet, however short they are.
pub proof fn broken_properties_behind_a_reason(
    first: u8,
    packet_type: PacketType,
    hi: u8,
    lo: u8,
    reason: u8,
    s: Seq<u8>,
    e: MqttError,
)
    requires
        properties::take_block(s) == Err::<(PropertiesView, Seq<u8>), MqttError>(e),
        s.len() > 0,
        first % 16 == (if packet_type == PacketType::Pubrel {
            2int
        } else {
            0
        }),
    ensures
        decode::ack_from(
            ProtocolVersion::V5,
            first,
            packet_type,
            seq![hi, lo] + (seq![reason] + s),
        ) == Err::<PacketView, MqttError>(e),
        decode::disconnect_from(ProtocolVersion::V5, seq![reason] + s) == Err::<
            PacketView,
            MqttError,
        >(e),
{
    two_at_front(hi, lo, seq![reason] + s);
    assert((seq![reason] + s).skip(1) =~= s);
}

} // verus!
