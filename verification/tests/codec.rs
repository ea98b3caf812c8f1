use std::sync::Arc;

use bytes::{Bytes, BytesMut};
use hotaru_mqtt::codec::reader::{PacketReader, ReadWant};
use hotaru_mqtt::codec::{decode_packet_from_bytes, encode_packet};
use hotaru_mqtt::{
    CodecError, ConnackPacket, ConnackReturnCode, ConnectPacket, MqttError, Packet, PacketType,
    Properties, ProtocolVersion, PublishPacket, QoS, SubackCode, SubackPacket, SubscribePacket,
    TopicSubscription, UnsubackPacket, UnsubscribePacket, Violation, WillPacket,
};

fn encode_v311(packet: &Packet) -> Vec<u8> {
    encode_packet(packet, ProtocolVersion::V311).unwrap()
}

fn decode_v311(buf: &mut BytesMut) -> Result<Option<Packet>, MqttError> {
    decode_packet_from_bytes(buf, ProtocolVersion::V311)
}

#[test]
fn encode_decode_connect_round_trip() {
    let original = ConnectPacket {
        version: ProtocolVersion::V311,
        properties: Default::default(),
        client_id: Arc::from("cid"),
        clean_session: true,
        keep_alive: 60,
        username: None,
        password: None,
        will: None,
    };
    let bytes = encode_v311(&Packet::Connect(Box::new(original.clone())));
    let mut buf = BytesMut::from(&bytes[..]);
    match decode_v311(&mut buf).unwrap().unwrap() {
        Packet::Connect(c) => {
            assert_eq!(c.client_id.as_ref(), "cid");
            assert!(c.clean_session);
            assert_eq!(c.keep_alive, 60);
            assert!(c.will.is_none());
        }
        _ => panic!("expected Connect"),
    }
}

#[test]
fn encode_decode_connect_with_will() {
    let original = ConnectPacket {
        version: ProtocolVersion::V311,
        properties: Default::default(),
        client_id: Arc::from("cid"),
        clean_session: false,
        keep_alive: 30,
        username: Some(Arc::from("alice")),
        password: Some(Bytes::from_static(b"secret")),
        will: Some(WillPacket {
            properties: Default::default(),
            topic: Arc::from("offline"),
            payload: Bytes::from_static(b"bye"),
            qos: QoS::AtLeastOnce,
            retain: true,
        }),
    };
    let bytes = encode_v311(&Packet::Connect(Box::new(original)));
    let mut buf = BytesMut::from(&bytes[..]);
    match decode_v311(&mut buf).unwrap().unwrap() {
        Packet::Connect(c) => {
            assert_eq!(c.username.as_ref().unwrap().as_ref(), "alice");
            let p = c.password.as_ref().unwrap();
            assert_eq!(&p[..], b"secret");
            let w = c.will.unwrap();
            assert_eq!(w.topic.as_ref(), "offline");
            assert_eq!(&w.payload[..], b"bye");
            assert_eq!(w.qos, QoS::AtLeastOnce);
            assert!(w.retain);
        }
        _ => panic!("expected Connect"),
    }
}

#[test]
fn encode_decode_publish_qos0() {
    let p = PublishPacket {
        properties: Default::default(),
        topic: Arc::from("sensors/temp"),
        payload: Bytes::from_static(b"42"),
        dup: false,
        qos: QoS::AtMostOnce,
        retain: false,
        packet_id: None,
    };
    let bytes = encode_v311(&Packet::Publish(p));
    let mut buf = BytesMut::from(&bytes[..]);
    match decode_v311(&mut buf).unwrap().unwrap() {
        Packet::Publish(p) => {
            assert_eq!(p.topic.as_ref(), "sensors/temp");
            assert_eq!(&p.payload[..], b"42");
            assert_eq!(p.qos, QoS::AtMostOnce);
            assert!(p.packet_id.is_none());
        }
        _ => panic!("expected Publish"),
    }
}

#[test]
fn encode_decode_publish_qos1() {
    let p = PublishPacket {
        properties: Default::default(),
        topic: Arc::from("a/b"),
        payload: Bytes::from_static(b"x"),
        dup: false,
        qos: QoS::AtLeastOnce,
        retain: false,
        packet_id: Some(42),
    };
    let bytes = encode_v311(&Packet::Publish(p));
    let mut buf = BytesMut::from(&bytes[..]);
    match decode_v311(&mut buf).unwrap().unwrap() {
        Packet::Publish(p) => {
            assert_eq!(p.qos, QoS::AtLeastOnce);
            assert_eq!(p.packet_id, Some(42));
        }
        _ => panic!("expected Publish"),
    }
}

#[test]
fn encode_decode_subscribe_unsubscribe() {
    let s = SubscribePacket {
        packet_id: 7,
        subscriptions: vec![
            TopicSubscription {
                topic: Arc::from("a/+"),
                qos: QoS::AtLeastOnce,
            },
            TopicSubscription {
                topic: Arc::from("b/#"),
                qos: QoS::ExactlyOnce,
            },
        ],
    };
    let bytes = encode_v311(&Packet::Subscribe(s));
    let mut buf = BytesMut::from(&bytes[..]);
    match decode_v311(&mut buf).unwrap().unwrap() {
        Packet::Subscribe(s) => {
            assert_eq!(s.packet_id, 7);
            assert_eq!(s.subscriptions.len(), 2);
            assert_eq!(s.subscriptions[0].topic.as_ref(), "a/+");
            assert_eq!(s.subscriptions[1].qos, QoS::ExactlyOnce);
        }
        _ => panic!("expected Subscribe"),
    }

    let u = UnsubscribePacket {
        packet_id: 8,
        topics: vec![Arc::from("a/+"), Arc::from("b/#")],
    };
    let bytes = encode_v311(&Packet::Unsubscribe(u));
    let mut buf = BytesMut::from(&bytes[..]);
    match decode_v311(&mut buf).unwrap().unwrap() {
        Packet::Unsubscribe(u) => {
            assert_eq!(u.packet_id, 8);
            assert_eq!(u.topics.len(), 2);
        }
        _ => panic!("expected Unsubscribe"),
    }
}

#[test]
fn pingreq_pingresp_disconnect_unsuback() {
    assert_eq!(encode_v311(&Packet::Pingreq), vec![0xC0, 0x00]);
    assert_eq!(encode_v311(&Packet::Pingresp), vec![0xD0, 0x00]);
    assert_eq!(encode_v311(&Packet::Disconnect), vec![0xE0, 0x00]);
    assert_eq!(
        encode_v311(&Packet::Unsuback(UnsubackPacket::new(42))),
        vec![0xB0, 0x02, 0x00, 0x2A]
    );
}

#[test]
fn partial_buffer_returns_none() {
    let mut buf = BytesMut::from(&[0x10u8][..]);
    assert!(decode_v311(&mut buf).unwrap().is_none());
    assert_eq!(buf.len(), 1, "buffer must not be consumed on partial");
}

#[test]
fn protocol_version_defaults_to_v311() {
    assert_eq!(ProtocolVersion::default(), ProtocolVersion::V311);
    assert_eq!(ProtocolVersion::V311.level(), 4);
    assert_eq!(ProtocolVersion::V5.level(), 5);
    assert_eq!(ProtocolVersion::from_level(4), Some(ProtocolVersion::V311));
    assert_eq!(ProtocolVersion::from_level(5), Some(ProtocolVersion::V5));
    assert_eq!(ProtocolVersion::from_level(3), None);
}

#[test]
fn v311_connect_wire_stays_byte_identical() {
    let connect = Packet::Connect(Box::new(ConnectPacket {
        version: ProtocolVersion::V311,
        properties: Default::default(),
        client_id: Arc::from("cid"),
        clean_session: true,
        keep_alive: 60,
        username: None,
        password: None,
        will: None,
    }));

    assert_eq!(
        encode_packet(&connect, ProtocolVersion::V311).unwrap(),
        vec![
            0x10, 0x0f, 0x00, 0x04, b'M', b'Q', b'T', b'T', 0x04, 0x02, 0x00, 0x3c, 0x00, 0x03,
            b'c', b'i', b'd',
        ]
    );
}

#[test]
fn mqtt5_connect_round_trip_uses_packet_version() {
    let properties = Properties {
        session_expiry_interval: Some(30),
        ..Default::default()
    };
    let connect = Packet::Connect(Box::new(ConnectPacket {
        version: ProtocolVersion::V5,
        properties,
        client_id: Arc::from("v5"),
        clean_session: true,
        keep_alive: 10,
        username: None,
        password: None,
        will: None,
    }));

    let bytes = encode_packet(&connect, ProtocolVersion::V311).unwrap();
    assert_eq!(bytes[8], 5, "CONNECT must advertise its own version");
    let mut buffer = BytesMut::from(&bytes[..]);
    match decode_packet_from_bytes(&mut buffer, ProtocolVersion::V311)
        .unwrap()
        .unwrap()
    {
        Packet::Connect(decoded) => {
            assert_eq!(decoded.version, ProtocolVersion::V5);
            assert_eq!(decoded.properties.session_expiry_interval, Some(30));
        }
        other => panic!("expected CONNECT, got {:?}", other),
    }
}

#[test]
fn mqtt5_publish_properties_round_trip() {
    let properties = Properties {
        content_type: Some(Arc::from("text/plain")),
        user_properties: vec![(Arc::from("source"), Arc::from("test"))],
        ..Default::default()
    };
    let publish = Packet::Publish(PublishPacket {
        properties,
        topic: Arc::from("v5/topic"),
        payload: Bytes::from_static(b"payload"),
        dup: false,
        qos: QoS::AtMostOnce,
        retain: false,
        packet_id: None,
    });

    let bytes = encode_packet(&publish, ProtocolVersion::V5).unwrap();
    let mut buffer = BytesMut::from(&bytes[..]);
    match decode_packet_from_bytes(&mut buffer, ProtocolVersion::V5)
        .unwrap()
        .unwrap()
    {
        Packet::Publish(decoded) => {
            assert_eq!(
                decoded.properties.content_type.as_deref(),
                Some("text/plain")
            );
            assert_eq!(decoded.properties.user_properties.len(), 1);
            assert_eq!(&decoded.payload[..], b"payload");
        }
        other => panic!("expected PUBLISH, got {:?}", other),
    }
}

fn decode(bytes: &[u8], version: ProtocolVersion) -> Result<Option<Packet>, MqttError> {
    decode_packet_from_bytes(&mut BytesMut::from(bytes), version)
}

fn codec_error(bytes: &[u8], version: ProtocolVersion) -> CodecError {
    match decode(bytes, version) {
        Err(MqttError::Codec(e)) => e,
        other => panic!("expected a codec error, got {:?}", other),
    }
}

fn violation(bytes: &[u8], version: ProtocolVersion) -> Violation {
    match decode(bytes, version) {
        Err(MqttError::Protocol(v)) => v,
        other => panic!("expected a violation, got {:?}", other),
    }
}

fn publish(topic: &str, qos: QoS, packet_id: Option<u16>) -> PublishPacket {
    PublishPacket {
        properties: Default::default(),
        topic: Arc::from(topic),
        payload: Bytes::from_static(b"data"),
        dup: false,
        qos,
        retain: false,
        packet_id,
    }
}

/// Reads one packet the way a connection does: byte by byte, then the body.
fn read_from(bytes: &[u8], version: ProtocolVersion) -> Result<(Packet, usize), MqttError> {
    let mut reader = PacketReader::new(version);
    let mut at = 0;
    loop {
        match reader.next_want() {
            ReadWant::Byte => {
                reader.feed_byte(bytes[at])?;
                at += 1;
            }
            ReadWant::Body(n) => {
                let packet = reader.feed_body(&bytes[at..at + n])?;
                return Ok((packet, at + n));
            }
        }
    }
}

#[test]
fn acknowledgements_have_exact_bytes() {
    assert_eq!(encode_v311(&Packet::Puback(0x1234)), vec![0x40, 0x02, 0x12, 0x34]);
    assert_eq!(encode_v311(&Packet::Pubrec(0x1234)), vec![0x50, 0x02, 0x12, 0x34]);
    assert_eq!(encode_v311(&Packet::Pubrel(0x1234)), vec![0x62, 0x02, 0x12, 0x34]);
    assert_eq!(encode_v311(&Packet::Pubcomp(0x1234)), vec![0x70, 0x02, 0x12, 0x34]);
}

#[test]
fn connack_has_exact_bytes_in_both_versions() {
    let ack = Packet::Connack(ConnackPacket {
        properties: Default::default(),
        session_present: true,
        return_code: ConnackReturnCode::NotAuthorized,
    });
    assert_eq!(encode_packet(&ack, ProtocolVersion::V311).unwrap(), vec![0x20, 0x02, 0x01, 0x05]);
    assert_eq!(
        encode_packet(&ack, ProtocolVersion::V5).unwrap(),
        vec![0x20, 0x03, 0x01, 0x87, 0x00]
    );
    match decode(&[0x20, 0x03, 0x01, 0x87, 0x00], ProtocolVersion::V5).unwrap().unwrap() {
        Packet::Connack(ack) => {
            assert!(ack.session_present);
            assert_eq!(ack.return_code, ConnackReturnCode::NotAuthorized);
            assert!(ack.properties.is_empty());
        }
        other => panic!("expected CONNACK, got {:?}", other),
    }
}

#[test]
fn publish_flags_stand_in_the_first_byte() {
    let mut p = publish("t", QoS::ExactlyOnce, Some(7));
    p.dup = true;
    p.retain = true;
    let bytes = encode_v311(&Packet::Publish(p));
    assert_eq!(bytes, vec![0x3d, 0x09, 0x00, 0x01, b't', 0x00, 0x07, b'd', b'a', b't', b'a']);
    match decode(&bytes, ProtocolVersion::V311).unwrap().unwrap() {
        Packet::Publish(p) => {
            assert!(p.dup);
            assert!(p.retain);
            assert_eq!(p.qos, QoS::ExactlyOnce);
            assert_eq!(p.packet_id, Some(7));
        }
        other => panic!("expected PUBLISH, got {:?}", other),
    }
}

#[test]
fn suback_round_trips_in_both_versions() {
    for version in [ProtocolVersion::V311, ProtocolVersion::V5] {
        let packet = Packet::Suback(SubackPacket {
            packet_id: 9,
            return_codes: vec![
                SubackCode::Granted(QoS::AtMostOnce),
                SubackCode::Granted(QoS::ExactlyOnce),
                SubackCode::Failure,
            ],
        });
        let bytes = encode_packet(&packet, version).unwrap();
        match decode(&bytes, version).unwrap().unwrap() {
            Packet::Suback(s) => {
                assert_eq!(s.packet_id, 9);
                assert_eq!(
                    s.return_codes,
                    vec![
                        SubackCode::Granted(QoS::AtMostOnce),
                        SubackCode::Granted(QoS::ExactlyOnce),
                        SubackCode::Failure,
                    ]
                );
            }
            other => panic!("expected SUBACK, got {:?}", other),
        }
    }
}

#[test]
fn mqtt5_suback_failures_count_as_failure() {
    match decode(&[0x90, 0x04, 0x00, 0x01, 0x00, 0x87], ProtocolVersion::V5).unwrap().unwrap() {
        Packet::Suback(s) => assert_eq!(s.return_codes, vec![SubackCode::Failure]),
        other => panic!("expected SUBACK, got {:?}", other),
    }
    assert_eq!(
        codec_error(&[0x90, 0x03, 0x00, 0x01, 0x87], ProtocolVersion::V311),
        CodecError::InvalidPacketType(0x87)
    );
}

#[test]
fn unsuback_reason_codes_travel_on_mqtt5_only() {
    let packet = Packet::Unsuback(UnsubackPacket { packet_id: 3, reason_codes: vec![0x00, 0x11] });
    let v5 = encode_packet(&packet, ProtocolVersion::V5).unwrap();
    assert_eq!(v5, vec![0xB0, 0x05, 0x00, 0x03, 0x00, 0x00, 0x11]);
    match decode(&v5, ProtocolVersion::V5).unwrap().unwrap() {
        Packet::Unsuback(u) => assert_eq!(u.reason_codes, vec![0x00, 0x11]),
        other => panic!("expected UNSUBACK, got {:?}", other),
    }
    assert_eq!(encode_v311(&packet), vec![0xB0, 0x02, 0x00, 0x03]);
}

#[test]
fn bytes_behind_a_packet_stay_in_the_buffer() {
    let mut buf = BytesMut::from(&[0xC0, 0x00, 0xD0][..]);
    assert!(matches!(decode_v311(&mut buf).unwrap(), Some(Packet::Pingreq)));
    assert_eq!(&buf[..], &[0xD0]);
}

#[test]
fn every_prefix_of_a_packet_waits() {
    let bytes = encode_v311(&Packet::Publish(publish("a/b", QoS::AtLeastOnce, Some(1))));
    for k in 0..bytes.len() {
        let mut buf = BytesMut::from(&bytes[..k]);
        assert!(decode_v311(&mut buf).unwrap().is_none());
        assert_eq!(buf.len(), k);
    }
}

#[test]
fn a_bad_body_leaves_the_buffer_and_a_bad_header_does_not() {
    let mut buf = BytesMut::from(&[0xC0, 0x01, 0x00, 0xD0, 0x00][..]);
    assert!(decode_v311(&mut buf).is_err());
    assert_eq!(&buf[..], &[0xD0, 0x00]);
    let mut buf = BytesMut::from(&[0xF0, 0x00][..]);
    assert!(decode_v311(&mut buf).is_err());
    assert_eq!(&buf[..], &[0xF0, 0x00]);
}

#[test]
fn header_errors_are_told_apart() {
    assert_eq!(codec_error(&[0xF0, 0x00], ProtocolVersion::V311), CodecError::InvalidPacketType(15));
    assert_eq!(codec_error(&[0x00, 0x00], ProtocolVersion::V311), CodecError::InvalidPacketType(0));
    assert_eq!(
        codec_error(&[0xC0, 0x80, 0x80, 0x80, 0x80], ProtocolVersion::V311),
        CodecError::MalformedLength
    );
    // A Remaining Length may be padded, unlike the length of a property block.
    assert!(matches!(
        decode(&[0xC0, 0x80, 0x00], ProtocolVersion::V311).unwrap(),
        Some(Packet::Pingreq)
    ));
}

#[test]
fn connect_errors_are_told_apart() {
    let v311 = ProtocolVersion::V311;
    assert_eq!(codec_error(&[0x10, 0x02, 0x00, 0x04], v311), CodecError::UnexpectedEof);
    let mut bytes = vec![
        0x10, 0x0c, 0x00, 0x04, b'M', b'Q', b'T', b'X', 0x04, 0x02, 0x00, 0x3c, 0x00, 0x00,
    ];
    assert_eq!(violation(&bytes, v311), Violation::InvalidProtocolName);
    bytes[7] = b'T';
    assert!(decode(&bytes, v311).unwrap().is_some());
    bytes[8] = 3;
    assert_eq!(violation(&bytes, v311), Violation::UnsupportedProtocolLevel(3));
    // Will flag with QoS 3, an empty topic and an empty payload.
    let will = [
        0x10, 0x10, 0x00, 0x04, b'M', b'Q', b'T', b'T', 0x04, 0x1c, 0x00, 0x3c, 0x00, 0x00, 0x00,
        0x00, 0x00, 0x00,
    ];
    assert_eq!(codec_error(&will, v311), CodecError::QosInvalid(3));
}

#[test]
fn publish_errors_are_told_apart() {
    let v311 = ProtocolVersion::V311;
    assert_eq!(codec_error(&[0x30, 0x01, 0x00], v311), CodecError::UnexpectedEof);
    assert_eq!(codec_error(&[0x36, 0x02, 0x00, 0x00], v311), CodecError::QosInvalid(3));
    assert_eq!(codec_error(&[0x30, 0x03, 0x00, 0x01, 0xff], v311), CodecError::InvalidUtf8);
    assert_eq!(codec_error(&[0x32, 0x03, 0x00, 0x00, 0x01], v311), CodecError::UnexpectedEof);
}

#[test]
fn acknowledgement_errors_are_told_apart() {
    assert_eq!(
        codec_error(&[0x40, 0x03, 0, 1, 0], ProtocolVersion::V311),
        CodecError::PayloadTooLong { len: 3, max: 2 }
    );
    assert_eq!(
        codec_error(&[0x40, 0x01, 0], ProtocolVersion::V5),
        CodecError::PayloadTooLong { len: 1, max: usize::MAX }
    );
    assert_eq!(codec_error(&[0x60, 0x02, 0, 1], ProtocolVersion::V311), CodecError::ReservedFlagSet);
    assert_eq!(codec_error(&[0x41, 0x02, 0, 1], ProtocolVersion::V311), CodecError::ReservedFlagSet);
    assert!(matches!(
        decode(&[0x40, 0x03, 0, 1, 0x10], ProtocolVersion::V5).unwrap(),
        Some(Packet::Puback(1))
    ));
    assert!(matches!(
        decode(&[0x40, 0x04, 0, 1, 0x10, 0x00], ProtocolVersion::V5).unwrap(),
        Some(Packet::Puback(1))
    ));
    assert_eq!(
        codec_error(&[0x40, 0x05, 0, 1, 0x10, 0x00, 0x09], ProtocolVersion::V5),
        CodecError::PayloadTooLong { len: 1, max: 0 }
    );
}

#[test]
fn subscribe_options_are_checked_by_version() {
    let v311 = [0x82, 0x06, 0x00, 0x01, 0x00, 0x01, b'a', 0x04];
    assert_eq!(codec_error(&v311, ProtocolVersion::V311), CodecError::ReservedFlagSet);
    let v5 = |options: u8| [0x82, 0x07, 0x00, 0x01, 0x00, 0x00, 0x01, b'a', options];
    assert!(decode(&v5(0x2d), ProtocolVersion::V5).unwrap().is_some());
    assert_eq!(codec_error(&v5(0x40), ProtocolVersion::V5), CodecError::ReservedFlagSet);
    assert_eq!(codec_error(&v5(0x30), ProtocolVersion::V5), CodecError::ReservedFlagSet);
    assert_eq!(codec_error(&v5(0x03), ProtocolVersion::V5), CodecError::QosInvalid(3));
    let cut = [0x82, 0x05, 0x00, 0x01, 0x00, 0x01, b'a'];
    assert_eq!(codec_error(&cut, ProtocolVersion::V311), CodecError::UnexpectedEof);
}

#[test]
fn bodies_that_must_be_empty_are() {
    assert_eq!(
        codec_error(&[0xC0, 0x01, 0x00], ProtocolVersion::V5),
        CodecError::PayloadTooLong { len: 1, max: 0 }
    );
    assert_eq!(
        codec_error(&[0xE0, 0x01, 0x00], ProtocolVersion::V311),
        CodecError::PayloadTooLong { len: 1, max: 0 }
    );
    assert!(matches!(
        decode(&[0xE0, 0x02, 0x00, 0x00], ProtocolVersion::V5).unwrap(),
        Some(Packet::Disconnect)
    ));
    assert_eq!(
        codec_error(&[0x20, 0x03, 0x00, 0x00, 0x00], ProtocolVersion::V311),
        CodecError::PayloadTooLong { len: 1, max: 0 }
    );
}

#[test]
fn reading_a_stream_agrees_with_decoding_a_buffer() {
    let mut bytes = encode_v311(&Packet::Publish(publish("a/b", QoS::AtLeastOnce, Some(300))));
    let length = bytes.len();
    bytes.extend_from_slice(&[0xC0, 0x00]);
    let (packet, used) = read_from(&bytes, ProtocolVersion::V311).unwrap();
    assert_eq!(used, length);
    match packet {
        Packet::Publish(p) => assert_eq!(p.packet_id, Some(300)),
        other => panic!("expected PUBLISH, got {:?}", other),
    }
    assert!(matches!(
        read_from(&[0xF0, 0x00], ProtocolVersion::V311),
        Err(MqttError::Codec(CodecError::InvalidPacketType(15)))
    ));
    assert!(matches!(
        read_from(&[0xC0, 0x80, 0x80, 0x80, 0x80, 0x00], ProtocolVersion::V311),
        Err(MqttError::Codec(CodecError::MalformedLength))
    ));
}

#[test]
fn a_body_is_due_after_five_bytes_at_most() {
    let mut reader = PacketReader::new(ProtocolVersion::V311);
    for byte in [0x30, 0xFF, 0xFF, 0xFF] {
        reader.feed_byte(byte).unwrap();
        assert_eq!(reader.next_want(), ReadWant::Byte);
    }
    reader.feed_byte(0x7F).unwrap();
    assert_eq!(reader.next_want(), ReadWant::Body(268_435_455));
}

#[test]
fn packets_go_through_a_shared_buffer() {
    let mut buf = BytesMut::new();
    Packet::Pingreq.encode(&mut buf).unwrap();
    Packet::Puback(5).encode(&mut buf).unwrap();
    assert_eq!(&buf[..], &[0xC0, 0x00, 0x40, 0x02, 0x00, 0x05]);
    assert!(matches!(Packet::decode(&mut buf).unwrap(), Some(Packet::Pingreq)));
    assert!(matches!(Packet::decode(&mut buf).unwrap(), Some(Packet::Puback(5))));
    assert!(Packet::decode(&mut buf).unwrap().is_none());
}

#[test]
fn packet_names_and_types_are_fixed() {
    assert_eq!(Packet::Pingreq.name(), "PINGREQ");
    assert_eq!(Packet::Publish(publish("t", QoS::AtMostOnce, None)).name(), "PUBLISH");
    assert_eq!(PacketType::try_from(1), Ok(PacketType::Connect));
    assert_eq!(PacketType::try_from(14), Ok(PacketType::Disconnect));
    assert_eq!(PacketType::try_from(0), Err(()));
    assert_eq!(PacketType::try_from(15), Err(()));
    assert_eq!(publish("t", QoS::AtLeastOnce, None).with_id(12).packet_id, Some(12));
}

#[test]
fn connack_return_codes_have_two_numberings() {
    let codes = [
        (ConnackReturnCode::Accepted, 0, 0x00, "Accepted"),
        (ConnackReturnCode::UnacceptableProtocolVersion, 1, 0x84, "Unacceptable Protocol Version"),
        (ConnackReturnCode::IdentifierRejected, 2, 0x85, "Identifier Rejected"),
        (ConnackReturnCode::ServerUnavailable, 3, 0x88, "Server Unavailable"),
        (ConnackReturnCode::BadUsernameOrPassword, 4, 0x86, "Bad Username or Password"),
        (ConnackReturnCode::NotAuthorized, 5, 0x87, "Not Authorized"),
    ];
    for (code, number, reason, words) in codes {
        assert_eq!(code.as_u8(), number);
        assert_eq!(ConnackReturnCode::try_from(number), Ok(code));
        assert_eq!(code.to_v5_reason(), reason);
        assert_eq!(ConnackReturnCode::from_v5_reason(reason), Some(code));
        assert_eq!(code.description(), words);
    }
    assert_eq!(ConnackReturnCode::try_from(6), Err(()));
    assert_eq!(ConnackReturnCode::from_v5_reason(1), None);
}
