//! Numbers on the wire, writer actions, errors in words.

use std::sync::Arc;

use bytes::Bytes;
use hotaru_mqtt::wire::{
    decode_remaining_length_from_slice, encode_remaining_length, read_arc_str,
    read_prefixed_bytes, read_u16, read_u32, read_vbi, same_text, LengthDecoder,
};
use hotaru_mqtt::{
    writer_action, CodecError, ConnackReturnCode, Credentials, MqttError, Packet, Properties,
    ProtocolVersion, PublishPacket, QoS, SubackCode, TimeoutKind, Violation, WriteCmd,
    WriterAction,
};

#[test]
fn qos_levels_have_numbers() {
    for (qos, number) in [(QoS::AtMostOnce, 0), (QoS::AtLeastOnce, 1), (QoS::ExactlyOnce, 2)] {
        assert_eq!(qos.as_u8(), number);
        assert_eq!(QoS::from_u8(number), Some(qos));
        assert_eq!(SubackCode::from_u8(number), Some(SubackCode::Granted(qos)));
        assert_eq!(SubackCode::Granted(qos).as_u8(), number);
    }
    assert_eq!(QoS::from_u8(3), None);
    assert_eq!(SubackCode::Failure.as_u8(), 0x80);
    assert_eq!(SubackCode::from_u8(0x80), Some(SubackCode::Failure));
    assert_eq!(SubackCode::from_u8(3), None);
    assert_eq!(QoS::ExactlyOnce.lower(QoS::AtLeastOnce), QoS::AtLeastOnce);
    assert!(QoS::AtMostOnce < QoS::ExactlyOnce);
}

#[test]
fn lengths_have_exact_bytes() {
    assert_eq!(encode_remaining_length(0), vec![0x00]);
    assert_eq!(encode_remaining_length(127), vec![0x7F]);
    assert_eq!(encode_remaining_length(128), vec![0x80, 0x01]);
    assert_eq!(encode_remaining_length(321), vec![0xC1, 0x02]);
    assert_eq!(encode_remaining_length(268_435_455), vec![0xFF, 0xFF, 0xFF, 0x7F]);
    assert!(matches!(
        decode_remaining_length_from_slice(&[0xC1, 0x02, 0x55]),
        Ok(Some((321, 2)))
    ));
    assert!(matches!(decode_remaining_length_from_slice(&[0xC1]), Ok(None)));
    assert!(matches!(decode_remaining_length_from_slice(&[]), Ok(None)));
    assert!(matches!(
        decode_remaining_length_from_slice(&[0x80, 0x80, 0x80, 0x80, 0x01]),
        Err(MqttError::Codec(CodecError::MalformedLength))
    ));
}

#[test]
fn a_length_is_decoded_byte_by_byte() {
    let mut decoder = LengthDecoder::new();
    assert!(matches!(decoder.push(0xC1), Ok(None)));
    assert!(matches!(decoder.push(0x02), Ok(Some(321))));
}

#[test]
fn integers_are_read_most_significant_byte_first() {
    let mut cursor = 1;
    assert_eq!(read_u16(&[0, 0x12, 0x34], &mut cursor).unwrap(), 0x1234);
    assert_eq!(cursor, 3);
    assert!(read_u16(&[0, 0x12, 0x34], &mut cursor).is_err());
    assert_eq!(cursor, 3);
    let mut cursor = 0;
    assert_eq!(read_u32(&[0x12, 0x34, 0x56, 0x78], &mut cursor).unwrap(), 0x12345678);
    assert!(same_text("a/b", "a/b"));
    assert!(!same_text("a/b", "a/c"));
}

fn publish(qos: QoS, packet_id: Option<u16>) -> PublishPacket {
    PublishPacket {
        properties: Properties::default(),
        topic: Arc::from("t"),
        payload: Bytes::from_static(b"payload"),
        dup: false,
        qos,
        retain: false,
        packet_id,
    }
}

#[test]
fn a_publish_is_written_as_header_and_payload() {
    let p = publish(QoS::AtLeastOnce, Some(2));
    let whole = hotaru_mqtt::codec::encode_packet(&Packet::Publish(p.clone()), ProtocolVersion::V5);
    match writer_action(Some(WriteCmd::Publish(p)), ProtocolVersion::V5) {
        WriterAction::WritePublish(header, payload) => {
            assert_eq!(header, vec![0x32, 13, 0x00, 0x01, b't', 0x00, 0x02, 0x00]);
            assert_eq!([&header[..], &payload[..]].concat(), whole.unwrap());
        }
        _ => panic!("expected a header and a payload"),
    }
}

#[test]
fn writers_stop_on_what_cannot_be_written() {
    let v311 = ProtocolVersion::V311;
    // At QoS 1 a publish needs a packet identifier.
    assert!(matches!(
        writer_action(Some(WriteCmd::Publish(publish(QoS::AtLeastOnce, None))), v311),
        WriterAction::Stop
    ));
    let mut bad = publish(QoS::AtMostOnce, None);
    bad.properties.topic_alias = Some(0);
    assert!(matches!(
        writer_action(Some(WriteCmd::Packet(Packet::Publish(bad.clone()))), ProtocolVersion::V5),
        WriterAction::Stop
    ));
    // On MQTT 3.1.1 the properties do not matter.
    assert!(matches!(
        writer_action(Some(WriteCmd::Packet(Packet::Publish(bad))), v311),
        WriterAction::Write(_)
    ));
    match writer_action(Some(WriteCmd::Packet(Packet::Pingreq)), v311) {
        WriterAction::Write(bytes) => assert_eq!(bytes, vec![0xC0, 0x00]),
        _ => panic!("expected bytes"),
    }
    assert!(matches!(writer_action(Some(WriteCmd::Flush), v311), WriterAction::Flush));
    assert!(matches!(writer_action(Some(WriteCmd::Shutdown), v311), WriterAction::Stop));
    assert!(matches!(writer_action(None, v311), WriterAction::Stop));
}

#[test]
fn credentials_keep_name_and_password() {
    let c = Credentials::new("alice", Bytes::from_static(b"pw")).clone();
    assert_eq!(c.username.as_ref(), "alice");
    assert_eq!(&c.password[..], b"pw");
}

#[test]
fn errors_read_like_their_debug_form() {
    let violations = [
        Violation::ExpectedConnack,
        Violation::ExpectedConnect,
        Violation::ConnectionRefused(ConnackReturnCode::NotAuthorized),
        Violation::ConnectionRefused(ConnackReturnCode::BadUsernameOrPassword),
        Violation::UnexpectedPacket { expected: "CONNACK", got: "a \"quoted\" word" },
        Violation::InvalidProtocolName,
        Violation::UnsupportedProtocolLevel(3),
        Violation::EmptyTopic,
        Violation::TopicTooLong,
        Violation::WildcardInPublishTopic,
        Violation::HashWildcardNotTerminal,
        Violation::WildcardMixedWithLiteral,
        Violation::SessionAlreadyBound,
        Violation::DuplicateProperty(17),
        Violation::MalformedProperty(0),
        Violation::UnknownProperty(255),
        Violation::Utf8NullCharacter,
    ];
    for v in violations {
        let words = format!("protocol violation: {:?}", v);
        assert_eq!(MqttError::from(v).message(), words);
    }
    let codec = [
        CodecError::UnexpectedEof,
        CodecError::InvalidPacketType(15),
        CodecError::MalformedLength,
        CodecError::InvalidUtf8,
        CodecError::PayloadTooLong { len: 1234567, max: usize::MAX },
        CodecError::QosInvalid(3),
        CodecError::ReservedFlagSet,
        CodecError::FieldTooLong { kind: "property.content_type", len: 65536 },
        CodecError::VariableByteIntegerOutOfRange { value: 268_435_456 },
    ];
    for c in codec {
        let words = format!("codec: {:?}", c);
        assert_eq!(MqttError::from(c).message(), words);
    }
    for k in [TimeoutKind::Connack, TimeoutKind::ConnectReceive, TimeoutKind::Ack] {
        assert_eq!(MqttError::Timeout(k).message(), format!("timeout: {:?}", k));
    }
    assert_eq!(MqttError::ChannelClosed.message(), "channel closed");
    assert_eq!(MqttError::AckTimeout.message(), "ack timeout");
    assert_eq!(MqttError::Configuration("c".into()).message(), "configuration: c");
    assert_eq!(MqttError::NotConnected("n".into()).message(), "not connected: n");
    assert_eq!(MqttError::Unsupported("u".into()).message(), "unsupported: u");
    assert_eq!(MqttError::io_message("no such file"), "I/O: no such file");
    let io = std::io::Error::new(std::io::ErrorKind::Other, "broken pipe");
    let error = MqttError::from(io);
    assert_eq!(error.message(), "I/O: broken pipe");
    assert!(error.io_source().is_some());
    assert!(MqttError::ChannelClosed.io_source().is_none());
}

#[test]
fn a_failed_read_leaves_the_cursor_past_what_was_read() {
    // A Variable Byte Integer: every byte that was looked at.
    for (bytes, after) in [
        (&[0x80, 0x00][..], 2),
        (&[0x80, 0x80, 0x80, 0x80, 0x01], 4),
        (&[0x80, 0x80], 2),
        (&[], 0),
    ] {
        let mut cursor = 0;
        assert!(read_vbi(bytes, &mut cursor).is_err());
        assert_eq!(cursor, after);
    }
    // Bytes and text behind a length: the length, when it is there.
    let mut cursor = 1;
    assert!(read_prefixed_bytes(&[9, 0, 5, b'a'], &mut cursor).is_err());
    assert_eq!(cursor, 3);
    let mut cursor = 0;
    assert!(read_prefixed_bytes(&[0], &mut cursor).is_err());
    assert_eq!(cursor, 0);
    let mut cursor = 0;
    assert!(read_arc_str(&[0, 1, 0xFF], &mut cursor).is_err());
    assert_eq!(cursor, 2);
    // A property block: its length.
    for block in [&[0x80, 0x00][..], &[0x80, 0x01, 0x01], &[0x02, 0x01, 0x07], &[0x01, 0x7F]] {
        let mut cursor = 0;
        assert!(Properties::parse(block, &mut cursor).is_err());
        assert_eq!(cursor, if block[0] == 0x80 { 2 } else { 1 });
    }
}
