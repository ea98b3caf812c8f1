//! MQTT error type hierarchy.
//!
//! `MqttError` is the single error type produced by every MQTT operation.
//! The sub-enums (`TimeoutKind`, `Violation`, `CodecError`) carry structured
//! detail without flattening it into the top level.

use vstd::prelude::*;

use crate::packet::ConnackReturnCode;

pub mod message;

verus! {

/// `std::io::Error`, carried through unopened.
#[verifier::external_type_specification]
#[verifier::external_body]
pub struct ExIoError(std::io::Error);

#[derive(Debug)]
pub enum MqttError {
    Io(std::io::Error),
    ChannelClosed,
    AckTimeout,
    Timeout(TimeoutKind),
    Configuration(String),
    NotConnected(String),
    Protocol(Violation),
    Codec(CodecError),
    /// A feature that is not available.
    Unsupported(String),
}

#[derive(Debug, Clone, Copy, PartialEq, Eq)]
pub enum TimeoutKind {
    /// Client waited for CONNACK after sending CONNECT.
    Connack,
    /// Server waited for CONNECT after accepting the wire.
    ConnectReceive,
    /// An outbound operation waited for PUBACK/PUBREC/PUBCOMP/SUBACK/UNSUBACK.
    Ack,
}

#[derive(Debug, Clone, PartialEq, Eq)]
pub enum Violation {
    ExpectedConnack,
    ExpectedConnect,
    ConnectionRefused(ConnackReturnCode),
    UnexpectedPacket { expected: &'static str, got: &'static str },
    InvalidProtocolName,
    UnsupportedProtocolLevel(u8),
    EmptyTopic,
    TopicTooLong,
    WildcardInPublishTopic,
    HashWildcardNotTerminal,
    WildcardMixedWithLiteral,
    SessionAlreadyBound,
    /// MQTT 5 property which may occur only once was repeated.
    DuplicateProperty(u8),
    /// MQTT 5 property value is outside the range defined by the protocol.
    MalformedProperty(u8),
    /// Property identifier is not defined by MQTT 5.
    UnknownProperty(u8),
    /// MQTT UTF-8 strings must not contain U+0000.
    Utf8NullCharacter,
}

#[derive(Debug, Clone, PartialEq, Eq)]
pub enum CodecError {
    UnexpectedEof,
    InvalidPacketType(u8),
    MalformedLength,
    InvalidUtf8,
    PayloadTooLong { len: usize, max: usize },
    QosInvalid(u8),
    ReservedFlagSet,
    /// A two-byte-length-prefixed field cannot represent this many bytes.
    FieldTooLong { kind: &'static str, len: usize },
    /// MQTT Variable Byte Integers are limited to 268,435,455.
    VariableByteIntegerOutOfRange { value: usize },
}

impl From<std::io::Error> for MqttError {
    fn from(e: std::io::Error) -> (r: Self) {
        MqttError::Io(e)
    }
}

impl vstd::std_specs::convert::FromSpecImpl<std::io::Error> for MqttError {
    open spec fn obeys_from_spec() -> bool {
        true
    }

    open spec fn from_spec(v: std::io::Error) -> Self {
        MqttError::Io(v)
    }
}

impl From<CodecError> for MqttError {
    fn from(e: CodecError) -> (r: Self) {
        MqttError::Codec(e)
    }
}

impl vstd::std_specs::convert::FromSpecImpl<CodecError> for MqttError {
    open spec fn obeys_from_spec() -> bool {
        true
    }

    open spec fn from_spec(v: CodecError) -> Self {
        MqttError::Codec(v)
    }
}

impl From<Violation> for MqttError {
    fn from(v: Violation) -> (r: Self) {
        MqttError::Protocol(v)
    }
}

impl vstd::std_specs::convert::FromSpecImpl<Violation> for MqttError {
    open spec fn obeys_from_spec() -> bool {
        true
    }

    open spec fn from_spec(v: Violation) -> Self {
        MqttError::Protocol(v)
    }
}

/// Every error keeps what it was made from.
pub proof fn conversions_keep_the_error(io: std::io::Error, c: CodecError, v: Violation)
    ensures
        <MqttError as vstd::std_specs::convert::FromSpec<std::io::Error>>::from_spec(io)
            == MqttError::Io(io),
        <MqttError as vstd::std_specs::convert::FromSpec<CodecError>>::from_spec(c)
            == MqttError::Codec(c),
        <MqttError as vstd::std_specs::convert::FromSpec<Violation>>::from_spec(v)
            == MqttError::Protocol(v),
{
}

} // verus!
