//! Errors in words.

use std::fmt::Write;

use vstd::prelude::*;
use vstd::string::*;

use crate::error::{CodecError, MqttError, TimeoutKind, Violation};
use crate::packet::ConnackReturnCode;
use crate::text;

verus! {

/// What formatting a string with `{:?}` gives.
pub uninterp spec fn quoted(s: Seq<char>) -> Seq<char>;

/// Calls `<str as Debug>::fmt` through `format!`: the string in quotes, with
/// what needs it escaped. The same string gives the same text; the rules of
/// escaping are left unsaid.
#[verifier::external_body]
fn quote(s: &str) -> (r: String)
    ensures
        r@ == quoted(s@),
{
    format!("{:?}", s)
}

/// Calls `<std::io::Error as Display>::fmt` through `write!`. The text comes
/// from the operating system, so that nothing is said about it. A custom error
/// inside may fail to write itself; what it had written by then is the text.
#[verifier::external_body]
fn io_text(e: &std::io::Error) -> (r: String) {
    let mut text = String::new();
    let _ = write!(text, "{}", e);
    text
}

pub open spec fn timeout_text(k: TimeoutKind) -> Seq<char> {
    match k {
        TimeoutKind::Connack => "Connack"@,
        TimeoutKind::ConnectReceive => "ConnectReceive"@,
        TimeoutKind::Ack => "Ack"@,
    }
}

pub open spec fn return_code_text(c: ConnackReturnCode) -> Seq<char> {
    match c {
        ConnackReturnCode::Accepted => "Accepted"@,
        ConnackReturnCode::UnacceptableProtocolVersion => "UnacceptableProtocolVersion"@,
        ConnackReturnCode::IdentifierRejected => "IdentifierRejected"@,
        ConnackReturnCode::ServerUnavailable => "ServerUnavailable"@,
        ConnackReturnCode::BadUsernameOrPassword => "BadUsernameOrPassword"@,
        ConnackReturnCode::NotAuthorized => "NotAuthorized"@,
    }
}

/// A name with a value in brackets.
pub open spec fn applied(name: Seq<char>, value: Seq<char>) -> Seq<char> {
    name + "("@ + value + ")"@
}

pub open spec fn violation_text(v: Violation) -> Seq<char> {
    match v {
        Violation::ExpectedConnack => "ExpectedConnack"@,
        Violation::ExpectedConnect => "ExpectedConnect"@,
        Violation::ConnectionRefused(c) => applied("ConnectionRefused"@, return_code_text(c)),
        Violation::UnexpectedPacket { expected, got } => "UnexpectedPacket { expected: "@ + quoted(
            expected@,
        ) + ", got: "@ + quoted(got@) + " }"@,
        Violation::InvalidProtocolName => "InvalidProtocolName"@,
        Violation::UnsupportedProtocolLevel(n) => applied("UnsupportedProtocolLevel"@, text::decimal(n as nat)),
        Violation::EmptyTopic => "EmptyTopic"@,
        Violation::TopicTooLong => "TopicTooLong"@,
        Violation::WildcardInPublishTopic => "WildcardInPublishTopic"@,
        Violation::HashWildcardNotTerminal => "HashWildcardNotTerminal"@,
        Violation::WildcardMixedWithLiteral => "WildcardMixedWithLiteral"@,
        Violation::SessionAlreadyBound => "SessionAlreadyBound"@,
        Violation::DuplicateProperty(n) => applied("DuplicateProperty"@, text::decimal(n as nat)),
        Violation::MalformedProperty(n) => applied("MalformedProperty"@, text::decimal(n as nat)),
        Violation::UnknownProperty(n) => applied("UnknownProperty"@, text::decimal(n as nat)),
        Violation::Utf8NullCharacter => "Utf8NullCharacter"@,
    }
}

pub open spec fn codec_text(c: CodecError) -> Seq<char> {
    match c {
        CodecError::UnexpectedEof => "UnexpectedEof"@,
        CodecError::InvalidPacketType(n) => applied("InvalidPacketType"@, text::decimal(n as nat)),
        CodecError::MalformedLength => "MalformedLength"@,
        CodecError::InvalidUtf8 => "InvalidUtf8"@,
        CodecError::PayloadTooLong { len, max } => "PayloadTooLong { len: "@ + text::decimal(
            len as nat,
        ) + ", max: "@ + text::decimal(max as nat) + " }"@,
        CodecError::QosInvalid(n) => applied("QosInvalid"@, text::decimal(n as nat)),
        CodecError::ReservedFlagSet => "ReservedFlagSet"@,
        CodecError::FieldTooLong { kind, len } => "FieldTooLong { kind: "@ + quoted(kind@)
            + ", len: "@ + text::decimal(len as nat) + " }"@,
        CodecError::VariableByteIntegerOutOfRange { value } =>
            "VariableByteIntegerOutOfRange { value: "@ + text::decimal(value as nat) + " }"@,
    }
}

fn timeout_name(k: TimeoutKind) -> (r: &'static str)
    ensures
        r@ == timeout_text(k),
{
    match k {
        TimeoutKind::Connack => "Connack",
        TimeoutKind::ConnectReceive => "ConnectReceive",
        TimeoutKind::Ack => "Ack",
    }
}

fn return_code_name(c: ConnackReturnCode) -> (r: &'static str)
    ensures
        r@ == return_code_text(c),
{
    match c {
        ConnackReturnCode::Accepted => "Accepted",
        ConnackReturnCode::UnacceptableProtocolVersion => "UnacceptableProtocolVersion",
        ConnackReturnCode::IdentifierRejected => "IdentifierRejected",
        ConnackReturnCode::ServerUnavailable => "ServerUnavailable",
        ConnackReturnCode::BadUsernameOrPassword => "BadUsernameOrPassword",
        ConnackReturnCode::NotAuthorized => "NotAuthorized",
    }
}

fn append_applied(out: &mut String, name: &str, n: u64)
    ensures
        final(out)@ == old(out)@ + applied(name@, text::decimal(n as nat)),
{
    out.append(name);
    out.append("(");
    text::append_decimal(out, n);
    out.append(")");
    assert(out@ =~= old(out)@ + applied(name@, text::decimal(n as nat)));
}

fn append_violation(out: &mut String, v: &Violation)
    ensures
        final(out)@ == old(out)@ + violation_text(*v),
{
    match v {
        Violation::ExpectedConnack => out.append("ExpectedConnack"),
        Violation::ExpectedConnect => out.append("ExpectedConnect"),
        Violation::ConnectionRefused(c) => {
            out.append("ConnectionRefused");
            out.append("(");
            out.append(return_code_name(*c));
            out.append(")");
        },
        Violation::UnexpectedPacket { expected, got } => {
            out.append("UnexpectedPacket { expected: ");
            out.append(quote(expected).as_str());
            out.append(", got: ");
            out.append(quote(got).as_str());
            out.append(" }");
        },
        Violation::InvalidProtocolName => out.append("InvalidProtocolName"),
        Violation::UnsupportedProtocolLevel(n) => append_applied(out, "UnsupportedProtocolLevel", *n as u64),
        Violation::EmptyTopic => out.append("EmptyTopic"),
        Violation::TopicTooLong => out.append("TopicTooLong"),
        Violation::WildcardInPublishTopic => out.append("WildcardInPublishTopic"),
        Violation::HashWildcardNotTerminal => out.append("HashWildcardNotTerminal"),
        Violation::WildcardMixedWithLiteral => out.append("WildcardMixedWithLiteral"),
        Violation::SessionAlreadyBound => out.append("SessionAlreadyBound"),
        Violation::DuplicateProperty(n) => append_applied(out, "DuplicateProperty", *n as u64),
        Violation::MalformedProperty(n) => append_applied(out, "MalformedProperty", *n as u64),
        Violation::UnknownProperty(n) => append_applied(out, "UnknownProperty", *n as u64),
        Violation::Utf8NullCharacter => out.append("Utf8NullCharacter"),
    }
    assert(out@ =~= old(out)@ + violation_text(*v));
}

fn append_codec_error(out: &mut String, c: &CodecError)
    ensures
        final(out)@ == old(out)@ + codec_text(*c),
{
    match c {
        CodecError::UnexpectedEof => out.append("UnexpectedEof"),
        CodecError::InvalidPacketType(n) => append_applied(out, "InvalidPacketType", *n as u64),
        CodecError::MalformedLength => out.append("MalformedLength"),
        CodecError::InvalidUtf8 => out.append("InvalidUtf8"),
        CodecError::PayloadTooLong { len, max } => {
            out.append("PayloadTooLong { len: ");
            text::append_decimal(out, *len as u64);
            out.append(", max: ");
            text::append_decimal(out, *max as u64);
            out.append(" }");
        },
        CodecError::QosInvalid(n) => append_applied(out, "QosInvalid", *n as u64),
        CodecError::ReservedFlagSet => out.append("ReservedFlagSet"),
        CodecError::FieldTooLong { kind, len } => {
            out.append("FieldTooLong { kind: ");
            out.append(quote(kind).as_str());
            out.append(", len: ");
            text::append_decimal(out, *len as u64);
            out.append(" }");
        },
        CodecError::VariableByteIntegerOutOfRange { value } => {
            out.append("VariableByteIntegerOutOfRange { value: ");
            text::append_decimal(out, *value as u64);
            out.append(" }");
        },
    }
    assert(out@ =~= old(out)@ + codec_text(*c));
}

impl MqttError {
    /// An I/O error in words, given its own text.
    pub fn io_message(text: &str) -> (r: String)
        ensures
            r@ == "I/O: "@ + text@,
    {
        let mut out = "I/O: ".to_owned();
        out.append(text);
        out
    }

    /// The error in words. Of an I/O error it is `io_message` of the text that the
    /// operating system gives.
    pub fn message(&self) -> (r: String)
        ensures
            match self {
                MqttError::Io(_) => "I/O: "@.is_prefix_of(r@),
                MqttError::ChannelClosed => r@ == "channel closed"@,
                MqttError::AckTimeout => r@ == "ack timeout"@,
                MqttError::Timeout(k) => r@ == "timeout: "@ + timeout_text(*k),
                MqttError::Configuration(m) => r@ == "configuration: "@ + m@,
                MqttError::NotConnected(m) => r@ == "not connected: "@ + m@,
                MqttError::Protocol(v) => r@ == "protocol violation: "@ + violation_text(*v),
                MqttError::Codec(c) => r@ == "codec: "@ + codec_text(*c),
                MqttError::Unsupported(m) => r@ == "unsupported: "@ + m@,
            },
    {
        match self {
            MqttError::Io(e) => {
                let out = MqttError::io_message(io_text(e).as_str());
                assert("I/O: "@ =~= out@.take("I/O: "@.len() as int));
                out
            },
            MqttError::ChannelClosed => "channel closed".to_owned(),
            MqttError::AckTimeout => "ack timeout".to_owned(),
            MqttError::Timeout(k) => {
                let mut out = "timeout: ".to_owned();
                out.append(timeout_name(*k));
                out
            },
            MqttError::Configuration(m) => {
                let mut out = "configuration: ".to_owned();
                out.append(m.as_str());
                out
            },
            MqttError::NotConnected(m) => {
                let mut out = "not connected: ".to_owned();
                out.append(m.as_str());
                out
            },
            MqttError::Protocol(v) => {
                let mut out = "protocol violation: ".to_owned();
                append_violation(&mut out, v);
                out
            },
            MqttError::Codec(c) => {
                let mut out = "codec: ".to_owned();
                append_codec_error(&mut out, c);
                out
            },
            MqttError::Unsupported(m) => {
                let mut out = "unsupported: ".to_owned();
                out.append(m.as_str());
                out
            },
        }
    }

    /// The I/O error behind this one, if there is one.
    pub fn io_source(&self) -> (r: Option<&std::io::Error>)
        ensures
            r == (match self {
                MqttError::Io(e) => Some(e),
                _ => None,
            }),
    {
        match self {
            MqttError::Io(e) => Some(e),
            _ => None,
        }
    }
}

} // verus!
