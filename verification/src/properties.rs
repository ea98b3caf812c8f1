//! MQTT 5 property blocks.
//!
//! A block starts with a Variable Byte Integer that gives the byte length of
//! the properties which follow. This module owns the identifier table and the
//! structural and value validation shared by the packet codecs.

use std::sync::Arc;

use bytes::Bytes;
use vstd::prelude::*;
use vstd::utf8::*;

use crate::buffers;
use crate::error::{CodecError, MqttError, Violation};
use crate::topic;
use crate::wire;

pub mod id;
pub mod laws;

verus! {

/// How the value of a property is written.
#[derive(Debug, Clone, Copy, PartialEq, Eq, Structural)]
pub enum PropertyKind {
    Byte,
    TwoByte,
    FourByte,
    VarInt,
    Text,
    Binary,
    Pair,
}

/// Typed representation of an MQTT 5 property block.
///
/// `Default` represents an empty block. User Properties and Subscription
/// Identifiers preserve their wire order because those identifiers may repeat.
#[derive(Debug, PartialEq, Eq)]
pub struct Properties {
    pub payload_format_indicator: Option<u8>,
    pub message_expiry_interval: Option<u32>,
    pub content_type: Option<Arc<str>>,
    pub response_topic: Option<Arc<str>>,
    pub correlation_data: Option<Bytes>,
    pub subscription_identifiers: Vec<u32>,
    pub session_expiry_interval: Option<u32>,
    pub assigned_client_identifier: Option<Arc<str>>,
    pub server_keep_alive: Option<u16>,
    pub authentication_method: Option<Arc<str>>,
    pub authentication_data: Option<Bytes>,
    pub request_problem_information: Option<u8>,
    pub will_delay_interval: Option<u32>,
    pub request_response_information: Option<u8>,
    pub response_information: Option<Arc<str>>,
    pub server_reference: Option<Arc<str>>,
    pub reason_string: Option<Arc<str>>,
    pub receive_maximum: Option<u16>,
    pub topic_alias_maximum: Option<u16>,
    pub topic_alias: Option<u16>,
    pub maximum_qos: Option<u8>,
    pub retain_available: Option<u8>,
    pub user_properties: Vec<(Arc<str>, Arc<str>)>,
    pub maximum_packet_size: Option<u32>,
    pub wildcard_subscription_available: Option<u8>,
    pub subscription_identifier_available: Option<u8>,
    pub shared_subscription_available: Option<u8>,
}

// ----------------------------------------------------------------------------
// Model
// ----------------------------------------------------------------------------

/// The value of one property.
pub enum PropertyValue {
    Byte(u8),
    TwoByte(u16),
    FourByte(u32),
    VarInt(u32),
    Text(Seq<char>),
    Binary(Seq<u8>),
    Pair(Seq<char>, Seq<char>),
}

/// A property block: the properties that occur at most once, by identifier,
/// and the two lists of those that may repeat.
#[verifier::ext_equal]
pub struct PropertiesView {
    pub scalars: Map<u8, PropertyValue>,
    pub subscription_identifiers: Seq<u32>,
    pub user_properties: Seq<(Seq<char>, Seq<char>)>,
}

impl PropertiesView {
    /// The block without properties.
    pub open spec fn empty() -> Self {
        PropertiesView {
            scalars: Map::empty(),
            subscription_identifiers: Seq::empty(),
            user_properties: Seq::empty(),
        }
    }

    /// The block after property `id` with value `v` has been added.
    pub open spec fn with(self, id: u8, v: PropertyValue) -> Self {
        match v {
            PropertyValue::VarInt(n) => PropertiesView {
                subscription_identifiers: self.subscription_identifiers.push(n),
                ..self
            },
            PropertyValue::Pair(key, value) => PropertiesView {
                user_properties: self.user_properties.push((key, value)),
                ..self
            },
            _ => PropertiesView { scalars: self.scalars.insert(id, v), ..self },
        }
    }
}

/// The identifier table.
pub open spec fn property_kind(id: u8) -> Option<PropertyKind> {
    if id == id::PAYLOAD_FORMAT_INDICATOR || id == id::REQUEST_PROBLEM_INFORMATION || id
        == id::REQUEST_RESPONSE_INFORMATION || id == id::MAXIMUM_QOS || id == id::RETAIN_AVAILABLE
        || id == id::WILDCARD_SUBSCRIPTION_AVAILABLE || id == id::SUBSCRIPTION_IDENTIFIER_AVAILABLE
        || id == id::SHARED_SUBSCRIPTION_AVAILABLE {
        Some(PropertyKind::Byte)
    } else if id == id::SERVER_KEEP_ALIVE || id == id::RECEIVE_MAXIMUM || id
        == id::TOPIC_ALIAS_MAXIMUM || id == id::TOPIC_ALIAS {
        Some(PropertyKind::TwoByte)
    } else if id == id::MESSAGE_EXPIRY_INTERVAL || id == id::SESSION_EXPIRY_INTERVAL || id
        == id::WILL_DELAY_INTERVAL || id == id::MAXIMUM_PACKET_SIZE {
        Some(PropertyKind::FourByte)
    } else if id == id::CONTENT_TYPE || id == id::RESPONSE_TOPIC || id
        == id::ASSIGNED_CLIENT_IDENTIFIER || id == id::AUTHENTICATION_METHOD || id
        == id::RESPONSE_INFORMATION || id == id::SERVER_REFERENCE || id == id::REASON_STRING {
        Some(PropertyKind::Text)
    } else if id == id::CORRELATION_DATA || id == id::AUTHENTICATION_DATA {
        Some(PropertyKind::Binary)
    } else if id == id::SUBSCRIPTION_IDENTIFIER {
        Some(PropertyKind::VarInt)
    } else if id == id::USER_PROPERTY {
        Some(PropertyKind::Pair)
    } else {
        None
    }
}

/// Whether a property of this kind may occur more than once.
pub open spec fn repeatable(kind: PropertyKind) -> bool {
    kind is VarInt || kind is Pair
}

/// The kind that a value is of.
pub open spec fn kind_of(v: PropertyValue) -> PropertyKind {
    match v {
        PropertyValue::Byte(_) => PropertyKind::Byte,
        PropertyValue::TwoByte(_) => PropertyKind::TwoByte,
        PropertyValue::FourByte(_) => PropertyKind::FourByte,
        PropertyValue::VarInt(_) => PropertyKind::VarInt,
        PropertyValue::Text(_) => PropertyKind::Text,
        PropertyValue::Binary(_) => PropertyKind::Binary,
        PropertyValue::Pair(_, _) => PropertyKind::Pair,
    }
}

pub open spec fn byte_value(v: Option<u8>) -> Option<PropertyValue> {
    match v {
        Some(v) => Some(PropertyValue::Byte(v)),
        None => None,
    }
}

pub open spec fn two_byte_value(v: Option<u16>) -> Option<PropertyValue> {
    match v {
        Some(v) => Some(PropertyValue::TwoByte(v)),
        None => None,
    }
}

pub open spec fn four_byte_value(v: Option<u32>) -> Option<PropertyValue> {
    match v {
        Some(v) => Some(PropertyValue::FourByte(v)),
        None => None,
    }
}

pub open spec fn text_value(v: Option<Arc<str>>) -> Option<PropertyValue> {
    match v {
        Some(v) => Some(PropertyValue::Text(wire::text(v))),
        None => None,
    }
}

pub open spec fn binary_value(v: Option<Bytes>) -> Option<PropertyValue> {
    match v {
        Some(v) => Some(PropertyValue::Binary(buffers::payload(v))),
        None => None,
    }
}

/// The characters of a list of key and value pairs.
pub open spec fn pair_texts(v: Seq<(Arc<str>, Arc<str>)>) -> Seq<(Seq<char>, Seq<char>)> {
    v.map_values(|p: (Arc<str>, Arc<str>)| (wire::text(p.0), wire::text(p.1)))
}

impl Properties {
    /// The value of the property `id`, for identifiers that occur at most once.
    pub open spec fn scalar(self, id: u8) -> Option<PropertyValue> {
        if id == id::PAYLOAD_FORMAT_INDICATOR {
            byte_value(self.payload_format_indicator)
        } else if id == id::MESSAGE_EXPIRY_INTERVAL {
            four_byte_value(self.message_expiry_interval)
        } else if id == id::CONTENT_TYPE {
            text_value(self.content_type)
        } else if id == id::RESPONSE_TOPIC {
            text_value(self.response_topic)
        } else if id == id::CORRELATION_DATA {
            binary_value(self.correlation_data)
        } else if id == id::SESSION_EXPIRY_INTERVAL {
            four_byte_value(self.session_expiry_interval)
        } else if id == id::ASSIGNED_CLIENT_IDENTIFIER {
            text_value(self.assigned_client_identifier)
        } else if id == id::SERVER_KEEP_ALIVE {
            two_byte_value(self.server_keep_alive)
        } else if id == id::AUTHENTICATION_METHOD {
            text_value(self.authentication_method)
        } else if id == id::AUTHENTICATION_DATA {
            binary_value(self.authentication_data)
        } else if id == id::REQUEST_PROBLEM_INFORMATION {
            byte_value(self.request_problem_information)
        } else if id == id::WILL_DELAY_INTERVAL {
            four_byte_value(self.will_delay_interval)
        } else if id == id::REQUEST_RESPONSE_INFORMATION {
            byte_value(self.request_response_information)
        } else if id == id::RESPONSE_INFORMATION {
            text_value(self.response_information)
        } else if id == id::SERVER_REFERENCE {
            text_value(self.server_reference)
        } else if id == id::REASON_STRING {
            text_value(self.reason_string)
        } else if id == id::RECEIVE_MAXIMUM {
            two_byte_value(self.receive_maximum)
        } else if id == id::TOPIC_ALIAS_MAXIMUM {
            two_byte_value(self.topic_alias_maximum)
        } else if id == id::TOPIC_ALIAS {
            two_byte_value(self.topic_alias)
        } else if id == id::MAXIMUM_QOS {
            byte_value(self.maximum_qos)
        } else if id == id::RETAIN_AVAILABLE {
            byte_value(self.retain_available)
        } else if id == id::MAXIMUM_PACKET_SIZE {
            four_byte_value(self.maximum_packet_size)
        } else if id == id::WILDCARD_SUBSCRIPTION_AVAILABLE {
            byte_value(self.wildcard_subscription_available)
        } else if id == id::SUBSCRIPTION_IDENTIFIER_AVAILABLE {
            byte_value(self.subscription_identifier_available)
        } else if id == id::SHARED_SUBSCRIPTION_AVAILABLE {
            byte_value(self.shared_subscription_available)
        } else {
            None
        }
    }
}

impl View for Properties {
    type V = PropertiesView;

    open spec fn view(&self) -> PropertiesView {
        PropertiesView {
            scalars: Map::new(
                |id: u8| self.scalar(id) is Some,
                |id: u8| self.scalar(id).unwrap(),
            ),
            subscription_identifiers: self.subscription_identifiers@,
            user_properties: pair_texts(self.user_properties@),
        }
    }
}

impl Default for Properties {
    fn default() -> (r: Self)
        ensures
            r@ == PropertiesView::empty(),
    {
        let r = Properties {
            payload_format_indicator: None,
            message_expiry_interval: None,
            content_type: None,
            response_topic: None,
            correlation_data: None,
            subscription_identifiers: Vec::new(),
            session_expiry_interval: None,
            assigned_client_identifier: None,
            server_keep_alive: None,
            authentication_method: None,
            authentication_data: None,
            request_problem_information: None,
            will_delay_interval: None,
            request_response_information: None,
            response_information: None,
            server_reference: None,
            reason_string: None,
            receive_maximum: None,
            topic_alias_maximum: None,
            topic_alias: None,
            maximum_qos: None,
            retain_available: None,
            user_properties: Vec::new(),
            maximum_packet_size: None,
            wildcard_subscription_available: None,
            subscription_identifier_available: None,
            shared_subscription_available: None,
        };
        assert(r@ =~= PropertiesView::empty());
        r
    }
}

// ----------------------------------------------------------------------------
// Wire format
// ----------------------------------------------------------------------------

/// Text inside a property, which must not hold U+0000.
pub open spec fn take_property_text(s: Seq<u8>) -> Result<(Seq<char>, Seq<u8>), MqttError> {
    match wire::take_text(s) {
        Err(e) => Err(e),
        Ok((c, rest)) => if c.contains('\0') {
            Err(wire::null_character())
        } else {
            Ok((c, rest))
        },
    }
}

/// How many bytes are read of text inside a property when reading it fails: all
/// of them, if they are there.
pub open spec fn property_text_stop(s: Seq<u8>) -> nat {
    match wire::take_prefixed(s) {
        Ok((b, _)) => 2 + b.len(),
        Err(_) => wire::prefix_stop(s),
    }
}

/// Reads the value of a property of the given kind.
pub open spec fn take_value(kind: PropertyKind, s: Seq<u8>) -> Result<
    (PropertyValue, Seq<u8>),
    MqttError,
> {
    match kind {
        PropertyKind::Byte => match wire::take_u8(s) {
            Ok((v, rest)) => Ok((PropertyValue::Byte(v), rest)),
            Err(e) => Err(e),
        },
        PropertyKind::TwoByte => match wire::take_u16(s) {
            Ok((v, rest)) => Ok((PropertyValue::TwoByte(v), rest)),
            Err(e) => Err(e),
        },
        PropertyKind::FourByte => match wire::take_u32(s) {
            Ok((v, rest)) => Ok((PropertyValue::FourByte(v), rest)),
            Err(e) => Err(e),
        },
        PropertyKind::VarInt => match wire::take_vbi(s) {
            Ok((v, rest)) => Ok((PropertyValue::VarInt(v as u32), rest)),
            Err(e) => Err(e),
        },
        PropertyKind::Text => match take_property_text(s) {
            Ok((v, rest)) => Ok((PropertyValue::Text(v), rest)),
            Err(e) => Err(e),
        },
        PropertyKind::Binary => match wire::take_prefixed(s) {
            Ok((v, rest)) => Ok((PropertyValue::Binary(v), rest)),
            Err(e) => Err(e),
        },
        PropertyKind::Pair => match take_property_text(s) {
            Ok((key, after)) => match take_property_text(after) {
                Ok((value, rest)) => Ok((PropertyValue::Pair(key, value), rest)),
                Err(e) => Err(e),
            },
            Err(e) => Err(e),
        },
    }
}

/// Reads properties up to the end of `s`, adding them to `m`.
pub open spec fn take_properties(s: Seq<u8>, m: PropertiesView) -> Result<
    PropertiesView,
    MqttError,
>
    decreases s.len(),
{
    if s.len() == 0 {
        Ok(m)
    } else {
        match property_kind(s[0]) {
            None => Err(MqttError::Protocol(Violation::UnknownProperty(s[0]))),
            Some(kind) => if !repeatable(kind) && m.scalars.contains_key(s[0]) {
                Err(MqttError::Protocol(Violation::DuplicateProperty(s[0])))
            } else {
                match take_value(kind, s.skip(1)) {
                    Err(e) => Err(e),
                    Ok((v, rest)) => if rest.len() < s.len() {
                        take_properties(rest, m.with(s[0], v))
                    } else {
                        Err(wire::eof())
                    },
                }
            },
        }
    }
}

/// The first identifier from `id` on whose one-byte value is neither 0 nor 1.
pub open spec fn bad_flag(m: PropertiesView, id: int) -> Option<u8>
    decreases 0x2B - id,
{
    if id < 0 || id >= 0x2B {
        None
    } else if m.scalars.contains_key(id as u8) && (m.scalars[id as u8] matches PropertyValue::Byte(v)
        && v > 1) {
        Some(id as u8)
    } else {
        bad_flag(m, id + 1)
    }
}

/// Whether property `id` is there with the value `v`.
pub open spec fn holds(m: PropertiesView, id: u8, v: PropertyValue) -> bool {
    m.scalars.contains_key(id) && m.scalars[id] == v
}

pub open spec fn malformed(id: u8) -> MqttError {
    MqttError::Protocol(Violation::MalformedProperty(id))
}

/// Whether a Subscription Identifier is outside its range.
pub open spec fn bad_identifier(n: u32) -> bool {
    n == 0 || n > wire::MAX_VARIABLE_BYTE_INTEGER
}

/// The first rule on property values that a block breaks, if any.
pub open spec fn value_error(m: PropertiesView) -> Result<(), MqttError> {
    if bad_flag(m, 0) is Some {
        Err(malformed(bad_flag(m, 0).unwrap()))
    } else if holds(m, id::RECEIVE_MAXIMUM, PropertyValue::TwoByte(0)) {
        Err(malformed(id::RECEIVE_MAXIMUM))
    } else if holds(m, id::TOPIC_ALIAS, PropertyValue::TwoByte(0)) {
        Err(malformed(id::TOPIC_ALIAS))
    } else if holds(m, id::MAXIMUM_PACKET_SIZE, PropertyValue::FourByte(0)) {
        Err(malformed(id::MAXIMUM_PACKET_SIZE))
    } else if exists|i: int|
        0 <= i < m.subscription_identifiers.len() && #[trigger] bad_identifier(
            m.subscription_identifiers[i],
        ) {
        Err(malformed(id::SUBSCRIPTION_IDENTIFIER))
    } else if m.scalars.contains_key(id::AUTHENTICATION_DATA) && !m.scalars.contains_key(
        id::AUTHENTICATION_METHOD,
    ) {
        Err(malformed(id::AUTHENTICATION_DATA))
    } else if m.scalars.contains_key(id::RESPONSE_TOPIC) && (
    m.scalars[id::RESPONSE_TOPIC] matches PropertyValue::Text(_)) {
        topic::refusal(
            topic::publish_topic_violation(m.scalars[id::RESPONSE_TOPIC]->Text_0),
        )
    } else {
        Ok(())
    }
}

/// Reads a property block: its length, its properties, and nothing beyond.
#[verifier::opaque]
pub open spec fn take_block(s: Seq<u8>) -> Result<(PropertiesView, Seq<u8>), MqttError> {
    match wire::take_vbi(s) {
        Err(e) => Err(e),
        Ok((n, rest)) => if n > rest.len() {
            Err(wire::eof())
        } else {
            match take_properties(rest.take(n as int), PropertiesView::empty()) {
                Err(e) => Err(e),
                Ok(m) => match value_error(m) {
                    Err(e) => Err(e),
                    Ok(_) => Ok((m, rest.skip(n as int))),
                },
            }
        },
    }
}

/// How a value is written.
pub open spec fn value_bytes(v: PropertyValue) -> Seq<u8> {
    match v {
        PropertyValue::Byte(v) => seq![v],
        PropertyValue::TwoByte(v) => wire::u16_bytes(v),
        PropertyValue::FourByte(v) => wire::u32_bytes(v),
        PropertyValue::VarInt(v) => wire::vbi_bytes(v as nat),
        PropertyValue::Text(v) => wire::prefixed_text(v),
        PropertyValue::Binary(v) => wire::prefixed(v),
        PropertyValue::Pair(k, v) => wire::prefixed_text(k) + wire::prefixed_text(v),
    }
}

/// A property: its identifier, then its value.
pub open spec fn item_bytes(id: u8, v: PropertyValue) -> Seq<u8> {
    seq![id] + value_bytes(v)
}

/// The Subscription Identifiers in `v`, in order.
pub open spec fn identifier_bytes(v: Seq<u32>) -> Seq<u8>
    decreases v.len(),
{
    if v.len() == 0 {
        Seq::empty()
    } else {
        item_bytes(id::SUBSCRIPTION_IDENTIFIER, PropertyValue::VarInt(v[0])) + identifier_bytes(
            v.skip(1),
        )
    }
}

/// The User Properties in `v`, in order.
pub open spec fn user_bytes(v: Seq<(Seq<char>, Seq<char>)>) -> Seq<u8>
    decreases v.len(),
{
    if v.len() == 0 {
        Seq::empty()
    } else {
        item_bytes(id::USER_PROPERTY, PropertyValue::Pair(v[0].0, v[0].1)) + user_bytes(v.skip(1))
    }
}

/// Everything that a block writes under identifier `id`.
pub open spec fn segment(m: PropertiesView, id: u8) -> Seq<u8> {
    if id == id::SUBSCRIPTION_IDENTIFIER {
        identifier_bytes(m.subscription_identifiers)
    } else if id == id::USER_PROPERTY {
        user_bytes(m.user_properties)
    } else if m.scalars.contains_key(id) {
        item_bytes(id, m.scalars[id])
    } else {
        Seq::empty()
    }
}

/// The properties with identifiers from `id` on, in ascending order.
pub open spec fn values_from(m: PropertiesView, id: int) -> Seq<u8>
    decreases 0x2B - id,
{
    if id < 0 || id >= 0x2B {
        Seq::empty()
    } else {
        segment(m, id as u8) + values_from(m, id + 1)
    }
}

/// The name under which an over-long property value is reported.
pub open spec fn property_label(id: u8) -> &'static str {
    if id == id::CONTENT_TYPE {
        "property.content_type"
    } else if id == id::RESPONSE_TOPIC {
        "property.response_topic"
    } else if id == id::CORRELATION_DATA {
        "property.correlation_data"
    } else if id == id::ASSIGNED_CLIENT_IDENTIFIER {
        "property.assigned_client_identifier"
    } else if id == id::AUTHENTICATION_METHOD {
        "property.authentication_method"
    } else if id == id::AUTHENTICATION_DATA {
        "property.authentication_data"
    } else if id == id::RESPONSE_INFORMATION {
        "property.response_information"
    } else if id == id::SERVER_REFERENCE {
        "property.server_reference"
    } else {
        "property.reason_string"
    }
}

/// Whether a byte string can stand behind a two-byte length.
pub open spec fn field_error(kind: &'static str, b: Seq<u8>) -> Result<(), MqttError> {
    if b.len() > 0xffff {
        Err(MqttError::Codec(CodecError::FieldTooLong { kind, len: b.len() as usize }))
    } else {
        Ok(())
    }
}

/// Whether text can be written as a property value.
pub open spec fn text_error(kind: &'static str, c: Seq<char>) -> Result<(), MqttError> {
    if c.contains('\0') {
        Err(wire::null_character())
    } else {
        field_error(kind, encode_utf8(c))
    }
}

/// Whether a pair can be written as a User Property.
pub open spec fn pair_error(p: (Seq<char>, Seq<char>)) -> Result<(), MqttError> {
    match text_error("property.user_property.key", p.0) {
        Err(e) => Err(e),
        Ok(_) => text_error("property.user_property.value", p.1),
    }
}

/// The first User Property that cannot be written, in order.
pub open spec fn user_error(v: Seq<(Seq<char>, Seq<char>)>) -> Result<(), MqttError>
    decreases v.len(),
{
    if v.len() == 0 {
        Ok(())
    } else {
        match pair_error(v[0]) {
            Err(e) => Err(e),
            Ok(_) => user_error(v.skip(1)),
        }
    }
}

/// Whether what a block holds under identifier `id` can be written.
pub open spec fn segment_error(m: PropertiesView, id: u8) -> Result<(), MqttError> {
    if id == id::SUBSCRIPTION_IDENTIFIER {
        Ok(())
    } else if id == id::USER_PROPERTY {
        user_error(m.user_properties)
    } else if m.scalars.contains_key(id) {
        match m.scalars[id] {
            PropertyValue::Text(c) => text_error(property_label(id), c),
            PropertyValue::Binary(b) => field_error(property_label(id), b),
            _ => Ok(()),
        }
    } else {
        Ok(())
    }
}

/// The first error in writing the properties from identifier `id` on.
pub open spec fn values_error(m: PropertiesView, id: int) -> Result<(), MqttError>
    decreases 0x2B - id,
{
    if id < 0 || id >= 0x2B {
        Ok(())
    } else {
        match segment_error(m, id as u8) {
            Err(e) => Err(e),
            Ok(_) => values_error(m, id + 1),
        }
    }
}

/// The encoding of a block, or the first reason why it has none.
#[verifier::opaque]
pub open spec fn block_bytes(m: PropertiesView) -> Result<Seq<u8>, MqttError> {
    match value_error(m) {
        Err(e) => Err(e),
        Ok(_) => match values_error(m, 0) {
            Err(e) => Err(e),
            Ok(_) => {
                let body = values_from(m, 0);
                if body.len() > wire::MAX_VARIABLE_BYTE_INTEGER {
                    Err(
                        MqttError::Codec(
                            CodecError::VariableByteIntegerOutOfRange {
                                value: body.len() as usize,
                            },
                        ),
                    )
                } else {
                    Ok(wire::vbi_bytes(body.len()) + body)
                }
            },
        },
    }
}

// ----------------------------------------------------------------------------
// Access by identifier
// ----------------------------------------------------------------------------

/// Looks an identifier up in the table.
fn lookup_kind(property_id: u8) -> (r: Option<PropertyKind>)
    ensures
        r == property_kind(property_id),
{
    if property_id == id::PAYLOAD_FORMAT_INDICATOR || property_id
        == id::REQUEST_PROBLEM_INFORMATION || property_id == id::REQUEST_RESPONSE_INFORMATION
        || property_id == id::MAXIMUM_QOS || property_id == id::RETAIN_AVAILABLE || property_id
        == id::WILDCARD_SUBSCRIPTION_AVAILABLE || property_id
        == id::SUBSCRIPTION_IDENTIFIER_AVAILABLE || property_id
        == id::SHARED_SUBSCRIPTION_AVAILABLE {
        Some(PropertyKind::Byte)
    } else if property_id == id::SERVER_KEEP_ALIVE || property_id == id::RECEIVE_MAXIMUM
        || property_id == id::TOPIC_ALIAS_MAXIMUM || property_id == id::TOPIC_ALIAS {
        Some(PropertyKind::TwoByte)
    } else if property_id == id::MESSAGE_EXPIRY_INTERVAL || property_id
        == id::SESSION_EXPIRY_INTERVAL || property_id == id::WILL_DELAY_INTERVAL || property_id
        == id::MAXIMUM_PACKET_SIZE {
        Some(PropertyKind::FourByte)
    } else if property_id == id::CONTENT_TYPE || property_id == id::RESPONSE_TOPIC || property_id
        == id::ASSIGNED_CLIENT_IDENTIFIER || property_id == id::AUTHENTICATION_METHOD
        || property_id == id::RESPONSE_INFORMATION || property_id == id::SERVER_REFERENCE
        || property_id == id::REASON_STRING {
        Some(PropertyKind::Text)
    } else if property_id == id::CORRELATION_DATA || property_id == id::AUTHENTICATION_DATA {
        Some(PropertyKind::Binary)
    } else if property_id == id::SUBSCRIPTION_IDENTIFIER {
        Some(PropertyKind::VarInt)
    } else if property_id == id::USER_PROPERTY {
        Some(PropertyKind::Pair)
    } else {
        None
    }
}

impl Properties {
    fn set_byte(&mut self, property_id: u8, v: u8)
        requires
            property_kind(property_id) == Some(PropertyKind::Byte),
        ensures
            final(self)@ == old(self)@.with(property_id, PropertyValue::Byte(v)),
    {
        if property_id == id::PAYLOAD_FORMAT_INDICATOR {
            self.payload_format_indicator = Some(v);
        } else if property_id == id::REQUEST_PROBLEM_INFORMATION {
            self.request_problem_information = Some(v);
        } else if property_id == id::REQUEST_RESPONSE_INFORMATION {
            self.request_response_information = Some(v);
        } else if property_id == id::MAXIMUM_QOS {
            self.maximum_qos = Some(v);
        } else if property_id == id::RETAIN_AVAILABLE {
            self.retain_available = Some(v);
        } else if property_id == id::WILDCARD_SUBSCRIPTION_AVAILABLE {
            self.wildcard_subscription_available = Some(v);
        } else if property_id == id::SUBSCRIPTION_IDENTIFIER_AVAILABLE {
            self.subscription_identifier_available = Some(v);
        } else {
            self.shared_subscription_available = Some(v);
        }
        assert(self@ =~= old(self)@.with(property_id, PropertyValue::Byte(v)));
    }

    fn set_two_byte(&mut self, property_id: u8, v: u16)
        requires
            property_kind(property_id) == Some(PropertyKind::TwoByte),
        ensures
            final(self)@ == old(self)@.with(property_id, PropertyValue::TwoByte(v)),
    {
        if property_id == id::SERVER_KEEP_ALIVE {
            self.server_keep_alive = Some(v);
        } else if property_id == id::RECEIVE_MAXIMUM {
            self.receive_maximum = Some(v);
        } else if property_id == id::TOPIC_ALIAS_MAXIMUM {
            self.topic_alias_maximum = Some(v);
        } else {
            self.topic_alias = Some(v);
        }
        assert(self@ =~= old(self)@.with(property_id, PropertyValue::TwoByte(v)));
    }

    fn set_four_byte(&mut self, property_id: u8, v: u32)
        requires
            property_kind(property_id) == Some(PropertyKind::FourByte),
        ensures
            final(self)@ == old(self)@.with(property_id, PropertyValue::FourByte(v)),
    {
        if property_id == id::MESSAGE_EXPIRY_INTERVAL {
            self.message_expiry_interval = Some(v);
        } else if property_id == id::SESSION_EXPIRY_INTERVAL {
            self.session_expiry_interval = Some(v);
        } else if property_id == id::WILL_DELAY_INTERVAL {
            self.will_delay_interval = Some(v);
        } else {
            self.maximum_packet_size = Some(v);
        }
        assert(self@ =~= old(self)@.with(property_id, PropertyValue::FourByte(v)));
    }

    fn set_text(&mut self, property_id: u8, v: Arc<str>)
        requires
            property_kind(property_id) == Some(PropertyKind::Text),
        ensures
            final(self)@ == old(self)@.with(property_id, PropertyValue::Text(wire::text(v))),
    {
        if property_id == id::CONTENT_TYPE {
            self.content_type = Some(v);
        } else if property_id == id::RESPONSE_TOPIC {
            self.response_topic = Some(v);
        } else if property_id == id::ASSIGNED_CLIENT_IDENTIFIER {
            self.assigned_client_identifier = Some(v);
        } else if property_id == id::AUTHENTICATION_METHOD {
            self.authentication_method = Some(v);
        } else if property_id == id::RESPONSE_INFORMATION {
            self.response_information = Some(v);
        } else if property_id == id::SERVER_REFERENCE {
            self.server_reference = Some(v);
        } else {
            self.reason_string = Some(v);
        }
        assert(self@ =~= old(self)@.with(property_id, PropertyValue::Text(wire::text(v))));
    }

    fn set_binary(&mut self, property_id: u8, v: Bytes)
        requires
            property_kind(property_id) == Some(PropertyKind::Binary),
        ensures
            final(self)@ == old(self)@.with(property_id, PropertyValue::Binary(buffers::payload(v))),
    {
        if property_id == id::CORRELATION_DATA {
            self.correlation_data = Some(v);
        } else {
            self.authentication_data = Some(v);
        }
        assert(self@ =~= old(self)@.with(property_id, PropertyValue::Binary(buffers::payload(v))));
    }

    fn byte_at(&self, property_id: u8) -> (r: Option<u8>)
        requires
            property_kind(property_id) == Some(PropertyKind::Byte),
        ensures
            self.scalar(property_id) == byte_value(r),
    {
        if property_id == id::PAYLOAD_FORMAT_INDICATOR {
            self.payload_format_indicator
        } else if property_id == id::REQUEST_PROBLEM_INFORMATION {
            self.request_problem_information
        } else if property_id == id::REQUEST_RESPONSE_INFORMATION {
            self.request_response_information
        } else if property_id == id::MAXIMUM_QOS {
            self.maximum_qos
        } else if property_id == id::RETAIN_AVAILABLE {
            self.retain_available
        } else if property_id == id::WILDCARD_SUBSCRIPTION_AVAILABLE {
            self.wildcard_subscription_available
        } else if property_id == id::SUBSCRIPTION_IDENTIFIER_AVAILABLE {
            self.subscription_identifier_available
        } else {
            self.shared_subscription_available
        }
    }

    fn two_byte_at(&self, property_id: u8) -> (r: Option<u16>)
        requires
            property_kind(property_id) == Some(PropertyKind::TwoByte),
        ensures
            self.scalar(property_id) == two_byte_value(r),
    {
        if property_id == id::SERVER_KEEP_ALIVE {
            self.server_keep_alive
        } else if property_id == id::RECEIVE_MAXIMUM {
            self.receive_maximum
        } else if property_id == id::TOPIC_ALIAS_MAXIMUM {
            self.topic_alias_maximum
        } else {
            self.topic_alias
        }
    }

    fn four_byte_at(&self, property_id: u8) -> (r: Option<u32>)
        requires
            property_kind(property_id) == Some(PropertyKind::FourByte),
        ensures
            self.scalar(property_id) == four_byte_value(r),
    {
        if property_id == id::MESSAGE_EXPIRY_INTERVAL {
            self.message_expiry_interval
        } else if property_id == id::SESSION_EXPIRY_INTERVAL {
            self.session_expiry_interval
        } else if property_id == id::WILL_DELAY_INTERVAL {
            self.will_delay_interval
        } else {
            self.maximum_packet_size
        }
    }

    fn text_at(&self, property_id: u8) -> (r: &Option<Arc<str>>)
        requires
            property_kind(property_id) == Some(PropertyKind::Text),
        ensures
            self.scalar(property_id) == text_value(*r),
    {
        if property_id == id::CONTENT_TYPE {
            &self.content_type
        } else if property_id == id::RESPONSE_TOPIC {
            &self.response_topic
        } else if property_id == id::ASSIGNED_CLIENT_IDENTIFIER {
            &self.assigned_client_identifier
        } else if property_id == id::AUTHENTICATION_METHOD {
            &self.authentication_method
        } else if property_id == id::RESPONSE_INFORMATION {
            &self.response_information
        } else if property_id == id::SERVER_REFERENCE {
            &self.server_reference
        } else {
            &self.reason_string
        }
    }

    fn binary_at(&self, property_id: u8) -> (r: &Option<Bytes>)
        requires
            property_kind(property_id) == Some(PropertyKind::Binary),
        ensures
            self.scalar(property_id) == binary_value(*r),
    {
        if property_id == id::CORRELATION_DATA {
            &self.correlation_data
        } else {
            &self.authentication_data
        }
    }

    /// Whether the property `property_id`, which occurs at most once, is there.
    fn has(&self, property_id: u8) -> (r: bool)
        ensures
            r == self@.scalars.contains_key(property_id),
    {
        match lookup_kind(property_id) {
            Some(PropertyKind::Byte) => self.byte_at(property_id).is_some(),
            Some(PropertyKind::TwoByte) => self.two_byte_at(property_id).is_some(),
            Some(PropertyKind::FourByte) => self.four_byte_at(property_id).is_some(),
            Some(PropertyKind::Text) => self.text_at(property_id).is_some(),
            Some(PropertyKind::Binary) => self.binary_at(property_id).is_some(),
            _ => false,
        }
    }
}

// ----------------------------------------------------------------------------
// Reading
// ----------------------------------------------------------------------------

/// Rejects text that holds U+0000.
fn validate_string(value: &str) -> (r: Result<(), MqttError>)
    ensures
        r == (if value@.contains('\0') {
            Err::<(), MqttError>(wire::null_character())
        } else {
            Ok(())
        }),
{
    for c in it: value.chars()
        invariant
            it.seq() == value@,
            forall|i: int| 0 <= i < it.index() ==> value@[i] != '\0',
    {
        if c == '\0' {
            assert(value@[it.index() as int] == '\0');
            return Err(MqttError::Protocol(Violation::Utf8NullCharacter));
        }
    }
    Ok(())
}

/// Reads property text.
fn read_string(input: &[u8], cursor: &mut usize) -> (r: Result<Arc<str>, MqttError>)
    ensures
        match take_property_text(wire::rest_at(input@, *old(cursor) as int)) {
            Ok((c, rest)) => (r matches Ok(got) && wire::text(got) == c) && wire::cursor_at(
                input@,
                *final(cursor) as int,
                rest,
            ),
            Err(e) => r == Err::<Arc<str>, MqttError>(e) && *final(cursor) == *old(cursor)
                + property_text_stop(wire::rest_at(input@, *old(cursor) as int)),
        },
{
    let bytes = match wire::read_prefixed_bytes(input, cursor) {
        Ok(b) => b,
        Err(e) => {
            return Err(e);
        },
    };
    proof {
        let s = wire::rest_at(input@, *old(cursor) as int);
        let rest = wire::take_prefixed(s).unwrap().1;
        assert(rest.len() == s.len() - 2 - bytes@.len());
        assert(rest.len() == input@.len() - *cursor);
    }
    let value = match wire::utf8_text(bytes) {
        Some(s) => s,
        None => {
            return Err(MqttError::Codec(CodecError::InvalidUtf8));
        },
    };
    match validate_string(value) {
        Ok(_) => Ok(wire::shared_text(value)),
        Err(e) => Err(e),
    }
}

/// Reads binary data.
fn read_binary(input: &[u8], cursor: &mut usize) -> (r: Result<Bytes, MqttError>)
    ensures
        match wire::take_prefixed(wire::rest_at(input@, *old(cursor) as int)) {
            Ok((b, rest)) => (r matches Ok(got) && buffers::payload(got) == b) && wire::cursor_at(
                input@,
                *final(cursor) as int,
                rest,
            ),
            Err(e) => r == Err::<Bytes, MqttError>(e) && *final(cursor) == *old(cursor)
                + wire::prefix_stop(wire::rest_at(input@, *old(cursor) as int)),
        },
{
    match wire::read_prefixed_bytes(input, cursor) {
        Ok(b) => Ok(buffers::copy_bytes(b)),
        Err(e) => Err(e),
    }
}

impl Properties {
    /// Reads the value of property `property_id` and adds it to the block.
    fn read_value(
        &mut self,
        property_id: u8,
        kind: PropertyKind,
        input: &[u8],
        cursor: &mut usize,
    ) -> (r: Result<(), MqttError>)
        requires
            property_kind(property_id) == Some(kind),
        ensures
            match take_value(kind, wire::rest_at(input@, *old(cursor) as int)) {
                Ok((v, rest)) => r is Ok && final(self)@ == old(self)@.with(property_id, v)
                    && wire::cursor_at(input@, *final(cursor) as int, rest),
                Err(e) => r == Err::<(), MqttError>(e),
            },
    {
        match kind {
            PropertyKind::Byte => match wire::read_u8(input, cursor) {
                Ok(v) => {
                    self.set_byte(property_id, v);
                    Ok(())
                },
                Err(e) => Err(e),
            },
            PropertyKind::TwoByte => match wire::read_u16(input, cursor) {
                Ok(v) => {
                    self.set_two_byte(property_id, v);
                    Ok(())
                },
                Err(e) => Err(e),
            },
            PropertyKind::FourByte => match wire::read_u32(input, cursor) {
                Ok(v) => {
                    self.set_four_byte(property_id, v);
                    Ok(())
                },
                Err(e) => Err(e),
            },
            PropertyKind::VarInt => match wire::read_vbi(input, cursor) {
                Ok(v) => {
                    self.subscription_identifiers.push(v as u32);
                    assert(self@ =~= old(self)@.with(
                        property_id,
                        PropertyValue::VarInt(v as u32),
                    ));
                    Ok(())
                },
                Err(e) => Err(e),
            },
            PropertyKind::Text => match read_string(input, cursor) {
                Ok(v) => {
                    self.set_text(property_id, v);
                    Ok(())
                },
                Err(e) => Err(e),
            },
            PropertyKind::Binary => match read_binary(input, cursor) {
                Ok(v) => {
                    self.set_binary(property_id, v);
                    Ok(())
                },
                Err(e) => Err(e),
            },
            PropertyKind::Pair => {
                let key = match read_string(input, cursor) {
                    Ok(v) => v,
                    Err(e) => {
                        return Err(e);
                    },
                };
                let value = match read_string(input, cursor) {
                    Ok(v) => v,
                    Err(e) => {
                        return Err(e);
                    },
                };
                let ghost v = PropertyValue::Pair(wire::text(key), wire::text(value));
                self.user_properties.push((key, value));
                assert(self@ =~= old(self)@.with(property_id, v));
                Ok(())
            },
        }
    }
}

/// A value is read off the front: what is left is no longer than the input.
proof fn value_leaves_a_suffix(kind: PropertyKind, s: Seq<u8>)
    ensures
        take_value(kind, s) matches Ok((_, rest)) ==> rest.len() <= s.len(),
{
    wire::vbi_is_canonical(s);
}

impl Properties {
    /// Checks the rules on property values.
    fn validate_values(&self) -> (r: Result<(), MqttError>)
        ensures
            r == value_error(self@),
    {
        let mut property_id: u8 = 0;
        while property_id < 0x2B
            invariant
                property_id <= 0x2B,
                bad_flag(self@, 0) == bad_flag(self@, property_id as int),
            decreases 0x2B - property_id,
        {
            if let Some(PropertyKind::Byte) = lookup_kind(property_id) {
                if let Some(value) = self.byte_at(property_id) {
                    if value > 1 {
                        return Err(
                            MqttError::Protocol(Violation::MalformedProperty(property_id)),
                        );
                    }
                }
            }
            property_id += 1;
        }
        if let Some(0) = self.receive_maximum {
            return Err(MqttError::Protocol(Violation::MalformedProperty(id::RECEIVE_MAXIMUM)));
        }
        if let Some(0) = self.topic_alias {
            return Err(MqttError::Protocol(Violation::MalformedProperty(id::TOPIC_ALIAS)));
        }
        if let Some(0) = self.maximum_packet_size {
            return Err(MqttError::Protocol(Violation::MalformedProperty(id::MAXIMUM_PACKET_SIZE)));
        }
        let mut i: usize = 0;
        while i < self.subscription_identifiers.len()
            invariant
                i <= self.subscription_identifiers@.len(),
                forall|j: int|
                    0 <= j < i ==> !#[trigger] bad_identifier(self.subscription_identifiers@[j]),
                bad_flag(self@, 0) is None,
                !holds(self@, id::RECEIVE_MAXIMUM, PropertyValue::TwoByte(0)),
                !holds(self@, id::TOPIC_ALIAS, PropertyValue::TwoByte(0)),
                !holds(self@, id::MAXIMUM_PACKET_SIZE, PropertyValue::FourByte(0)),
            decreases self.subscription_identifiers@.len() - i,
        {
            let value: u32 = self.subscription_identifiers[i];
            if value == 0 || value as usize > wire::MAX_VARIABLE_BYTE_INTEGER {
                assert(bad_identifier(self@.subscription_identifiers[i as int]));
                return Err(
                    MqttError::Protocol(Violation::MalformedProperty(id::SUBSCRIPTION_IDENTIFIER)),
                );
            }
            i += 1;
        }
        if self.authentication_data.is_some() && self.authentication_method.is_none() {
            return Err(MqttError::Protocol(Violation::MalformedProperty(id::AUTHENTICATION_DATA)));
        }
        if let Some(response_topic) = &self.response_topic {
            return topic::validate_publish_topic(&**response_topic);
        }
        Ok(())
    }

    /// Decodes one length-prefixed property block and advances `cursor` past it.
    /// On an error the cursor has passed what was read of the length.
    pub fn parse(body: &[u8], cursor: &mut usize) -> (r: Result<Self, MqttError>)
        ensures
            match take_block(wire::rest_at(body@, *old(cursor) as int)) {
                Ok((m, rest)) => (r matches Ok(got) && got@ == m) && wire::cursor_at(
                    body@,
                    *final(cursor) as int,
                    rest,
                ),
                Err(e) => r == Err::<Self, MqttError>(e) && *final(cursor) == *old(cursor)
                    + wire::vbi_stop(wire::rest_at(body@, *old(cursor) as int)),
            },
    {
        proof {
            reveal(take_block);
        }
        let property_length: usize = match wire::read_vbi(body, cursor) {
            Ok(n) => n,
            Err(e) => {
                return Err(e);
            },
        };
        let at: usize = *cursor;
        if property_length > body.len() - at {
            return Err(MqttError::Codec(CodecError::UnexpectedEof));
        }
        let end: usize = at + property_length;
        // Every value is read within the declared block, so that a malformed
        // one cannot consume bytes that follow it.
        let block = vstd::slice::slice_subrange(body, at, end);
        assert(block@ =~= body@.skip(at as int).take(property_length as int));
        assert(body@.skip(at as int).skip(property_length as int) =~= body@.skip(end as int));
        let properties = match Self::parse_values(block) {
            Ok(p) => p,
            Err(e) => {
                return Err(e);
            },
        };
        match properties.validate_values() {
            Ok(_) => {
                *cursor = end;
                Ok(properties)
            },
            Err(e) => Err(e),
        }
    }

    /// Reads the properties of a block.
    fn parse_values(block: &[u8]) -> (r: Result<Self, MqttError>)
        ensures
            match take_properties(block@, PropertiesView::empty()) {
                Ok(m) => r matches Ok(got) && got@ == m,
                Err(e) => r == Err::<Self, MqttError>(e),
            },
    {
        let mut cursor: usize = 0;
        let mut properties = Self::default();
        assert(block@.skip(0) =~= block@);
        while cursor < block.len()
            invariant
                cursor <= block@.len(),
                take_properties(block@, PropertiesView::empty()) == take_properties(
                    block@.skip(cursor as int),
                    properties@,
                ),
            decreases block@.len() - cursor,
        {
            let ghost s = block@.skip(cursor as int);
            let property_id: u8 = block[cursor];
            let kind = match lookup_kind(property_id) {
                Some(k) => k,
                None => {
                    return Err(MqttError::Protocol(Violation::UnknownProperty(property_id)));
                },
            };
            let repeats = match kind {
                PropertyKind::VarInt | PropertyKind::Pair => true,
                _ => false,
            };
            if !repeats && properties.has(property_id) {
                return Err(MqttError::Protocol(Violation::DuplicateProperty(property_id)));
            }
            cursor += 1;
            assert(s.skip(1) =~= block@.skip(cursor as int));
            proof {
                value_leaves_a_suffix(kind, s.skip(1));
            }
            match properties.read_value(property_id, kind, block, &mut cursor) {
                Ok(_) => {},
                Err(e) => {
                    return Err(e);
                },
            }
        }
        Ok(properties)
    }
}

// ----------------------------------------------------------------------------
// Writing
// ----------------------------------------------------------------------------

/// Writes a byte string behind its length, or reports one that is too long.
fn write_prefixed_bytes(output: &mut Vec<u8>, value: &[u8], kind: &'static str) -> (r: Result<
    (),
    MqttError,
>)
    ensures
        r == field_error(kind, value@),
        r is Ok ==> final(output)@ == old(output)@ + wire::prefixed(value@),
{
    if value.len() > 0xffff {
        return Err(MqttError::Codec(CodecError::FieldTooLong { kind, len: value.len() }));
    }
    wire::write_short_prefixed(output, value);
    Ok(())
}

fn write_binary(output: &mut Vec<u8>, value: &Bytes, kind: &'static str) -> (r: Result<
    (),
    MqttError,
>)
    ensures
        r == field_error(kind, buffers::payload(*value)),
        r is Ok ==> final(output)@ == old(output)@ + wire::prefixed(buffers::payload(*value)),
{
    write_prefixed_bytes(output, buffers::bytes_slice(value), kind)
}

/// Writes property text.
fn write_string(output: &mut Vec<u8>, value: &str, kind: &'static str) -> (r: Result<
    (),
    MqttError,
>)
    ensures
        r == text_error(kind, value@),
        r is Ok ==> final(output)@ == old(output)@ + wire::prefixed_text(value@),
{
    match validate_string(value) {
        Ok(_) => write_prefixed_bytes(output, value.as_bytes(), kind),
        Err(e) => Err(e),
    }
}

/// The name under which an over-long value of this property is reported.
fn label(property_id: u8) -> (r: &'static str)
    ensures
        r == property_label(property_id),
{
    if property_id == id::CONTENT_TYPE {
        "property.content_type"
    } else if property_id == id::RESPONSE_TOPIC {
        "property.response_topic"
    } else if property_id == id::CORRELATION_DATA {
        "property.correlation_data"
    } else if property_id == id::ASSIGNED_CLIENT_IDENTIFIER {
        "property.assigned_client_identifier"
    } else if property_id == id::AUTHENTICATION_METHOD {
        "property.authentication_method"
    } else if property_id == id::AUTHENTICATION_DATA {
        "property.authentication_data"
    } else if property_id == id::RESPONSE_INFORMATION {
        "property.response_information"
    } else if property_id == id::SERVER_REFERENCE {
        "property.server_reference"
    } else {
        "property.reason_string"
    }
}

impl Properties {
    /// Writes the Subscription Identifiers.
    fn write_identifiers(&self, body: &mut Vec<u8>)
        requires
            forall|i: int|
                0 <= i < self.subscription_identifiers@.len() ==> !#[trigger] bad_identifier(
                    self.subscription_identifiers@[i],
                ),
        ensures
            final(body)@ == old(body)@ + identifier_bytes(self.subscription_identifiers@),
    {
        let ghost ids = self.subscription_identifiers@;
        let ghost before = body@;
        let mut i: usize = 0;
        assert(ids.skip(0) =~= ids);
        while i < self.subscription_identifiers.len()
            invariant
                ids == self.subscription_identifiers@,
                i <= ids.len(),
                forall|i: int| 0 <= i < ids.len() ==> !#[trigger] bad_identifier(ids[i]),
                body@ + identifier_bytes(ids.skip(i as int)) == before + identifier_bytes(ids),
            decreases ids.len() - i,
        {
            let ghost so_far = body@;
            let value: u32 = self.subscription_identifiers[i];
            assert(!bad_identifier(ids[i as int]));
            body.push(id::SUBSCRIPTION_IDENTIFIER);
            let _written = wire::write_vbi(body, value as usize);
            proof {
                let left = ids.skip(i as int);
                assert(left.skip(1) =~= ids.skip(i + 1));
                assert(body@ =~= so_far + item_bytes(
                    id::SUBSCRIPTION_IDENTIFIER,
                    PropertyValue::VarInt(value),
                ));
                assert(body@ + identifier_bytes(left.skip(1)) =~= so_far + identifier_bytes(left));
            }
            i += 1;
        }
        assert(body@ + identifier_bytes(ids.skip(i as int)) =~= body@);
    }

    /// Writes the User Properties.
    fn write_users(&self, body: &mut Vec<u8>) -> (r: Result<(), MqttError>)
        ensures
            r == user_error(self@.user_properties),
            r is Ok ==> final(body)@ == old(body)@ + user_bytes(self@.user_properties),
    {
        let ghost users = self@.user_properties;
        let ghost before = body@;
        let mut i: usize = 0;
        assert(users.skip(0) =~= users);
        while i < self.user_properties.len()
            invariant
                users == self@.user_properties,
                i <= users.len(),
                user_error(users.skip(i as int)) == user_error(users),
                body@ + user_bytes(users.skip(i as int)) == before + user_bytes(users),
            decreases users.len() - i,
        {
            let ghost so_far = body@;
            let ghost left = users.skip(i as int);
            let (key, value) = &self.user_properties[i];
            body.push(id::USER_PROPERTY);
            match write_string(body, &**key, "property.user_property.key") {
                Ok(_) => {},
                Err(e) => {
                    return Err(e);
                },
            }
            match write_string(body, &**value, "property.user_property.value") {
                Ok(_) => {},
                Err(e) => {
                    return Err(e);
                },
            }
            proof {
                assert(left.skip(1) =~= users.skip(i + 1));
                assert(body@ =~= so_far + item_bytes(
                    id::USER_PROPERTY,
                    PropertyValue::Pair(left[0].0, left[0].1),
                ));
                assert(body@ + user_bytes(left.skip(1)) =~= so_far + user_bytes(left));
            }
            i += 1;
        }
        assert(body@ + user_bytes(users.skip(i as int)) =~= body@);
        Ok(())
    }

    /// Writes what the block holds under one identifier.
    fn write_property(&self, property_id: u8, body: &mut Vec<u8>) -> (r: Result<(), MqttError>)
        requires
            value_error(self@) is Ok,
        ensures
            r == segment_error(self@, property_id),
            r is Ok ==> final(body)@ == old(body)@ + segment(self@, property_id),
    {
        let ghost before = body@;
        match lookup_kind(property_id) {
            Some(PropertyKind::Byte) => {
                if let Some(v) = self.byte_at(property_id) {
                    body.push(property_id);
                    body.push(v);
                }
            },
            Some(PropertyKind::TwoByte) => {
                if let Some(v) = self.two_byte_at(property_id) {
                    body.push(property_id);
                    wire::write_u16(body, v);
                }
            },
            Some(PropertyKind::FourByte) => {
                if let Some(v) = self.four_byte_at(property_id) {
                    body.push(property_id);
                    wire::write_u32(body, v);
                }
            },
            Some(PropertyKind::VarInt) => {
                assert forall|i: int| 0 <= i < self.subscription_identifiers@.len() implies
                    !#[trigger] bad_identifier(self.subscription_identifiers@[i]) by {
                    if bad_identifier(self@.subscription_identifiers[i]) {
                        assert(false);
                    }
                }
                self.write_identifiers(body);
            },
            Some(PropertyKind::Text) => {
                if let Some(v) = self.text_at(property_id) {
                    body.push(property_id);
                    match write_string(body, &**v, label(property_id)) {
                        Ok(_) => {},
                        Err(e) => {
                            return Err(e);
                        },
                    }
                }
            },
            Some(PropertyKind::Binary) => {
                if let Some(v) = self.binary_at(property_id) {
                    body.push(property_id);
                    match write_binary(body, v, label(property_id)) {
                        Ok(_) => {},
                        Err(e) => {
                            return Err(e);
                        },
                    }
                }
            },
            Some(PropertyKind::Pair) => {
                return self.write_users(body);
            },
            None => {},
        }
        assert(body@ =~= before + segment(self@, property_id));
        Ok(())
    }

    /// Writes every property, in ascending order of identifiers.
    fn encode_values(&self, body: &mut Vec<u8>) -> (r: Result<(), MqttError>)
        requires
            value_error(self@) is Ok,
        ensures
            r == values_error(self@, 0),
            r is Ok ==> final(body)@ == old(body)@ + values_from(self@, 0),
    {
        let ghost before = body@;
        let mut property_id: u8 = 0;
        while property_id < 0x2B
            invariant
                property_id <= 0x2B,
                value_error(self@) is Ok,
                values_error(self@, 0) == values_error(self@, property_id as int),
                body@ + values_from(self@, property_id as int) == before + values_from(self@, 0),
            decreases 0x2B - property_id,
        {
            let ghost so_far = body@;
            match self.write_property(property_id, body) {
                Ok(_) => {},
                Err(e) => {
                    return Err(e);
                },
            }
            assert(body@ + values_from(self@, property_id + 1) =~= so_far + values_from(
                self@,
                property_id as int,
            ));
            property_id += 1;
        }
        assert(body@ + values_from(self@, 0x2B) =~= body@);
        Ok(())
    }

    /// Encodes this block, its Variable Byte Integer length included.
    pub fn encode(&self, output: &mut Vec<u8>) -> (r: Result<(), MqttError>)
        ensures
            match block_bytes(self@) {
                Ok(b) => r is Ok && final(output)@ == old(output)@ + b,
                Err(e) => r == Err::<(), MqttError>(e) && final(output)@ == old(output)@,
            },
    {
        proof {
            reveal(block_bytes);
        }
        match self.validate_values() {
            Ok(_) => {},
            Err(e) => {
                return Err(e);
            },
        }
        let mut body: Vec<u8> = Vec::new();
        match self.encode_values(&mut body) {
            Ok(_) => {},
            Err(e) => {
                return Err(e);
            },
        }
        assert(body@ =~= values_from(self@, 0));
        match wire::write_vbi(output, body.len()) {
            Ok(_) => {},
            Err(e) => {
                return Err(e);
            },
        }
        wire::write_bytes(output, body.as_slice());
        assert(output@ =~= old(output)@ + (wire::vbi_bytes(body@.len()) + body@));
        Ok(())
    }
}

impl Properties {
    /// Whether this block contains no properties.
    pub fn is_empty(&self) -> (r: bool)
        ensures
            r == (self@ == PropertiesView::empty()),
    {
        if self.subscription_identifiers.len() != 0 || self.user_properties.len() != 0 {
            assert(self@.subscription_identifiers.len() != 0 || self@.user_properties.len() != 0);
            return false;
        }
        let mut property_id: u8 = 0;
        while property_id < 0x2B
            invariant
                property_id <= 0x2B,
                forall|k: u8| k < property_id ==> !self@.scalars.contains_key(k),
            decreases 0x2B - property_id,
        {
            if self.has(property_id) {
                return false;
            }
            property_id += 1;
        }
        assert(self@ =~= PropertiesView::empty());
        true
    }
}

impl Clone for Properties {
    fn clone(&self) -> (r: Self)
        ensures
            r@ == self@,
    {
        let mut user_properties: Vec<(Arc<str>, Arc<str>)> = Vec::new();
        let mut i: usize = 0;
        while i < self.user_properties.len()
            invariant
                i <= self.user_properties@.len(),
                user_properties@ == self.user_properties@.take(i as int),
            decreases self.user_properties@.len() - i,
        {
            let (key, value) = &self.user_properties[i];
            user_properties.push((key.clone(), value.clone()));
            i += 1;
        }
        assert(user_properties@ =~= self.user_properties@);
        let r = Properties {
            payload_format_indicator: self.payload_format_indicator,
            message_expiry_interval: self.message_expiry_interval,
            content_type: wire::share_opt_text(&self.content_type),
            response_topic: wire::share_opt_text(&self.response_topic),
            correlation_data: buffers::share_opt_bytes(&self.correlation_data),
            subscription_identifiers: self.subscription_identifiers.clone(),
            session_expiry_interval: self.session_expiry_interval,
            assigned_client_identifier: wire::share_opt_text(&self.assigned_client_identifier),
            server_keep_alive: self.server_keep_alive,
            authentication_method: wire::share_opt_text(&self.authentication_method),
            authentication_data: buffers::share_opt_bytes(&self.authentication_data),
            request_problem_information: self.request_problem_information,
            will_delay_interval: self.will_delay_interval,
            request_response_information: self.request_response_information,
            response_information: wire::share_opt_text(&self.response_information),
            server_reference: wire::share_opt_text(&self.server_reference),
            reason_string: wire::share_opt_text(&self.reason_string),
            receive_maximum: self.receive_maximum,
            topic_alias_maximum: self.topic_alias_maximum,
            topic_alias: self.topic_alias,
            maximum_qos: self.maximum_qos,
            retain_available: self.retain_available,
            user_properties,
            maximum_packet_size: self.maximum_packet_size,
            wildcard_subscription_available: self.wildcard_subscription_available,
            subscription_identifier_available: self.subscription_identifier_available,
            shared_subscription_available: self.shared_subscription_available,
        };
        assert(r.subscription_identifiers@ =~= self.subscription_identifiers@);
        assert forall|k: u8| #[trigger] r.scalar(k) == self.scalar(k) by {}
        assert(r@ =~= self@);
        r
    }
}

// ----------------------------------------------------------------------------
// Laws
// ----------------------------------------------------------------------------

/// Every property that occurs at most once is in the identifier table, with a
/// value of the kind that the table gives.
pub open spec fn well_typed(m: PropertiesView) -> bool {
    forall|k: u8| #[trigger]
        m.scalars.contains_key(k) ==> property_kind(k) == Some(kind_of(m.scalars[k]))
            && !repeatable(kind_of(m.scalars[k]))
}

/// The view of every block is well typed.
pub proof fn blocks_are_well_typed(p: Properties)
    ensures
        well_typed(p@),
{
}

/// Whether a value can be written as it is.
spec fn writable(v: PropertyValue) -> bool {
    match v {
        PropertyValue::VarInt(n) => n <= wire::MAX_VARIABLE_BYTE_INTEGER,
        PropertyValue::Text(c) => !c.contains('\0') && encode_utf8(c).len() <= 0xffff,
        PropertyValue::Binary(b) => b.len() <= 0xffff,
        PropertyValue::Pair(k, v) => !k.contains('\0') && encode_utf8(k).len() <= 0xffff
            && !v.contains('\0') && encode_utf8(v).len() <= 0xffff,
        _ => true,
    }
}

proof fn value_round_trip(v: PropertyValue, rest: Seq<u8>)
    requires
        writable(v),
    ensures
        take_value(kind_of(v), value_bytes(v) + rest) == Ok::<
            (PropertyValue, Seq<u8>),
            MqttError,
        >((v, rest)),
{
    match v {
        PropertyValue::Byte(b) => {
            assert((seq![b] + rest).skip(1) =~= rest);
        },
        PropertyValue::TwoByte(n) => {
            wire::u16_round_trip(n, rest);
        },
        PropertyValue::FourByte(n) => {
            wire::u32_round_trip(n, rest);
        },
        PropertyValue::VarInt(n) => {
            wire::vbi_round_trip(n as nat, rest);
        },
        PropertyValue::Text(c) => {
            wire::text_round_trip(c, rest);
        },
        PropertyValue::Binary(b) => {
            wire::prefixed_round_trip(b, rest);
        },
        PropertyValue::Pair(k, v) => {
            wire::joined(wire::prefixed_text(k), wire::prefixed_text(v), rest);
            wire::text_round_trip(k, wire::prefixed_text(v) + rest);
            wire::text_round_trip(v, rest);
        },
    }
}

/// Reading one property that was written adds it to the block.
proof fn item_round_trip(id: u8, v: PropertyValue, rest: Seq<u8>, m: PropertiesView)
    requires
        writable(v),
        property_kind(id) == Some(kind_of(v)),
        repeatable(kind_of(v)) || !m.scalars.contains_key(id),
    ensures
        take_properties(item_bytes(id, v) + rest, m) == take_properties(rest, m.with(id, v)),
{
    let s = item_bytes(id, v) + rest;
    assert(s.skip(1) =~= value_bytes(v) + rest);
    value_round_trip(v, rest);
}

proof fn identifiers_round_trip(v: Seq<u32>, rest: Seq<u8>, m: PropertiesView)
    requires
        forall|i: int| 0 <= i < v.len() ==> !#[trigger] bad_identifier(v[i]),
    ensures
        take_properties(identifier_bytes(v) + rest, m) == take_properties(
            rest,
            (PropertiesView { subscription_identifiers: m.subscription_identifiers + v, ..m }),
        ),
    decreases v.len(),
{
    if v.len() == 0 {
        assert(identifier_bytes(v) + rest =~= rest);
        assert(m.subscription_identifiers + v =~= m.subscription_identifiers);
    } else {
        let item = PropertyValue::VarInt(v[0]);
        let after = identifier_bytes(v.skip(1)) + rest;
        assert(!bad_identifier(v[0]));
        assert forall|i: int| 0 <= i < v.skip(1).len() implies !#[trigger] bad_identifier(
            v.skip(1)[i],
        ) by {
            assert(!bad_identifier(v[i + 1]));
        }
        wire::joined(
            item_bytes(id::SUBSCRIPTION_IDENTIFIER, item),
            identifier_bytes(v.skip(1)),
            rest,
        );
        item_round_trip(id::SUBSCRIPTION_IDENTIFIER, item, after, m);
        identifiers_round_trip(v.skip(1), rest, m.with(id::SUBSCRIPTION_IDENTIFIER, item));
        assert(m.subscription_identifiers.push(v[0]) + v.skip(1) =~= m.subscription_identifiers
            + v);
    }
}

/// Reading one User Property that was written adds it to the list.
proof fn user_round_trip(key: Seq<char>, value: Seq<char>, rest: Seq<u8>, m: PropertiesView)
    requires
        pair_error((key, value)) is Ok,
    ensures
        take_properties(
            item_bytes(id::USER_PROPERTY, PropertyValue::Pair(key, value)) + rest,
            m,
        ) == take_properties(
            rest,
            (PropertiesView { user_properties: m.user_properties.push((key, value)), ..m }),
        ),
{
    item_round_trip(id::USER_PROPERTY, PropertyValue::Pair(key, value), rest, m);
}

#[verifier::rlimit(50)]
proof fn users_round_trip(v: Seq<(Seq<char>, Seq<char>)>, rest: Seq<u8>, m: PropertiesView)
    requires
        user_error(v) is Ok,
    ensures
        take_properties(user_bytes(v) + rest, m) == take_properties(
            rest,
            (PropertiesView { user_properties: m.user_properties + v, ..m }),
        ),
    decreases v.len(),
{
    if v.len() == 0 {
        assert(user_bytes(v) + rest =~= rest);
        assert(m.user_properties + v =~= m.user_properties);
    } else {
        let (key, value) = v[0];
        let first = item_bytes(id::USER_PROPERTY, PropertyValue::Pair(key, value));
        let next = PropertiesView { user_properties: m.user_properties.push((key, value)), ..m };
        wire::joined(first, user_bytes(v.skip(1)), rest);
        user_round_trip(key, value, user_bytes(v.skip(1)) + rest, m);
        users_round_trip(v.skip(1), rest, next);
        assert(next.user_properties + v.skip(1) =~= m.user_properties + v);
    }
}

/// The part of a block with identifiers below `id`.
spec fn below(m: PropertiesView, id: int) -> PropertiesView {
    PropertiesView {
        scalars: m.scalars.restrict(Set::new(|k: u8| k < id)),
        subscription_identifiers: if id > id::SUBSCRIPTION_IDENTIFIER {
            m.subscription_identifiers
        } else {
            Seq::empty()
        },
        user_properties: if id > id::USER_PROPERTY {
            m.user_properties
        } else {
            Seq::empty()
        },
    }
}

proof fn values_round_trip(m: PropertiesView, id: int)
    requires
        0 <= id <= 0x2B,
        well_typed(m),
        value_error(m) is Ok,
        values_error(m, id) is Ok,
    ensures
        take_properties(values_from(m, id), below(m, id)) == Ok::<PropertiesView, MqttError>(m),
    decreases 0x2B - id,
{
    let p = below(m, id);
    if id == 0x2B {
        assert(p =~= m);
    } else {
        let k = id as u8;
        let rest = values_from(m, id + 1);
        values_round_trip(m, id + 1);
        if k == id::SUBSCRIPTION_IDENTIFIER {
            assert forall|i: int| 0 <= i < m.subscription_identifiers.len() implies
                !#[trigger] bad_identifier(m.subscription_identifiers[i]) by {}
            identifiers_round_trip(m.subscription_identifiers, rest, p);
            assert(below(m, id + 1) =~= (PropertiesView {
                subscription_identifiers: p.subscription_identifiers + m.subscription_identifiers,
                ..p
            }));
        } else if k == id::USER_PROPERTY {
            users_round_trip(m.user_properties, rest, p);
            assert(below(m, id + 1) =~= (PropertiesView {
                user_properties: p.user_properties + m.user_properties,
                ..p
            }));
        } else if m.scalars.contains_key(k) {
            item_round_trip(k, m.scalars[k], rest, p);
            assert(below(m, id + 1) =~= p.with(k, m.scalars[k]));
        } else {
            assert(segment(m, k) + rest =~= rest);
            assert(below(m, id + 1) =~= p);
        }
    }
}

/// Decoding a property block gives back what was encoded and leaves the bytes
/// behind it.
pub proof fn block_round_trip(m: PropertiesView, rest: Seq<u8>)
    requires
        well_typed(m),
        block_bytes(m) is Ok,
    ensures
        take_block(block_bytes(m).unwrap() + rest) == Ok::<(PropertiesView, Seq<u8>), MqttError>(
            (m, rest),
        ),
{
    reveal(take_block);
    reveal(block_bytes);
    let body = values_from(m, 0);
    let s = block_bytes(m).unwrap() + rest;
    assert(s =~= wire::vbi_bytes(body.len()) + (body + rest));
    wire::vbi_round_trip(body.len(), body + rest);
    assert((body + rest).take(body.len() as int) =~= body);
    assert((body + rest).skip(body.len() as int) =~= rest);
    values_round_trip(m, 0);
    assert(below(m, 0) =~= PropertiesView::empty());
}

/// The empty block is encoded as a single zero byte.
pub proof fn empty_block_is_one_byte()
    ensures
        block_bytes(PropertiesView::empty()) == Ok::<Seq<u8>, MqttError>(seq![0u8]),
{
    reveal(block_bytes);
    nothing_to_check(0);
    nothing_to_write(0);
    assert(wire::vbi_bytes(0) + Seq::<u8>::empty() =~= seq![0u8]);
}

proof fn nothing_to_check(id: int)
    requires
        0 <= id <= 0x2B,
    ensures
        bad_flag(PropertiesView::empty(), id) is None,
    decreases 0x2B - id,
{
    if id < 0x2B {
        nothing_to_check(id + 1);
    }
}

proof fn nothing_to_write(id: int)
    requires
        0 <= id <= 0x2B,
    ensures
        values_error(PropertiesView::empty(), id) is Ok,
        values_from(PropertiesView::empty(), id) == Seq::<u8>::empty(),
    decreases 0x2B - id,
{
    if id < 0x2B {
        nothing_to_write(id + 1);
        assert(values_from(PropertiesView::empty(), id) =~= Seq::empty());
    }
}

// ----------------------------------------------------------------------------
// Blocks that were read
// ----------------------------------------------------------------------------

proof fn pair_is_canonical(s: Seq<u8>)
    ensures
        take_value(PropertyKind::Pair, s) matches Ok((v, rest)) ==> kind_of(v)
            == PropertyKind::Pair && writable(v) && s == value_bytes(v) + rest,
{
    if let Ok((key, after)) = take_property_text(s) {
        wire::text_is_canonical(s);
        if let Ok((value, rest)) = take_property_text(after) {
            wire::text_is_canonical(after);
            wire::joined(wire::prefixed_text(key), wire::prefixed_text(value), rest);
        }
    }
}

/// A value that was read can be written, and takes the bytes that it was read
/// from.
proof fn value_is_canonical(kind: PropertyKind, s: Seq<u8>)
    ensures
        take_value(kind, s) matches Ok((v, rest)) ==> kind_of(v) == kind && writable(v) && s
            == value_bytes(v) + rest,
{
    match kind {
        PropertyKind::Byte => {
            if s.len() > 0 {
                assert(s =~= seq![s[0]] + s.skip(1));
            }
        },
        PropertyKind::TwoByte => {
            wire::u16_is_canonical(s);
        },
        PropertyKind::FourByte => {
            wire::u32_is_canonical(s);
        },
        PropertyKind::VarInt => {
            wire::vbi_is_canonical(s);
            wire::vbi_is_in_range(s);
        },
        PropertyKind::Text => {
            wire::text_is_canonical(s);
        },
        PropertyKind::Binary => {
            wire::prefixed_is_canonical(s);
        },
        PropertyKind::Pair => {
            pair_is_canonical(s);
        },
    }
}

/// Every value of the block can be written as it is.
spec fn all_writable(m: PropertiesView) -> bool {
    &&& forall|k: u8| #[trigger] m.scalars.contains_key(k) ==> writable(m.scalars[k])
    &&& forall|i: int|
        0 <= i < m.user_properties.len() ==> writable(
            PropertyValue::Pair((#[trigger] m.user_properties[i]).0, m.user_properties[i].1),
        )
}

proof fn one_more_identifier(v: Seq<u32>, n: u32)
    ensures
        identifier_bytes(v.push(n)).len() == identifier_bytes(v).len() + item_bytes(
            id::SUBSCRIPTION_IDENTIFIER,
            PropertyValue::VarInt(n),
        ).len(),
    decreases v.len(),
{
    if v.len() == 0 {
        assert(v.push(n).skip(1) =~= v);
    } else {
        assert(v.push(n).skip(1) =~= v.skip(1).push(n));
        one_more_identifier(v.skip(1), n);
    }
}

proof fn one_more_user_property(v: Seq<(Seq<char>, Seq<char>)>, p: (Seq<char>, Seq<char>))
    ensures
        user_bytes(v.push(p)).len() == user_bytes(v).len() + item_bytes(
            id::USER_PROPERTY,
            PropertyValue::Pair(p.0, p.1),
        ).len(),
    decreases v.len(),
{
    if v.len() == 0 {
        assert(v.push(p).skip(1) =~= v);
    } else {
        assert(v.push(p).skip(1) =~= v.skip(1).push(p));
        one_more_user_property(v.skip(1), p);
    }
}

/// A property that is added to a block adds its own bytes to the encoding.
proof fn one_more_property(m: PropertiesView, id: u8, v: PropertyValue, k: int)
    requires
        property_kind(id) == Some(kind_of(v)),
        repeatable(kind_of(v)) || !m.scalars.contains_key(id),
        0 <= k <= 0x2B,
    ensures
        values_from(m.with(id, v), k).len() == values_from(m, k).len() + (if k <= id {
            item_bytes(id, v).len()
        } else {
            0
        }),
    decreases 0x2B - k,
{
    if k < 0x2B {
        one_more_property(m, id, v, k + 1);
        if k == id {
            match v {
                PropertyValue::VarInt(n) => {
                    one_more_identifier(m.subscription_identifiers, n);
                },
                PropertyValue::Pair(key, value) => {
                    one_more_user_property(m.user_properties, (key, value));
                },
                _ => {},
            }
        } else {
            assert(segment(m.with(id, v), k as u8) == segment(m, k as u8));
        }
    }
}

/// Properties that were read can be written, in as many bytes.
proof fn parsed_properties_keep_their_size(s: Seq<u8>, m: PropertiesView)
    requires
        well_typed(m),
        all_writable(m),
    ensures
        take_properties(s, m) matches Ok(all) ==> well_typed(all) && all_writable(all)
            && values_from(all, 0).len() == values_from(m, 0).len() + s.len(),
    decreases s.len(),
{
    if s.len() > 0 && take_properties(s, m) is Ok {
        let kind = property_kind(s[0]).unwrap();
        let (v, rest) = take_value(kind, s.skip(1)).unwrap();
        let next = m.with(s[0], v);
        value_is_canonical(kind, s.skip(1));
        one_more_property(m, s[0], v, 0);
        assert(well_typed(next)) by {
            assert forall|k: u8| #[trigger] next.scalars.contains_key(k) implies property_kind(k)
                == Some(kind_of(next.scalars[k])) && !repeatable(kind_of(next.scalars[k])) by {
                if k != s[0] || repeatable(kind) {
                    assert(m.scalars.contains_key(k));
                }
            }
        }
        assert(all_writable(next)) by {
            assert forall|k: u8| #[trigger] next.scalars.contains_key(k) implies writable(
                next.scalars[k],
            ) by {
                if k != s[0] || repeatable(kind) {
                    assert(m.scalars.contains_key(k));
                }
            }
            assert forall|i: int| 0 <= i < next.user_properties.len() implies writable(
                PropertyValue::Pair(
                    (#[trigger] next.user_properties[i]).0,
                    next.user_properties[i].1,
                ),
            ) by {
                if i < m.user_properties.len() {
                    assert(next.user_properties[i] == m.user_properties[i]);
                }
            }
        }
        parsed_properties_keep_their_size(rest, next);
    }
}

proof fn writable_users_have_no_error(v: Seq<(Seq<char>, Seq<char>)>)
    requires
        forall|i: int|
            0 <= i < v.len() ==> writable(PropertyValue::Pair((#[trigger] v[i]).0, v[i].1)),
    ensures
        user_error(v) is Ok,
    decreases v.len(),
{
    if v.len() > 0 {
        assert(writable(PropertyValue::Pair(v[0].0, v[0].1)));
        assert forall|i: int| 0 <= i < v.skip(1).len() implies writable(
            PropertyValue::Pair((#[trigger] v.skip(1)[i]).0, v.skip(1)[i].1),
        ) by {
            assert(v.skip(1)[i] == v[i + 1]);
        }
        writable_users_have_no_error(v.skip(1));
    }
}

proof fn writable_blocks_have_no_error(m: PropertiesView, id: int)
    requires
        all_writable(m),
        0 <= id <= 0x2B,
    ensures
        values_error(m, id) is Ok,
    decreases 0x2B - id,
{
    if id < 0x2B {
        writable_blocks_have_no_error(m, id + 1);
        if id == id::USER_PROPERTY {
            writable_users_have_no_error(m.user_properties);
        }
    }
}

/// A block that was decoded has an encoding. It takes as many bytes as the
/// block was decoded from, only the order of the properties may differ, and it
/// decodes to the same block.
pub proof fn decoded_blocks_encode_again(s: Seq<u8>)
    ensures
        take_block(s) matches Ok((m, rest)) ==> (block_bytes(m) matches Ok(b) && b.len() == s.len()
            - rest.len() && take_block(b) == Ok::<(PropertiesView, Seq<u8>), MqttError>(
            (m, Seq::empty()),
        )),
{
    reveal(take_block);
    reveal(block_bytes);
    if let Ok((m, rest)) = take_block(s) {
        let (n, after) = wire::take_vbi(s).unwrap();
        wire::vbi_is_canonical(s);
        wire::vbi_is_in_range(s);
        nothing_to_write(0);
        parsed_properties_keep_their_size(after.take(n as int), PropertiesView::empty());
        writable_blocks_have_no_error(m, 0);
        let b = block_bytes(m).unwrap();
        block_round_trip(m, Seq::empty());
        assert(b + Seq::<u8>::empty() =~= b);
    }
}

} // verus!
