//! Where each property stands on the wire, and which blocks are in order.

use vstd::prelude::*;
use vstd::utf8::*;

use crate::buffers;
use crate::error::{MqttError, Violation};
use crate::properties;
use crate::properties::{Properties, PropertiesView, PropertyValue};
use crate::topic;
use crate::wire;

verus! {

// ----------------------------------------------------------------------------
// Identifiers
// ----------------------------------------------------------------------------

/// Every field that holds a byte or a short number stands in the view under its
/// identifier, and is missing there when the field is empty.
pub proof fn small_fields_have_their_identifiers(p: Properties)
    ensures
        p.payload_format_indicator matches Some(v) ==> p@.scalars.contains_pair(
            0x01,
            PropertyValue::Byte(v),
        ),
        p.request_problem_information matches Some(v) ==> p@.scalars.contains_pair(
            0x17,
            PropertyValue::Byte(v),
        ),
        p.request_response_information matches Some(v) ==> p@.scalars.contains_pair(
            0x19,
            PropertyValue::Byte(v),
        ),
        p.maximum_qos matches Some(v) ==> p@.scalars.contains_pair(0x24, PropertyValue::Byte(v)),
        p.retain_available matches Some(v) ==> p@.scalars.contains_pair(
            0x25,
            PropertyValue::Byte(v),
        ),
        p.wildcard_subscription_available matches Some(v) ==> p@.scalars.contains_pair(
            0x28,
            PropertyValue::Byte(v),
        ),
        p.subscription_identifier_available matches Some(v) ==> p@.scalars.contains_pair(
            0x29,
            PropertyValue::Byte(v),
        ),
        p.shared_subscription_available matches Some(v) ==> p@.scalars.contains_pair(
            0x2A,
            PropertyValue::Byte(v),
        ),
        p.server_keep_alive matches Some(v) ==> p@.scalars.contains_pair(
            0x13,
            PropertyValue::TwoByte(v),
        ),
        p.receive_maximum matches Some(v) ==> p@.scalars.contains_pair(
            0x21,
            PropertyValue::TwoByte(v),
        ),
        p.topic_alias_maximum matches Some(v) ==> p@.scalars.contains_pair(
            0x22,
            PropertyValue::TwoByte(v),
        ),
        p.topic_alias matches Some(v) ==> p@.scalars.contains_pair(
            0x23,
            PropertyValue::TwoByte(v),
        ),
        p@.scalars.contains_key(0x01) == p.payload_format_indicator is Some,
        p@.scalars.contains_key(0x17) == p.request_problem_information is Some,
        p@.scalars.contains_key(0x19) == p.request_response_information is Some,
        p@.scalars.contains_key(0x24) == p.maximum_qos is Some,
        p@.scalars.contains_key(0x25) == p.retain_available is Some,
        p@.scalars.contains_key(0x28) == p.wildcard_subscription_available is Some,
        p@.scalars.contains_key(0x29) == p.subscription_identifier_available is Some,
        p@.scalars.contains_key(0x2A) == p.shared_subscription_available is Some,
        p@.scalars.contains_key(0x13) == p.server_keep_alive is Some,
        p@.scalars.contains_key(0x21) == p.receive_maximum is Some,
        p@.scalars.contains_key(0x22) == p.topic_alias_maximum is Some,
        p@.scalars.contains_key(0x23) == p.topic_alias is Some,
{
}

/// Every field that holds a long number, text or binary data stands in the view
/// under its identifier, and is missing there when the field is empty.
pub proof fn large_fields_have_their_identifiers(p: Properties)
    ensures
        p.message_expiry_interval matches Some(v) ==> p@.scalars.contains_pair(
            0x02,
            PropertyValue::FourByte(v),
        ),
        p.session_expiry_interval matches Some(v) ==> p@.scalars.contains_pair(
            0x11,
            PropertyValue::FourByte(v),
        ),
        p.will_delay_interval matches Some(v) ==> p@.scalars.contains_pair(
            0x18,
            PropertyValue::FourByte(v),
        ),
        p.maximum_packet_size matches Some(v) ==> p@.scalars.contains_pair(
            0x27,
            PropertyValue::FourByte(v),
        ),
        p.content_type matches Some(v) ==> p@.scalars.contains_pair(
            0x03,
            PropertyValue::Text((*v)@),
        ),
        p.response_topic matches Some(v) ==> p@.scalars.contains_pair(
            0x08,
            PropertyValue::Text((*v)@),
        ),
        p.assigned_client_identifier matches Some(v) ==> p@.scalars.contains_pair(
            0x12,
            PropertyValue::Text((*v)@),
        ),
        p.authentication_method matches Some(v) ==> p@.scalars.contains_pair(
            0x15,
            PropertyValue::Text((*v)@),
        ),
        p.response_information matches Some(v) ==> p@.scalars.contains_pair(
            0x1A,
            PropertyValue::Text((*v)@),
        ),
        p.server_reference matches Some(v) ==> p@.scalars.contains_pair(
            0x1C,
            PropertyValue::Text((*v)@),
        ),
        p.reason_string matches Some(v) ==> p@.scalars.contains_pair(
            0x1F,
            PropertyValue::Text((*v)@),
        ),
        p.correlation_data matches Some(v) ==> p@.scalars.contains_pair(
            0x09,
            PropertyValue::Binary(buffers::payload(v)),
        ),
        p.authentication_data matches Some(v) ==> p@.scalars.contains_pair(
            0x16,
            PropertyValue::Binary(buffers::payload(v)),
        ),
        p@.scalars.contains_key(0x02) == p.message_expiry_interval is Some,
        p@.scalars.contains_key(0x11) == p.session_expiry_interval is Some,
        p@.scalars.contains_key(0x18) == p.will_delay_interval is Some,
        p@.scalars.contains_key(0x27) == p.maximum_packet_size is Some,
        p@.scalars.contains_key(0x03) == p.content_type is Some,
        p@.scalars.contains_key(0x08) == p.response_topic is Some,
        p@.scalars.contains_key(0x12) == p.assigned_client_identifier is Some,
        p@.scalars.contains_key(0x15) == p.authentication_method is Some,
        p@.scalars.contains_key(0x1A) == p.response_information is Some,
        p@.scalars.contains_key(0x1C) == p.server_reference is Some,
        p@.scalars.contains_key(0x1F) == p.reason_string is Some,
        p@.scalars.contains_key(0x09) == p.correlation_data is Some,
        p@.scalars.contains_key(0x16) == p.authentication_data is Some,
{
}

/// The two lists stand in the view as they are, and nothing else does.
pub proof fn views_hold_the_lists(p: Properties, id: u8)
    ensures
        p@.subscription_identifiers == p.subscription_identifiers@,
        p@.user_properties.len() == p.user_properties@.len(),
        forall|i: int|
            0 <= i < p.user_properties@.len() ==> (#[trigger] p@.user_properties[i]).0 == (
            *p.user_properties@[i].0)@ && p@.user_properties[i].1 == (*p.user_properties@[i].1)@,
        id == 0 || 0x04 <= id <= 0x07 || 0x0A <= id <= 0x10 || id == 0x14 || id == 0x1B || id
            == 0x1D || id == 0x1E || id == 0x20 || id == 0x26 || id > 0x2A
            ==> !p@.scalars.contains_key(id),
{
}

// ----------------------------------------------------------------------------
// Reading one property
// ----------------------------------------------------------------------------

/// An identifier that no property has is an error that names it.
pub proof fn unknown_properties_are_refused(id: u8, rest: Seq<u8>, m: PropertiesView)
    requires
        id == 0 || 0x04 <= id <= 0x07 || id == 0x0A || 0x0C <= id <= 0x10 || id == 0x14 || id
            == 0x1B || id == 0x1D || id == 0x1E || id == 0x20 || id > 0x2A,
    ensures
        properties::take_properties(seq![id] + rest, m) == Err::<PropertiesView, MqttError>(
            MqttError::Protocol(Violation::UnknownProperty(id)),
        ),
{
    assert((seq![id] + rest)[0] == id);
}

/// A property that occurs a second time is an error that names it, unless it is
/// a Subscription Identifier or a User Property.
pub proof fn repeated_properties_are_refused(id: u8, rest: Seq<u8>, m: PropertiesView)
    requires
        m.scalars.contains_key(id),
        1 <= id <= 3 || 8 <= id <= 9 || 0x11 <= id <= 0x13 || 0x15 <= id <= 0x1A || id == 0x1C
            || id == 0x1F || 0x21 <= id <= 0x25 || 0x27 <= id <= 0x2A,
    ensures
        properties::take_properties(seq![id] + rest, m) == Err::<PropertiesView, MqttError>(
            MqttError::Protocol(Violation::DuplicateProperty(id)),
        ),
{
    assert((seq![id] + rest)[0] == id);
}

/// A property with a one-byte value.
pub proof fn byte_properties_are_read(id: u8, v: u8, rest: Seq<u8>, m: PropertiesView)
    requires
        id == 0x01 || id == 0x17 || id == 0x19 || id == 0x24 || id == 0x25 || id == 0x28 || id
            == 0x29 || id == 0x2A,
        !m.scalars.contains_key(id),
    ensures
        properties::take_properties(seq![id, v] + rest, m) == properties::take_properties(
            rest,
            (PropertiesView { scalars: m.scalars.insert(id, PropertyValue::Byte(v)), ..m }),
        ),
{
    let s = seq![id, v] + rest;
    assert(s[0] == id);
    assert(s.skip(1)[0] == v);
    assert(s.skip(1).skip(1) =~= rest);
}

/// A property with a two-byte value.
pub proof fn two_byte_properties_are_read(
    id: u8,
    a: u8,
    b: u8,
    v: u16,
    rest: Seq<u8>,
    m: PropertiesView,
)
    requires
        id == 0x13 || id == 0x21 || id == 0x22 || id == 0x23,
        v == a * 256 + b,
        !m.scalars.contains_key(id),
    ensures
        properties::take_properties(seq![id, a, b] + rest, m) == properties::take_properties(
            rest,
            (PropertiesView { scalars: m.scalars.insert(id, PropertyValue::TwoByte(v)), ..m }),
        ),
{
    let s = seq![id, a, b] + rest;
    assert(s[0] == id);
    assert(s.skip(1) =~= seq![a, b] + rest);
    wire::numbers_are_big_endian(v, 0, a, b, 0, 0, rest);
}

/// A property with a four-byte value.
pub proof fn four_byte_properties_are_read(
    id: u8,
    a: u8,
    b: u8,
    c: u8,
    d: u8,
    v: u32,
    rest: Seq<u8>,
    m: PropertiesView,
)
    requires
        id == 0x02 || id == 0x11 || id == 0x18 || id == 0x27,
        v == a * 0x100_0000 + b * 0x1_0000 + c * 256 + d,
        !m.scalars.contains_key(id),
    ensures
        properties::take_properties(seq![id, a, b, c, d] + rest, m) == properties::take_properties(
            rest,
            (PropertiesView { scalars: m.scalars.insert(id, PropertyValue::FourByte(v)), ..m }),
        ),
{
    let s = seq![id, a, b, c, d] + rest;
    assert(s[0] == id);
    assert(s.skip(1) =~= seq![a, b, c, d] + rest);
    wire::numbers_are_big_endian(0, v, a, b, c, d, rest);
}

/// A property with text, which must not hold the null character.
pub proof fn text_properties_are_read(id: u8, v: Seq<char>, rest: Seq<u8>, m: PropertiesView)
    requires
        id == 0x03 || id == 0x08 || id == 0x12 || id == 0x15 || id == 0x1A || id == 0x1C || id
            == 0x1F,
        encode_utf8(v).len() <= 65535,
        !m.scalars.contains_key(id),
    ensures
        ({
            let got = properties::take_properties(
                seq![id] + (wire::prefixed_text(v) + rest),
                m,
            );
            if v.contains('\0') {
                got == Err::<PropertiesView, MqttError>(
                    MqttError::Protocol(Violation::Utf8NullCharacter),
                )
            } else {
                got == properties::take_properties(
                    rest,
                    (PropertiesView { scalars: m.scalars.insert(id, PropertyValue::Text(v)), ..m }),
                )
            }
        }),
{
    let s = seq![id] + (wire::prefixed_text(v) + rest);
    assert(s[0] == id);
    assert(s.skip(1) =~= wire::prefixed_text(v) + rest);
    wire::text_round_trip(v, rest);
}

/// A property with binary data.
pub proof fn binary_properties_are_read(id: u8, v: Seq<u8>, rest: Seq<u8>, m: PropertiesView)
    requires
        id == 0x09 || id == 0x16,
        v.len() <= 65535,
        !m.scalars.contains_key(id),
    ensures
        properties::take_properties(seq![id] + (wire::prefixed(v) + rest), m)
            == properties::take_properties(
            rest,
            (PropertiesView { scalars: m.scalars.insert(id, PropertyValue::Binary(v)), ..m }),
        ),
{
    let s = seq![id] + (wire::prefixed(v) + rest);
    assert(s[0] == id);
    assert(s.skip(1) =~= wire::prefixed(v) + rest);
    wire::prefixed_round_trip(v, rest);
}

/// A Subscription Identifier is added to those before it.
pub proof fn subscription_identifiers_are_read(n: u32, rest: Seq<u8>, m: PropertiesView)
    requires
        n <= 268_435_455,
    ensures
        properties::take_properties(seq![0x0Bu8] + (wire::vbi_bytes(n as nat) + rest), m)
            == properties::take_properties(
            rest,
            (PropertiesView { subscription_identifiers: m.subscription_identifiers.push(n), ..m }),
        ),
{
    let s = seq![0x0Bu8] + (wire::vbi_bytes(n as nat) + rest);
    assert(s[0] == 0x0B);
    assert(s.skip(1) =~= wire::vbi_bytes(n as nat) + rest);
    wire::vbi_round_trip(n as nat, rest);
}

/// A User Property, key before value, is added to those before it.
pub proof fn user_properties_are_read(
    key: Seq<char>,
    value: Seq<char>,
    rest: Seq<u8>,
    m: PropertiesView,
)
    requires
        encode_utf8(key).len() <= 65535,
        encode_utf8(value).len() <= 65535,
        !key.contains('\0'),
        !value.contains('\0'),
    ensures
        properties::take_properties(
            seq![0x26u8] + (wire::prefixed_text(key) + (wire::prefixed_text(value) + rest)),
            m,
        ) == properties::take_properties(
            rest,
            (PropertiesView { user_properties: m.user_properties.push((key, value)), ..m }),
        ),
{
    let after = wire::prefixed_text(value) + rest;
    let s = seq![0x26u8] + (wire::prefixed_text(key) + after);
    assert(s[0] == 0x26);
    assert(s.skip(1) =~= wire::prefixed_text(key) + after);
    wire::text_round_trip(key, after);
    wire::text_round_trip(value, rest);
}

// ----------------------------------------------------------------------------
// Blocks
// ----------------------------------------------------------------------------

/// A block is its byte length and its properties; what they come to is checked,
/// and what follows them is left.
pub proof fn blocks_are_read_whole(body: Seq<u8>, rest: Seq<u8>)
    requires
        body.len() <= 268_435_455,
    ensures
        properties::take_properties(Seq::empty(), PropertiesView::empty()) == Ok::<
            PropertiesView,
            MqttError,
        >(PropertiesView::empty()),
        properties::take_block(wire::vbi_bytes(body.len()) + (body + rest)) == (
        match properties::take_properties(body, PropertiesView::empty()) {
            Err(e) => Err(e),
            Ok(m) => match properties::value_error(m) {
                Err(e) => Err(e),
                Ok(_) => Ok::<(PropertiesView, Seq<u8>), MqttError>((m, rest)),
            },
        }),
{
    reveal(properties::take_block);
    wire::vbi_round_trip(body.len(), body + rest);
    assert((body + rest).take(body.len() as int) =~= body);
    assert((body + rest).skip(body.len() as int) =~= rest);
}

proof fn flags_are_checked(m: PropertiesView, id: int)
    requires
        0 <= id <= 0x2B,
    ensures
        properties::bad_flag(m, id) is None <==> forall|k: u8|
            id <= k < 0x2B && #[trigger] m.scalars.contains_key(k) ==> (
            m.scalars[k] matches PropertyValue::Byte(v) ==> v <= 1),
    decreases 0x2B - id,
{
    if id < 0x2B {
        flags_are_checked(m, id + 1);
        if properties::bad_flag(m, id) is Some && properties::bad_flag(m, id + 1) is Some {
            let k = choose|k: u8|
                id + 1 <= k < 0x2B && #[trigger] m.scalars.contains_key(k) && !(
                m.scalars[k] matches PropertyValue::Byte(v) ==> v <= 1);
            assert(m.scalars.contains_key(k));
        } else if properties::bad_flag(m, id) is Some {
            assert(m.scalars.contains_key(id as u8));
        }
    }
}

/// Which blocks are in order: flags are 0 or 1; Receive Maximum, Topic Alias and
/// Maximum Packet Size are not 0; Subscription Identifiers are in range;
/// Authentication Data comes with a method; the Response Topic is a topic name.
pub proof fn blocks_are_checked(m: PropertiesView)
    requires
        properties::well_typed(m),
    ensures
        properties::value_error(m) is Ok <==> {
            &&& forall|k: u8|
                k < 0x2B && #[trigger] m.scalars.contains_key(k) ==> (
                m.scalars[k] matches PropertyValue::Byte(v) ==> v <= 1)
            &&& !m.scalars.contains_pair(0x21, PropertyValue::TwoByte(0))
            &&& !m.scalars.contains_pair(0x23, PropertyValue::TwoByte(0))
            &&& !m.scalars.contains_pair(0x27, PropertyValue::FourByte(0))
            &&& forall|i: int|
                0 <= i < m.subscription_identifiers.len() ==> 1
                    <= #[trigger] m.subscription_identifiers[i] <= 268_435_455
            &&& m.scalars.contains_key(0x16) ==> m.scalars.contains_key(0x15)
            &&& m.scalars.contains_key(0x08) ==> (
            m.scalars[0x08] matches PropertyValue::Text(t) ==> topic::refusal(
                topic::publish_topic_violation(t),
            ) is Ok)
        },
{
    flags_are_checked(m, 0);
    let ids = m.subscription_identifiers;
    if exists|i: int| 0 <= i < ids.len() && #[trigger] properties::bad_identifier(ids[i]) {
        let i = choose|i: int| 0 <= i < ids.len() && #[trigger] properties::bad_identifier(ids[i]);
        assert(!(1 <= ids[i] <= 268_435_455));
    } else {
        assert forall|i: int| 0 <= i < ids.len() implies 1 <= #[trigger] ids[i] <= 268_435_455 by {
            assert(!properties::bad_identifier(ids[i]));
        }
    }
}

proof fn users_are_checked(v: Seq<(Seq<char>, Seq<char>)>)
    ensures
        properties::user_error(v) is Ok <==> forall|i: int|
            0 <= i < v.len() ==> properties::pair_error(#[trigger] v[i]) is Ok,
    decreases v.len(),
{
    if v.len() > 0 {
        let tail = v.skip(1);
        users_are_checked(tail);
        if properties::user_error(v) is Ok {
            assert forall|i: int| 0 <= i < v.len() implies properties::pair_error(
                #[trigger] v[i],
            ) is Ok by {
                if i > 0 {
                    assert(v[i] == tail[i - 1]);
                }
            }
        } else if properties::pair_error(v[0]) is Ok {
            let i = choose|i: int|
                0 <= i < tail.len() && properties::pair_error(#[trigger] tail[i]) is Err;
            assert(v[i + 1] == tail[i]);
        }
    }
}

proof fn values_are_checked(m: PropertiesView, id: int)
    requires
        0 <= id <= 0x2B,
    ensures
        properties::values_error(m, id) is Ok <==> forall|k: u8|
            id <= k < 0x2B ==> (#[trigger] properties::segment_error(m, k)) is Ok,
    decreases 0x2B - id,
{
    if id < 0x2B {
        values_are_checked(m, id + 1);
        let k0 = id as u8;
        if properties::values_error(m, id) is Err && properties::segment_error(m, k0) is Ok {
            let k = choose|k: u8|
                id + 1 <= k < 0x2B && (#[trigger] properties::segment_error(m, k)) is Err;
            assert(properties::segment_error(m, k) is Err);
        }
    }
}

/// A block has an encoding exactly when its values are in order, its texts and
/// binary data fit a two-byte length, its texts hold no null character, and all
/// of it fits the length of a block.
pub proof fn blocks_in_order_are_written(m: PropertiesView)
    requires
        properties::well_typed(m),
    ensures
        properties::block_bytes(m) is Ok <==> {
            &&& properties::value_error(m) is Ok
            &&& forall|k: u8| #[trigger]
                m.scalars.contains_key(k) ==> match m.scalars[k] {
                    PropertyValue::Text(c) => !c.contains('\0') && encode_utf8(c).len() <= 65535,
                    PropertyValue::Binary(b) => b.len() <= 65535,
                    _ => true,
                }
            &&& forall|i: int|
                0 <= i < m.user_properties.len() ==> {
                    let (key, value) = #[trigger] m.user_properties[i];
                    &&& !key.contains('\0') && encode_utf8(key).len() <= 65535
                    &&& !value.contains('\0') && encode_utf8(value).len() <= 65535
                }
            &&& properties::values_from(m, 0).len() <= 268_435_455
        },
        properties::block_bytes(m) matches Ok(b) ==> b == wire::vbi_bytes(
            properties::values_from(m, 0).len(),
        ) + properties::values_from(m, 0),
{
    reveal(properties::block_bytes);
    values_are_checked(m, 0);
    users_are_checked(m.user_properties);
    let texts = forall|k: u8| #[trigger]
        m.scalars.contains_key(k) ==> match m.scalars[k] {
            PropertyValue::Text(c) => !c.contains('\0') && encode_utf8(c).len() <= 65535,
            PropertyValue::Binary(b) => b.len() <= 65535,
            _ => true,
        };
    let users = forall|i: int|
        0 <= i < m.user_properties.len() ==> {
            let (key, value) = #[trigger] m.user_properties[i];
            &&& !key.contains('\0') && encode_utf8(key).len() <= 65535
            &&& !value.contains('\0') && encode_utf8(value).len() <= 65535
        };
    if properties::values_error(m, 0) is Ok {
        assert forall|k: u8| #[trigger] m.scalars.contains_key(k) implies match m.scalars[k] {
            PropertyValue::Text(c) => !c.contains('\0') && encode_utf8(c).len() <= 65535,
            PropertyValue::Binary(b) => b.len() <= 65535,
            _ => true,
        } by {
            assert(properties::property_kind(k) is Some);
            assert(properties::segment_error(m, k) is Ok);
        }
        assert(properties::segment_error(m, 0x26) is Ok);
        assert forall|i: int| 0 <= i < m.user_properties.len() implies {
            let (key, value) = #[trigger] m.user_properties[i];
            &&& !key.contains('\0') && encode_utf8(key).len() <= 65535
            &&& !value.contains('\0') && encode_utf8(value).len() <= 65535
        } by {
            assert(properties::pair_error(m.user_properties[i]) is Ok);
        }
    }
    if texts && users {
        assert forall|i: int| 0 <= i < m.user_properties.len() implies properties::pair_error(
            #[trigger] m.user_properties[i],
        ) is Ok by {
            let (key, value) = m.user_properties[i];
        }
        assert forall|k: u8| 0 <= k < 0x2B implies (#[trigger] properties::segment_error(m, k)) is Ok by {
            if m.scalars.contains_key(k) {}
        }
    }
}

/// Properties are written by ascending identifier, each as its identifier and its
/// value.
pub proof fn properties_are_written_in_order(m: PropertiesView, id: int)
    requires
        0 <= id < 0x2B,
    ensures
        properties::values_from(m, 0x2B) == Seq::<u8>::empty(),
        id != 0x0B && id != 0x26 && !m.scalars.contains_key(id as u8) ==> properties::values_from(
            m,
            id,
        ) == properties::values_from(m, id + 1),
        id != 0x0B && id != 0x26 && m.scalars.contains_key(id as u8) ==> properties::values_from(
            m,
            id,
        ) == seq![id as u8] + (match m.scalars[id as u8] {
            PropertyValue::Byte(v) => seq![v],
            PropertyValue::TwoByte(v) => seq![(v / 256) as u8, (v % 256) as u8],
            PropertyValue::FourByte(v) => wire::u32_bytes(v),
            PropertyValue::Text(v) => wire::prefixed_text(v),
            PropertyValue::Binary(v) => wire::prefixed(v),
            PropertyValue::VarInt(v) => wire::vbi_bytes(v as nat),
            PropertyValue::Pair(k, v) => wire::prefixed_text(k) + wire::prefixed_text(v),
        }) + properties::values_from(m, id + 1),
        properties::values_from(m, 0x0B) == properties::identifier_bytes(
            m.subscription_identifiers,
        ) + properties::values_from(m, 0x0C),
        properties::values_from(m, 0x26) == properties::user_bytes(m.user_properties)
            + properties::values_from(m, 0x27),
{
    let none = Seq::<u8>::empty();
    let rest = properties::values_from(m, id + 1);
    assert(none + rest =~= rest);
}

/// Repeated properties are written one after the other, in their order.
pub proof fn repeated_properties_are_written_in_order(
    n: u32,
    ids: Seq<u32>,
    key: Seq<char>,
    value: Seq<char>,
    pairs: Seq<(Seq<char>, Seq<char>)>,
)
    ensures
        properties::identifier_bytes(Seq::empty()) == Seq::<u8>::empty(),
        properties::identifier_bytes(seq![n] + ids) == seq![0x0Bu8] + wire::vbi_bytes(n as nat)
            + properties::identifier_bytes(ids),
        properties::user_bytes(Seq::empty()) == Seq::<u8>::empty(),
        properties::user_bytes(seq![(key, value)] + pairs) == seq![0x26u8] + (wire::prefixed_text(
            key,
        ) + wire::prefixed_text(value)) + properties::user_bytes(pairs),
{
    assert((seq![n] + ids).skip(1) =~= ids);
    assert((seq![(key, value)] + pairs).skip(1) =~= pairs);
}

/// A value that is out of order is named in the error, when it is the only one.
pub proof fn broken_values_are_named(m: PropertiesView)
    requires
        properties::well_typed(m),
        forall|k: u8|
            k < 0x2B && #[trigger] m.scalars.contains_key(k) ==> (
            m.scalars[k] matches PropertyValue::Byte(v) ==> v <= 1),
    ensures
        ({
            let receive = m.scalars.contains_pair(0x21, PropertyValue::TwoByte(0));
            let alias = m.scalars.contains_pair(0x23, PropertyValue::TwoByte(0));
            let size = m.scalars.contains_pair(0x27, PropertyValue::FourByte(0));
            let got = properties::value_error(m);
            &&& receive ==> got == Err::<(), MqttError>(
                MqttError::Protocol(Violation::MalformedProperty(0x21)),
            )
            &&& alias && !receive ==> got == Err::<(), MqttError>(
                MqttError::Protocol(Violation::MalformedProperty(0x23)),
            )
            &&& size && !receive && !alias ==> got == Err::<(), MqttError>(
                MqttError::Protocol(Violation::MalformedProperty(0x27)),
            )
            &&& !receive && !alias && !size && !(forall|i: int|
                0 <= i < m.subscription_identifiers.len() ==> 1
                    <= #[trigger] m.subscription_identifiers[i] <= 268_435_455) ==> got == Err::<
                (),
                MqttError,
            >(MqttError::Protocol(Violation::MalformedProperty(0x0B)))
            &&& !receive && !alias && !size && (forall|i: int|
                0 <= i < m.subscription_identifiers.len() ==> 1
                    <= #[trigger] m.subscription_identifiers[i] <= 268_435_455)
                && m.scalars.contains_key(0x16) && !m.scalars.contains_key(0x15) ==> got == Err::<
                (),
                MqttError,
            >(MqttError::Protocol(Violation::MalformedProperty(0x16)))
        }),
{
    flags_are_checked(m, 0);
    let ids = m.subscription_identifiers;
    if exists|i: int| 0 <= i < ids.len() && #[trigger] properties::bad_identifier(ids[i]) {
        let i = choose|i: int| 0 <= i < ids.len() && #[trigger] properties::bad_identifier(ids[i]);
        assert(!(1 <= ids[i] <= 268_435_455));
    } else {
        assert forall|i: int| 0 <= i < ids.len() implies 1 <= #[trigger] ids[i] <= 268_435_455 by {
            assert(!properties::bad_identifier(ids[i]));
        }
    }
}

proof fn first_bad_flag(m: PropertiesView, id: int, k: u8)
    requires
        0 <= id <= k < 0x2B,
        m.scalars.contains_key(k),
        m.scalars[k] matches PropertyValue::Byte(v) && v > 1,
        forall|j: u8|
            id <= j < k && #[trigger] m.scalars.contains_key(j) ==> (
            m.scalars[j] matches PropertyValue::Byte(v) ==> v <= 1),
    ensures
        properties::bad_flag(m, id) == Some(k),
    decreases k - id,
{
    if id < k {
        assert(m.scalars.contains_key(id as u8) ==> (
        m.scalars[id as u8] matches PropertyValue::Byte(v) ==> v <= 1));
        first_bad_flag(m, id + 1, k);
    }
}

/// Of the flags that are neither 0 nor 1 the one with the lowest identifier is
/// named, before anything else is checked.
pub proof fn broken_flags_are_named(m: PropertiesView, k: u8)
    requires
        k < 0x2B,
        m.scalars.contains_key(k),
        m.scalars[k] matches PropertyValue::Byte(v) && v > 1,
        forall|j: u8|
            j < k && #[trigger] m.scalars.contains_key(j) ==> (
            m.scalars[j] matches PropertyValue::Byte(v) ==> v <= 1),
    ensures
        properties::value_error(m) == Err::<(), MqttError>(
            MqttError::Protocol(Violation::MalformedProperty(k)),
        ),
{
    first_bad_flag(m, 0, k);
}

} // verus!
