//! User-facing request and response types, and the data types they share.
//!
//! The three operations of a client (publish, subscribe, unsubscribe) are the
//! variants of `MqttRequest`; what comes back is an `MqttResponse`.

use std::sync::Arc;

use bytes::Bytes;
use vstd::prelude::*;

use crate::buffers;
use crate::packet::{PublishView, WillView};
use crate::properties::{Properties, PropertiesView};
use crate::wire;

verus! {

/// MQTT Quality of Service level.
#[derive(Debug, Clone, Copy, PartialEq, Eq, PartialOrd, Ord, Structural)]
pub enum QoS {
    AtMostOnce,
    AtLeastOnce,
    ExactlyOnce,
}

/// The number that stands for a QoS level on the wire.
pub open spec fn qos_number(q: QoS) -> u8 {
    match q {
        QoS::AtMostOnce => 0,
        QoS::AtLeastOnce => 1,
        QoS::ExactlyOnce => 2,
    }
}

/// The QoS level that a number stands for.
pub open spec fn qos_from(v: u8) -> Option<QoS> {
    if v == 0 {
        Some(QoS::AtMostOnce)
    } else if v == 1 {
        Some(QoS::AtLeastOnce)
    } else if v == 2 {
        Some(QoS::ExactlyOnce)
    } else {
        None
    }
}

/// The lower of two QoS levels.
pub open spec fn qos_min(a: QoS, b: QoS) -> QoS {
    if qos_number(a) <= qos_number(b) {
        a
    } else {
        b
    }
}

impl QoS {
    pub fn as_u8(self) -> (r: u8)
        ensures
            r == qos_number(self),
    {
        match self {
            QoS::AtMostOnce => 0,
            QoS::AtLeastOnce => 1,
            QoS::ExactlyOnce => 2,
        }
    }

    pub fn from_u8(v: u8) -> (r: Option<Self>)
        ensures
            r == qos_from(v),
    {
        match v {
            0 => Some(QoS::AtMostOnce),
            1 => Some(QoS::AtLeastOnce),
            2 => Some(QoS::ExactlyOnce),
            _ => None,
        }
    }

    /// The lower of two levels, which is what a subscriber is served at.
    pub fn lower(self, other: QoS) -> (r: QoS)
        ensures
            r == qos_min(self, other),
    {
        if self.as_u8() <= other.as_u8() {
            self
        } else {
            other
        }
    }
}

/// Packet identifier as it stands on the wire.
pub type PacketId = u16;

// ----------------------------------------------------------------------------
// Requests and responses
// ----------------------------------------------------------------------------

#[derive(Debug, Clone)]
pub enum MqttRequest {
    Publish(PublishRequest),
    Subscribe(Vec<TopicFilter>),
    Unsubscribe(Vec<Arc<str>>),
}

#[derive(Debug, Clone)]
pub enum MqttResponse {
    Published(PublishAck),
    Subscribed(Vec<SubackCode>),
    Unsubscribed,
}

// ----------------------------------------------------------------------------
// Publishing
// ----------------------------------------------------------------------------

/// What the user constructs to publish.
#[derive(Debug)]
pub struct PublishRequest {
    pub topic: Arc<str>,
    pub payload: Bytes,
    pub qos: QoS,
    pub retain: bool,
}

impl PublishRequest {
    /// The PUBLISH contents of the request, sent under `packet_id`.
    pub open spec fn publish(self, packet_id: Option<PacketId>) -> PublishView {
        PublishView {
            properties: PropertiesView::empty(),
            topic: wire::text(self.topic),
            payload: buffers::payload(self.payload),
            dup: false,
            qos: self.qos,
            retain: self.retain,
            packet_id,
        }
    }
}

impl Default for PublishRequest {
    fn default() -> (r: Self)
        ensures
            wire::text(r.topic) == ""@,
            buffers::payload(r.payload) == Seq::<u8>::empty(),
            r.qos == QoS::AtMostOnce,
            !r.retain,
    {
        let none: Vec<u8> = Vec::new();
        let payload = buffers::copy_bytes(none.as_slice());
        PublishRequest {
            topic: wire::shared_text(""),
            payload,
            qos: QoS::AtMostOnce,
            retain: false,
        }
    }
}

impl Clone for PublishRequest {
    fn clone(&self) -> (r: Self)
        ensures
            r.publish(None) == self.publish(None),
    {
        PublishRequest {
            topic: self.topic.clone(),
            payload: buffers::share_bytes(&self.payload),
            qos: self.qos,
            retain: self.retain,
        }
    }
}

/// What the user receives from an inbound PUBLISH, on either side.
#[derive(Debug)]
pub struct IncomingPublish {
    /// MQTT 5 properties received with the publish.
    pub properties: Properties,
    pub topic: Arc<str>,
    pub payload: Bytes,
    pub qos: QoS,
    pub retain: bool,
    pub dup: bool,
    pub packet_id: Option<PacketId>,
}

impl View for IncomingPublish {
    type V = PublishView;

    open spec fn view(&self) -> PublishView {
        PublishView {
            properties: self.properties@,
            topic: wire::text(self.topic),
            payload: buffers::payload(self.payload),
            dup: self.dup,
            qos: self.qos,
            retain: self.retain,
            packet_id: self.packet_id,
        }
    }
}

impl Clone for IncomingPublish {
    fn clone(&self) -> (r: Self)
        ensures
            r@ == self@,
    {
        IncomingPublish {
            properties: self.properties.clone(),
            topic: self.topic.clone(),
            payload: buffers::share_bytes(&self.payload),
            qos: self.qos,
            retain: self.retain,
            dup: self.dup,
            packet_id: self.packet_id,
        }
    }
}

impl IncomingPublish {
    pub fn topic(&self) -> (r: &str)
        ensures
            r@ == self@.topic,
    {
        &*self.topic
    }

    pub fn payload(&self) -> (r: &[u8])
        ensures
            r@ == self@.payload,
    {
        buffers::bytes_slice(&self.payload)
    }
}

/// What a finished PUBLISH operation returns.
#[derive(Debug, Clone, Copy, PartialEq, Eq, Structural)]
pub enum PublishAck {
    /// QoS 0: sent on the wire, no acknowledgement expected.
    Sent,
    /// QoS 1: PUBACK received from the peer.
    Acknowledged(PacketId),
    /// QoS 2: the PUBREC, PUBREL, PUBCOMP handshake has completed.
    Completed(PacketId),
}

// ----------------------------------------------------------------------------
// Subscribing
// ----------------------------------------------------------------------------

#[derive(Debug)]
pub struct TopicFilter {
    pub filter: Arc<str>,
    pub qos: QoS,
}

impl View for TopicFilter {
    type V = (Seq<char>, QoS);

    open spec fn view(&self) -> (Seq<char>, QoS) {
        (wire::text(self.filter), self.qos)
    }
}

impl TopicFilter {
    pub fn new(filter: &str, qos: QoS) -> (r: Self)
        ensures
            r@ == (filter@, qos),
    {
        TopicFilter { filter: wire::shared_text(filter), qos }
    }
}

impl Clone for TopicFilter {
    fn clone(&self) -> (r: Self)
        ensures
            r == *self,
    {
        TopicFilter { filter: self.filter.clone(), qos: self.qos }
    }
}

#[derive(Debug, Clone, Copy, PartialEq, Eq, Structural)]
pub enum SubackCode {
    Granted(QoS),
    Failure,
}

/// The byte that stands for a SUBACK code.
pub open spec fn suback_number(c: SubackCode) -> u8 {
    match c {
        SubackCode::Granted(q) => qos_number(q),
        SubackCode::Failure => 0x80,
    }
}

/// The SUBACK code that a byte stands for.
pub open spec fn suback_from(v: u8) -> Option<SubackCode> {
    if v == 0x80 {
        Some(SubackCode::Failure)
    } else {
        match qos_from(v) {
            Some(q) => Some(SubackCode::Granted(q)),
            None => None,
        }
    }
}

impl SubackCode {
    pub fn as_u8(self) -> (r: u8)
        ensures
            r == suback_number(self),
    {
        match self {
            SubackCode::Granted(q) => q.as_u8(),
            SubackCode::Failure => 0x80,
        }
    }

    pub fn from_u8(v: u8) -> (r: Option<Self>)
        ensures
            r == suback_from(v),
    {
        match v {
            0 => Some(SubackCode::Granted(QoS::AtMostOnce)),
            1 => Some(SubackCode::Granted(QoS::AtLeastOnce)),
            2 => Some(SubackCode::Granted(QoS::ExactlyOnce)),
            0x80 => Some(SubackCode::Failure),
            _ => None,
        }
    }
}

// ----------------------------------------------------------------------------
// Connecting
// ----------------------------------------------------------------------------

/// User name and password sent with CONNECT.
#[derive(Debug)]
pub struct Credentials {
    pub username: Arc<str>,
    pub password: Bytes,
}

impl View for Credentials {
    type V = (Seq<char>, Seq<u8>);

    open spec fn view(&self) -> (Seq<char>, Seq<u8>) {
        (wire::text(self.username), buffers::payload(self.password))
    }
}

impl Credentials {
    pub fn new(username: &str, password: Bytes) -> (r: Self)
        ensures
            r@ == (username@, buffers::payload(password)),
    {
        Credentials { username: wire::shared_text(username), password }
    }
}

impl Clone for Credentials {
    fn clone(&self) -> (r: Self)
        ensures
            r@ == self@,
    {
        Credentials {
            username: self.username.clone(),
            password: buffers::share_bytes(&self.password),
        }
    }
}

/// Last Will and Testament: published by the broker when the client goes away
/// without saying so.
#[derive(Debug)]
pub struct WillMessage {
    pub topic: Arc<str>,
    pub payload: Bytes,
    pub qos: QoS,
    pub retain: bool,
}

impl View for WillMessage {
    type V = WillView;

    open spec fn view(&self) -> WillView {
        WillView {
            properties: PropertiesView::empty(),
            topic: wire::text(self.topic),
            payload: buffers::payload(self.payload),
            qos: self.qos,
            retain: self.retain,
        }
    }
}

impl WillMessage {
    pub fn new(topic: &str, payload: Bytes, qos: QoS, retain: bool) -> (r: Self)
        ensures
            r@ == (WillView {
                properties: PropertiesView::empty(),
                topic: topic@,
                payload: buffers::payload(payload),
                qos,
                retain,
            }),
    {
        WillMessage { topic: wire::shared_text(topic), payload, qos, retain }
    }
}

impl Clone for WillMessage {
    fn clone(&self) -> (r: Self)
        ensures
            r@ == self@,
    {
        WillMessage {
            topic: self.topic.clone(),
            payload: buffers::share_bytes(&self.payload),
            qos: self.qos,
            retain: self.retain,
        }
    }
}

// ----------------------------------------------------------------------------
// Laws
// ----------------------------------------------------------------------------

/// The number of a QoS level stands for that level and for no other.
pub proof fn qos_numbers_round_trip(q: QoS, v: u8)
    ensures
        qos_from(qos_number(q)) == Some(q),
        qos_from(v) matches Some(p) ==> qos_number(p) == v,
{
}

/// The byte of a SUBACK code stands for that code and for no other.
pub proof fn suback_numbers_round_trip(c: SubackCode, v: u8)
    ensures
        suback_from(suback_number(c)) == Some(c),
        suback_from(v) matches Some(d) ==> suback_number(d) == v,
{
}

/// The QoS levels have the numbers 0, 1 and 2, and a SUBACK that refuses has
/// 0x80; no other number stands for anything.
pub proof fn levels_have_fixed_numbers(v: u8)
    ensures
        qos_number(QoS::AtMostOnce) == 0,
        qos_number(QoS::AtLeastOnce) == 1,
        qos_number(QoS::ExactlyOnce) == 2,
        v > 2 ==> qos_from(v) is None,
        v == 0 ==> qos_from(v) == Some(QoS::AtMostOnce),
        v == 1 ==> qos_from(v) == Some(QoS::AtLeastOnce),
        v == 2 ==> qos_from(v) == Some(QoS::ExactlyOnce),
        suback_number(SubackCode::Failure) == 0x80,
        suback_number(SubackCode::Granted(QoS::AtMostOnce)) == 0,
        suback_number(SubackCode::Granted(QoS::AtLeastOnce)) == 1,
        suback_number(SubackCode::Granted(QoS::ExactlyOnce)) == 2,
        v > 2 && v != 0x80 ==> suback_from(v) is None,
        v == 0x80 ==> suback_from(v) == Some(SubackCode::Failure),
        v == 0 ==> suback_from(v) == Some(SubackCode::Granted(QoS::AtMostOnce)),
        v == 1 ==> suback_from(v) == Some(SubackCode::Granted(QoS::AtLeastOnce)),
        v == 2 ==> suback_from(v) == Some(SubackCode::Granted(QoS::ExactlyOnce)),
{
}

/// The lower of two levels is one of the two, and neither is below it.
pub proof fn the_lower_level_is_the_lower(a: QoS, b: QoS)
    ensures
        qos_min(a, b) == a || qos_min(a, b) == b,
        a == QoS::AtMostOnce || b == QoS::AtMostOnce <==> qos_min(a, b) == QoS::AtMostOnce,
        a == QoS::ExactlyOnce && b == QoS::ExactlyOnce <==> qos_min(a, b) == QoS::ExactlyOnce,
{
}

/// The views of requests and messages hold every field.
pub proof fn views_hold_the_fields(
    r: PublishRequest,
    i: IncomingPublish,
    t: TopicFilter,
    c: Credentials,
    w: WillMessage,
    id: Option<PacketId>,
)
    ensures
        r.publish(id).topic == (*r.topic)@,
        r.publish(id).payload == buffers::payload(r.payload),
        r.publish(id).qos == r.qos,
        r.publish(id).retain == r.retain,
        !r.publish(id).dup,
        r.publish(id).packet_id == id,
        r.publish(id).properties == PropertiesView::empty(),
        i@.properties == i.properties@,
        i@.topic == (*i.topic)@,
        i@.payload == buffers::payload(i.payload),
        i@.qos == i.qos,
        i@.retain == i.retain,
        i@.dup == i.dup,
        i@.packet_id == i.packet_id,
        t@.0 == (*t.filter)@,
        t@.1 == t.qos,
        c@.0 == (*c.username)@,
        c@.1 == buffers::payload(c.password),
        w@.properties == PropertiesView::empty(),
        w@.topic == (*w.topic)@,
        w@.payload == buffers::payload(w.payload),
        w@.qos == w.qos,
        w@.retain == w.retain,
{
}

} // verus!
