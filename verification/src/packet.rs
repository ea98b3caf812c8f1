//! MQTT 3.1.1 and MQTT 5 wire packet types.
//!
//! Payload bytes are `Bytes` and topics are `Arc<str>`, so that handing a
//! message to many subscribers shares them. Encoding and decoding live in
//! `codec`; this module holds the data definitions and their views.

use std::sync::Arc;

use bytes::Bytes;
use vstd::prelude::*;

use crate::buffers;
use crate::properties::{Properties, PropertiesView};
use crate::request::{PacketId, QoS, SubackCode};
use crate::wire;

verus! {

#[derive(Debug)]
pub enum Packet {
    Connect(Box<ConnectPacket>),
    Connack(ConnackPacket),
    Publish(PublishPacket),
    Puback(PacketId),
    Pubrec(PacketId),
    Pubrel(PacketId),
    Pubcomp(PacketId),
    Subscribe(SubscribePacket),
    Suback(SubackPacket),
    Unsubscribe(UnsubscribePacket),
    Unsuback(UnsubackPacket),
    Pingreq,
    Pingresp,
    Disconnect,
}

#[derive(Debug)]
pub struct PublishPacket {
    /// MQTT 5 properties. Ignored on MQTT 3.1.1 connections.
    pub properties: Properties,
    pub topic: Arc<str>,
    pub payload: Bytes,
    pub dup: bool,
    pub qos: QoS,
    pub retain: bool,
    pub packet_id: Option<PacketId>,
}

#[derive(Debug)]
pub struct ConnectPacket {
    /// The wire version that this CONNECT advertises.
    pub version: ProtocolVersion,
    /// MQTT 5 CONNECT properties. Ignored for MQTT 3.1.1.
    pub properties: Properties,
    pub client_id: Arc<str>,
    pub clean_session: bool,
    pub keep_alive: u16,
    pub username: Option<Arc<str>>,
    pub password: Option<Bytes>,
    pub will: Option<WillPacket>,
}

#[derive(Debug)]
pub struct WillPacket {
    /// MQTT 5 Will properties. Ignored for MQTT 3.1.1.
    pub properties: Properties,
    pub topic: Arc<str>,
    pub payload: Bytes,
    pub qos: QoS,
    pub retain: bool,
}

#[derive(Debug)]
pub struct ConnackPacket {
    /// MQTT 5 CONNACK properties. Ignored for MQTT 3.1.1.
    pub properties: Properties,
    pub session_present: bool,
    pub return_code: ConnackReturnCode,
}

#[derive(Debug)]
pub struct SubscribePacket {
    pub packet_id: PacketId,
    pub subscriptions: Vec<TopicSubscription>,
}

#[derive(Debug)]
pub struct TopicSubscription {
    pub topic: Arc<str>,
    pub qos: QoS,
}

#[derive(Debug)]
pub struct SubackPacket {
    pub packet_id: PacketId,
    pub return_codes: Vec<SubackCode>,
}

#[derive(Debug)]
pub struct UnsubscribePacket {
    pub packet_id: PacketId,
    pub topics: Vec<Arc<str>>,
}

/// Acknowledgement for an UNSUBSCRIBE packet.
#[derive(Debug)]
pub struct UnsubackPacket {
    pub packet_id: PacketId,
    /// MQTT 5 reason codes, one for each requested topic filter.
    /// MQTT 3.1.1 does not put these codes on the wire.
    pub reason_codes: Vec<u8>,
}

/// MQTT wire protocol version negotiated by the CONNECT handshake.
#[derive(Debug, Clone, Copy, PartialEq, Eq, Structural)]
pub enum ProtocolVersion {
    /// MQTT 3.1.1 (CONNECT protocol level 4).
    V311,
    /// MQTT 5.0 (CONNECT protocol level 5).
    V5,
}

/// The fourteen kinds of packet, by the upper half of the first byte.
#[derive(Debug, Clone, Copy, PartialEq, Eq, Structural)]
pub enum PacketType {
    Connect,
    Connack,
    Publish,
    Puback,
    Pubrec,
    Pubrel,
    Pubcomp,
    Subscribe,
    Suback,
    Unsubscribe,
    Unsuback,
    Pingreq,
    Pingresp,
    Disconnect,
}

#[derive(Debug, Clone, Copy, PartialEq, Eq, Structural)]
pub enum ConnackReturnCode {
    Accepted,
    UnacceptableProtocolVersion,
    IdentifierRejected,
    ServerUnavailable,
    BadUsernameOrPassword,
    NotAuthorized,
}

// ----------------------------------------------------------------------------
// Views
// ----------------------------------------------------------------------------

#[verifier::ext_equal]
pub struct PublishView {
    pub properties: PropertiesView,
    pub topic: Seq<char>,
    pub payload: Seq<u8>,
    pub dup: bool,
    pub qos: QoS,
    pub retain: bool,
    pub packet_id: Option<PacketId>,
}

#[verifier::ext_equal]
pub struct WillView {
    pub properties: PropertiesView,
    pub topic: Seq<char>,
    pub payload: Seq<u8>,
    pub qos: QoS,
    pub retain: bool,
}

#[verifier::ext_equal]
pub struct ConnectView {
    pub version: ProtocolVersion,
    pub properties: PropertiesView,
    pub client_id: Seq<char>,
    pub clean_session: bool,
    pub keep_alive: u16,
    pub username: Option<Seq<char>>,
    pub password: Option<Seq<u8>>,
    pub will: Option<WillView>,
}

#[verifier::ext_equal]
pub struct ConnackView {
    pub properties: PropertiesView,
    pub session_present: bool,
    pub return_code: ConnackReturnCode,
}

#[verifier::ext_equal]
pub struct SubscribeView {
    pub packet_id: PacketId,
    pub subscriptions: Seq<(Seq<char>, QoS)>,
}

#[verifier::ext_equal]
pub struct SubackView {
    pub packet_id: PacketId,
    pub return_codes: Seq<SubackCode>,
}

#[verifier::ext_equal]
pub struct UnsubscribeView {
    pub packet_id: PacketId,
    pub topics: Seq<Seq<char>>,
}

#[verifier::ext_equal]
pub struct UnsubackView {
    pub packet_id: PacketId,
    pub reason_codes: Seq<u8>,
}

#[verifier::ext_equal]
pub enum PacketView {
    Connect(ConnectView),
    Connack(ConnackView),
    Publish(PublishView),
    Puback(PacketId),
    Pubrec(PacketId),
    Pubrel(PacketId),
    Pubcomp(PacketId),
    Subscribe(SubscribeView),
    Suback(SubackView),
    Unsubscribe(UnsubscribeView),
    Unsuback(UnsubackView),
    Pingreq,
    Pingresp,
    Disconnect,
}

impl View for PublishPacket {
    type V = PublishView;

    open spec fn view(&self) -> PublishView {
        PublishView {
            properties: self.properties@,
            topic: wire::text(self.topic),
            payload: buffers::payload(self.payload),
            dup: self.dup,
            qos: self.qos,
            retain: self.retain,
            packet_id: self.packet_id,
        }
    }
}

impl View for WillPacket {
    type V = WillView;

    open spec fn view(&self) -> WillView {
        WillView {
            properties: self.properties@,
            topic: wire::text(self.topic),
            payload: buffers::payload(self.payload),
            qos: self.qos,
            retain: self.retain,
        }
    }
}

/// The view of an optional will.
pub open spec fn opt_will(will: Option<WillPacket>) -> Option<WillView> {
    match will {
        Some(w) => Some(w@),
        None => None,
    }
}

impl View for ConnectPacket {
    type V = ConnectView;

    open spec fn view(&self) -> ConnectView {
        ConnectView {
            version: self.version,
            properties: self.properties@,
            client_id: wire::text(self.client_id),
            clean_session: self.clean_session,
            keep_alive: self.keep_alive,
            username: wire::opt_text(self.username),
            password: buffers::opt_payload(self.password),
            will: opt_will(self.will),
        }
    }
}

impl View for ConnackPacket {
    type V = ConnackView;

    open spec fn view(&self) -> ConnackView {
        ConnackView {
            properties: self.properties@,
            session_present: self.session_present,
            return_code: self.return_code,
        }
    }
}

impl View for TopicSubscription {
    type V = (Seq<char>, QoS);

    open spec fn view(&self) -> (Seq<char>, QoS) {
        (wire::text(self.topic), self.qos)
    }
}

/// The views of a list of subscriptions.
pub open spec fn subscription_views(v: Seq<TopicSubscription>) -> Seq<(Seq<char>, QoS)> {
    v.map_values(|s: TopicSubscription| s@)
}

/// The characters of a list of shared strings.
pub open spec fn texts(v: Seq<Arc<str>>) -> Seq<Seq<char>> {
    v.map_values(|s: Arc<str>| wire::text(s))
}

impl View for SubscribePacket {
    type V = SubscribeView;

    open spec fn view(&self) -> SubscribeView {
        SubscribeView {
            packet_id: self.packet_id,
            subscriptions: subscription_views(self.subscriptions@),
        }
    }
}

impl View for SubackPacket {
    type V = SubackView;

    open spec fn view(&self) -> SubackView {
        SubackView { packet_id: self.packet_id, return_codes: self.return_codes@ }
    }
}

impl View for UnsubscribePacket {
    type V = UnsubscribeView;

    open spec fn view(&self) -> UnsubscribeView {
        UnsubscribeView { packet_id: self.packet_id, topics: texts(self.topics@) }
    }
}

impl View for UnsubackPacket {
    type V = UnsubackView;

    open spec fn view(&self) -> UnsubackView {
        UnsubackView { packet_id: self.packet_id, reason_codes: self.reason_codes@ }
    }
}

impl View for Packet {
    type V = PacketView;

    open spec fn view(&self) -> PacketView {
        match self {
            Packet::Connect(c) => PacketView::Connect((*c)@),
            Packet::Connack(c) => PacketView::Connack(c@),
            Packet::Publish(p) => PacketView::Publish(p@),
            Packet::Puback(id) => PacketView::Puback(*id),
            Packet::Pubrec(id) => PacketView::Pubrec(*id),
            Packet::Pubrel(id) => PacketView::Pubrel(*id),
            Packet::Pubcomp(id) => PacketView::Pubcomp(*id),
            Packet::Subscribe(s) => PacketView::Subscribe(s@),
            Packet::Suback(s) => PacketView::Suback(s@),
            Packet::Unsubscribe(u) => PacketView::Unsubscribe(u@),
            Packet::Unsuback(u) => PacketView::Unsuback(u@),
            Packet::Pingreq => PacketView::Pingreq,
            Packet::Pingresp => PacketView::Pingresp,
            Packet::Disconnect => PacketView::Disconnect,
        }
    }
}

/// The name of a packet in error reports.
pub open spec fn packet_name(p: PacketView) -> &'static str {
    match p {
        PacketView::Connect(_) => "CONNECT",
        PacketView::Connack(_) => "CONNACK",
        PacketView::Publish(_) => "PUBLISH",
        PacketView::Puback(_) => "PUBACK",
        PacketView::Pubrec(_) => "PUBREC",
        PacketView::Pubrel(_) => "PUBREL",
        PacketView::Pubcomp(_) => "PUBCOMP",
        PacketView::Subscribe(_) => "SUBSCRIBE",
        PacketView::Suback(_) => "SUBACK",
        PacketView::Unsubscribe(_) => "UNSUBSCRIBE",
        PacketView::Unsuback(_) => "UNSUBACK",
        PacketView::Pingreq => "PINGREQ",
        PacketView::Pingresp => "PINGRESP",
        PacketView::Disconnect => "DISCONNECT",
    }
}

impl Packet {
    /// The name of the packet in error reports.
    pub fn name(&self) -> (r: &'static str)
        ensures
            r == packet_name(self@),
    {
        match self {
            Packet::Connect(_) => "CONNECT",
            Packet::Connack(_) => "CONNACK",
            Packet::Publish(_) => "PUBLISH",
            Packet::Puback(_) => "PUBACK",
            Packet::Pubrec(_) => "PUBREC",
            Packet::Pubrel(_) => "PUBREL",
            Packet::Pubcomp(_) => "PUBCOMP",
            Packet::Subscribe(_) => "SUBSCRIBE",
            Packet::Suback(_) => "SUBACK",
            Packet::Unsubscribe(_) => "UNSUBSCRIBE",
            Packet::Unsuback(_) => "UNSUBACK",
            Packet::Pingreq => "PINGREQ",
            Packet::Pingresp => "PINGRESP",
            Packet::Disconnect => "DISCONNECT",
        }
    }
}

impl PublishPacket {
    /// The packet under another packet identifier.
    pub fn with_id(self, id: PacketId) -> (r: Self)
        ensures
            r@ == (PublishView { packet_id: Some(id), ..self@ }),
    {
        let mut packet = self;
        packet.packet_id = Some(id);
        packet
    }
}

impl UnsubackPacket {
    pub fn new(packet_id: PacketId) -> (r: Self)
        ensures
            r@ == (UnsubackView { packet_id, reason_codes: Seq::empty() }),
    {
        let r = UnsubackPacket { packet_id, reason_codes: Vec::new() };
        assert(r@.reason_codes =~= Seq::empty());
        r
    }
}

// ----------------------------------------------------------------------------
// Clones
// ----------------------------------------------------------------------------

impl Clone for PublishPacket {
    fn clone(&self) -> (r: Self)
        ensures
            r@ == self@,
    {
        PublishPacket {
            properties: self.properties.clone(),
            topic: self.topic.clone(),
            payload: buffers::share_bytes(&self.payload),
            dup: self.dup,
            qos: self.qos,
            retain: self.retain,
            packet_id: self.packet_id,
        }
    }
}

impl Clone for WillPacket {
    fn clone(&self) -> (r: Self)
        ensures
            r@ == self@,
    {
        WillPacket {
            properties: self.properties.clone(),
            topic: self.topic.clone(),
            payload: buffers::share_bytes(&self.payload),
            qos: self.qos,
            retain: self.retain,
        }
    }
}

impl Clone for ConnectPacket {
    fn clone(&self) -> (r: Self)
        ensures
            r@ == self@,
    {
        let will = match &self.will {
            Some(w) => Some(w.clone()),
            None => None,
        };
        ConnectPacket {
            version: self.version,
            properties: self.properties.clone(),
            client_id: self.client_id.clone(),
            clean_session: self.clean_session,
            keep_alive: self.keep_alive,
            username: wire::share_opt_text(&self.username),
            password: buffers::share_opt_bytes(&self.password),
            will,
        }
    }
}

impl Clone for ConnackPacket {
    fn clone(&self) -> (r: Self)
        ensures
            r@ == self@,
    {
        ConnackPacket {
            properties: self.properties.clone(),
            session_present: self.session_present,
            return_code: self.return_code,
        }
    }
}

impl Clone for TopicSubscription {
    fn clone(&self) -> (r: Self)
        ensures
            r == *self,
    {
        TopicSubscription { topic: self.topic.clone(), qos: self.qos }
    }
}

impl Clone for SubscribePacket {
    fn clone(&self) -> (r: Self)
        ensures
            r@ == self@,
    {
        let mut subscriptions: Vec<TopicSubscription> = Vec::new();
        let mut i: usize = 0;
        while i < self.subscriptions.len()
            invariant
                i <= self.subscriptions@.len(),
                subscriptions@ == self.subscriptions@.take(i as int),
            decreases self.subscriptions@.len() - i,
        {
            subscriptions.push(self.subscriptions[i].clone());
            i += 1;
        }
        assert(subscriptions@ =~= self.subscriptions@);
        SubscribePacket { packet_id: self.packet_id, subscriptions }
    }
}

impl Clone for SubackPacket {
    fn clone(&self) -> (r: Self)
        ensures
            r@ == self@,
    {
        let mut return_codes: Vec<SubackCode> = Vec::new();
        let mut i: usize = 0;
        while i < self.return_codes.len()
            invariant
                i <= self.return_codes@.len(),
                return_codes@ == self.return_codes@.take(i as int),
            decreases self.return_codes@.len() - i,
        {
            return_codes.push(self.return_codes[i]);
            i += 1;
        }
        assert(return_codes@ =~= self.return_codes@);
        SubackPacket { packet_id: self.packet_id, return_codes }
    }
}

/// Another handle on each of the same strings.
pub(crate) fn share_texts(v: &Vec<Arc<str>>) -> (r: Vec<Arc<str>>)
    ensures
        r@ == v@,
{
    let mut out: Vec<Arc<str>> = Vec::new();
    let mut i: usize = 0;
    while i < v.len()
        invariant
            i <= v@.len(),
            out@ == v@.take(i as int),
        decreases v@.len() - i,
    {
        out.push(v[i].clone());
        i += 1;
    }
    assert(out@ =~= v@);
    out
}

impl Clone for UnsubscribePacket {
    fn clone(&self) -> (r: Self)
        ensures
            r@ == self@,
    {
        UnsubscribePacket { packet_id: self.packet_id, topics: share_texts(&self.topics) }
    }
}

impl Clone for UnsubackPacket {
    fn clone(&self) -> (r: Self)
        ensures
            r@ == self@,
    {
        let mut reason_codes: Vec<u8> = Vec::new();
        wire::write_bytes(&mut reason_codes, self.reason_codes.as_slice());
        assert(reason_codes@ =~= self.reason_codes@);
        UnsubackPacket { packet_id: self.packet_id, reason_codes }
    }
}

impl Clone for Packet {
    fn clone(&self) -> (r: Self)
        ensures
            r@ == self@,
    {
        match self {
            Packet::Connect(c) => Packet::Connect(Box::new((&**c).clone())),
            Packet::Connack(c) => Packet::Connack(c.clone()),
            Packet::Publish(p) => Packet::Publish(p.clone()),
            Packet::Puback(id) => Packet::Puback(*id),
            Packet::Pubrec(id) => Packet::Pubrec(*id),
            Packet::Pubrel(id) => Packet::Pubrel(*id),
            Packet::Pubcomp(id) => Packet::Pubcomp(*id),
            Packet::Subscribe(s) => Packet::Subscribe(s.clone()),
            Packet::Suback(s) => Packet::Suback(s.clone()),
            Packet::Unsubscribe(u) => Packet::Unsubscribe(u.clone()),
            Packet::Unsuback(u) => Packet::Unsuback(u.clone()),
            Packet::Pingreq => Packet::Pingreq,
            Packet::Pingresp => Packet::Pingresp,
            Packet::Disconnect => Packet::Disconnect,
        }
    }
}

// ----------------------------------------------------------------------------
// Numbers on the wire
// ----------------------------------------------------------------------------

/// The CONNECT protocol level of a version.
pub open spec fn version_level(v: ProtocolVersion) -> u8 {
    match v {
        ProtocolVersion::V311 => 4,
        ProtocolVersion::V5 => 5,
    }
}

/// The version with a given CONNECT protocol level.
pub open spec fn version_from(level: u8) -> Option<ProtocolVersion> {
    if level == 4 {
        Some(ProtocolVersion::V311)
    } else if level == 5 {
        Some(ProtocolVersion::V5)
    } else {
        None
    }
}

impl Default for ProtocolVersion {
    fn default() -> (r: Self)
        ensures
            r == ProtocolVersion::V311,
    {
        ProtocolVersion::V311
    }
}

impl ProtocolVersion {
    pub fn level(self) -> (r: u8)
        ensures
            r == version_level(self),
    {
        match self {
            ProtocolVersion::V311 => 4,
            ProtocolVersion::V5 => 5,
        }
    }

    pub fn from_level(level: u8) -> (r: Option<Self>)
        ensures
            r == version_from(level),
    {
        match level {
            4 => Some(ProtocolVersion::V311),
            5 => Some(ProtocolVersion::V5),
            _ => None,
        }
    }
}

/// The packet type with a given number.
pub open spec fn type_from(v: u8) -> Result<PacketType, ()> {
    if v == 1 {
        Ok(PacketType::Connect)
    } else if v == 2 {
        Ok(PacketType::Connack)
    } else if v == 3 {
        Ok(PacketType::Publish)
    } else if v == 4 {
        Ok(PacketType::Puback)
    } else if v == 5 {
        Ok(PacketType::Pubrec)
    } else if v == 6 {
        Ok(PacketType::Pubrel)
    } else if v == 7 {
        Ok(PacketType::Pubcomp)
    } else if v == 8 {
        Ok(PacketType::Subscribe)
    } else if v == 9 {
        Ok(PacketType::Suback)
    } else if v == 10 {
        Ok(PacketType::Unsubscribe)
    } else if v == 11 {
        Ok(PacketType::Unsuback)
    } else if v == 12 {
        Ok(PacketType::Pingreq)
    } else if v == 13 {
        Ok(PacketType::Pingresp)
    } else if v == 14 {
        Ok(PacketType::Disconnect)
    } else {
        Err(())
    }
}

impl TryFrom<u8> for PacketType {
    type Error = ();

    fn try_from(value: u8) -> (r: Result<Self, ()>) {
        match value {
            1 => Ok(PacketType::Connect),
            2 => Ok(PacketType::Connack),
            3 => Ok(PacketType::Publish),
            4 => Ok(PacketType::Puback),
            5 => Ok(PacketType::Pubrec),
            6 => Ok(PacketType::Pubrel),
            7 => Ok(PacketType::Pubcomp),
            8 => Ok(PacketType::Subscribe),
            9 => Ok(PacketType::Suback),
            10 => Ok(PacketType::Unsubscribe),
            11 => Ok(PacketType::Unsuback),
            12 => Ok(PacketType::Pingreq),
            13 => Ok(PacketType::Pingresp),
            14 => Ok(PacketType::Disconnect),
            _ => Err(()),
        }
    }
}

impl vstd::std_specs::convert::TryFromSpecImpl<u8> for PacketType {
    open spec fn obeys_try_from_spec() -> bool {
        true
    }

    open spec fn try_from_spec(v: u8) -> Result<Self, ()> {
        type_from(v)
    }
}

/// The MQTT 3.1.1 number of a CONNACK return code.
pub open spec fn connack_number(c: ConnackReturnCode) -> u8 {
    match c {
        ConnackReturnCode::Accepted => 0,
        ConnackReturnCode::UnacceptableProtocolVersion => 1,
        ConnackReturnCode::IdentifierRejected => 2,
        ConnackReturnCode::ServerUnavailable => 3,
        ConnackReturnCode::BadUsernameOrPassword => 4,
        ConnackReturnCode::NotAuthorized => 5,
    }
}

/// The CONNACK return code with a given MQTT 3.1.1 number.
pub open spec fn connack_from(v: u8) -> Result<ConnackReturnCode, ()> {
    if v == 0 {
        Ok(ConnackReturnCode::Accepted)
    } else if v == 1 {
        Ok(ConnackReturnCode::UnacceptableProtocolVersion)
    } else if v == 2 {
        Ok(ConnackReturnCode::IdentifierRejected)
    } else if v == 3 {
        Ok(ConnackReturnCode::ServerUnavailable)
    } else if v == 4 {
        Ok(ConnackReturnCode::BadUsernameOrPassword)
    } else if v == 5 {
        Ok(ConnackReturnCode::NotAuthorized)
    } else {
        Err(())
    }
}

/// The MQTT 5 reason code of a CONNACK return code.
pub open spec fn connack_reason(c: ConnackReturnCode) -> u8 {
    match c {
        ConnackReturnCode::Accepted => 0x00,
        ConnackReturnCode::UnacceptableProtocolVersion => 0x84,
        ConnackReturnCode::IdentifierRejected => 0x85,
        ConnackReturnCode::ServerUnavailable => 0x88,
        ConnackReturnCode::BadUsernameOrPassword => 0x86,
        ConnackReturnCode::NotAuthorized => 0x87,
    }
}

/// The CONNACK return code with a given MQTT 5 reason code.
pub open spec fn connack_from_reason(v: u8) -> Option<ConnackReturnCode> {
    if v == 0x00 {
        Some(ConnackReturnCode::Accepted)
    } else if v == 0x84 {
        Some(ConnackReturnCode::UnacceptableProtocolVersion)
    } else if v == 0x85 {
        Some(ConnackReturnCode::IdentifierRejected)
    } else if v == 0x88 {
        Some(ConnackReturnCode::ServerUnavailable)
    } else if v == 0x86 {
        Some(ConnackReturnCode::BadUsernameOrPassword)
    } else if v == 0x87 {
        Some(ConnackReturnCode::NotAuthorized)
    } else {
        None
    }
}

/// The description of a CONNACK return code.
pub open spec fn connack_text(c: ConnackReturnCode) -> &'static str {
    match c {
        ConnackReturnCode::Accepted => "Accepted",
        ConnackReturnCode::UnacceptableProtocolVersion => "Unacceptable Protocol Version",
        ConnackReturnCode::IdentifierRejected => "Identifier Rejected",
        ConnackReturnCode::ServerUnavailable => "Server Unavailable",
        ConnackReturnCode::BadUsernameOrPassword => "Bad Username or Password",
        ConnackReturnCode::NotAuthorized => "Not Authorized",
    }
}

impl ConnackReturnCode {
    pub fn as_u8(self) -> (r: u8)
        ensures
            r == connack_number(self),
    {
        match self {
            ConnackReturnCode::Accepted => 0,
            ConnackReturnCode::UnacceptableProtocolVersion => 1,
            ConnackReturnCode::IdentifierRejected => 2,
            ConnackReturnCode::ServerUnavailable => 3,
            ConnackReturnCode::BadUsernameOrPassword => 4,
            ConnackReturnCode::NotAuthorized => 5,
        }
    }

    pub fn to_v5_reason(self) -> (r: u8)
        ensures
            r == connack_reason(self),
    {
        match self {
            ConnackReturnCode::Accepted => 0x00,
            ConnackReturnCode::UnacceptableProtocolVersion => 0x84,
            ConnackReturnCode::IdentifierRejected => 0x85,
            ConnackReturnCode::ServerUnavailable => 0x88,
            ConnackReturnCode::BadUsernameOrPassword => 0x86,
            ConnackReturnCode::NotAuthorized => 0x87,
        }
    }

    pub fn from_v5_reason(value: u8) -> (r: Option<Self>)
        ensures
            r == connack_from_reason(value),
    {
        match value {
            0x00 => Some(ConnackReturnCode::Accepted),
            0x84 => Some(ConnackReturnCode::UnacceptableProtocolVersion),
            0x85 => Some(ConnackReturnCode::IdentifierRejected),
            0x88 => Some(ConnackReturnCode::ServerUnavailable),
            0x86 => Some(ConnackReturnCode::BadUsernameOrPassword),
            0x87 => Some(ConnackReturnCode::NotAuthorized),
            _ => None,
        }
    }

    /// The return code in words.
    pub fn description(self) -> (r: &'static str)
        ensures
            r == connack_text(self),
    {
        match self {
            ConnackReturnCode::Accepted => "Accepted",
            ConnackReturnCode::UnacceptableProtocolVersion => "Unacceptable Protocol Version",
            ConnackReturnCode::IdentifierRejected => "Identifier Rejected",
            ConnackReturnCode::ServerUnavailable => "Server Unavailable",
            ConnackReturnCode::BadUsernameOrPassword => "Bad Username or Password",
            ConnackReturnCode::NotAuthorized => "Not Authorized",
        }
    }
}

impl TryFrom<u8> for ConnackReturnCode {
    type Error = ();

    fn try_from(value: u8) -> (r: Result<Self, ()>) {
        match value {
            0 => Ok(ConnackReturnCode::Accepted),
            1 => Ok(ConnackReturnCode::UnacceptableProtocolVersion),
            2 => Ok(ConnackReturnCode::IdentifierRejected),
            3 => Ok(ConnackReturnCode::ServerUnavailable),
            4 => Ok(ConnackReturnCode::BadUsernameOrPassword),
            5 => Ok(ConnackReturnCode::NotAuthorized),
            _ => Err(()),
        }
    }
}

impl vstd::std_specs::convert::TryFromSpecImpl<u8> for ConnackReturnCode {
    open spec fn obeys_try_from_spec() -> bool {
        true
    }

    open spec fn try_from_spec(v: u8) -> Result<Self, ()> {
        connack_from(v)
    }
}

// ----------------------------------------------------------------------------
// Laws
// ----------------------------------------------------------------------------

/// A protocol version is found again by its level.
pub proof fn version_levels_round_trip(v: ProtocolVersion, level: u8)
    ensures
        version_from(version_level(v)) == Some(v),
        version_from(level) matches Some(w) ==> version_level(w) == level,
{
}

/// A CONNACK return code is found again by its number and by its MQTT 5 reason
/// code.
pub proof fn connack_codes_round_trip(c: ConnackReturnCode)
    ensures
        connack_from(connack_number(c)) == Ok::<ConnackReturnCode, ()>(c),
        connack_from_reason(connack_reason(c)) == Some(c),
{
}

/// The views of packets hold every field.
pub proof fn views_hold_the_fields(p: PublishPacket, w: WillPacket, c: ConnectPacket, k: ConnackPacket)
    ensures
        p@.properties == p.properties@,
        p@.topic == (*p.topic)@,
        p@.payload == buffers::payload(p.payload),
        p@.dup == p.dup,
        p@.qos == p.qos,
        p@.retain == p.retain,
        p@.packet_id == p.packet_id,
        w@.properties == w.properties@,
        w@.topic == (*w.topic)@,
        w@.payload == buffers::payload(w.payload),
        w@.qos == w.qos,
        w@.retain == w.retain,
        c@.version == c.version,
        c@.properties == c.properties@,
        c@.client_id == (*c.client_id)@,
        c@.clean_session == c.clean_session,
        c@.keep_alive == c.keep_alive,
        c.username matches Some(u) ==> c@.username == Some((*u)@),
        c.username is None ==> c@.username is None,
        c.password matches Some(q) ==> c@.password == Some(buffers::payload(q)),
        c.password is None ==> c@.password is None,
        c.will matches Some(v) ==> c@.will == Some(v@),
        c.will is None ==> c@.will is None,
        k@.properties == k.properties@,
        k@.session_present == k.session_present,
        k@.return_code == k.return_code,
{
}

/// The views of the packets that list something hold every entry, in order.
pub proof fn views_hold_the_lists(
    s: SubscribePacket,
    a: SubackPacket,
    u: UnsubscribePacket,
    b: UnsubackPacket,
)
    ensures
        s@.packet_id == s.packet_id,
        s@.subscriptions.len() == s.subscriptions@.len(),
        forall|i: int|
            0 <= i < s.subscriptions@.len() ==> (#[trigger] s@.subscriptions[i]).0 == (
            *s.subscriptions@[i].topic)@ && s@.subscriptions[i].1 == s.subscriptions@[i].qos,
        a@.packet_id == a.packet_id,
        a@.return_codes == a.return_codes@,
        u@.packet_id == u.packet_id,
        u@.topics.len() == u.topics@.len(),
        forall|i: int|
            0 <= i < u.topics@.len() ==> #[trigger] u@.topics[i] == (*u.topics@[i])@,
        b@.packet_id == b.packet_id,
        b@.reason_codes == b.reason_codes@,
{
}

/// Protocol levels and CONNACK codes have fixed numbers.
pub proof fn codes_have_fixed_numbers(v: u8)
    ensures
        version_level(ProtocolVersion::V311) == 4,
        version_level(ProtocolVersion::V5) == 5,
        v != 4 && v != 5 ==> version_from(v) is None,
        connack_number(ConnackReturnCode::Accepted) == 0,
        connack_number(ConnackReturnCode::UnacceptableProtocolVersion) == 1,
        connack_number(ConnackReturnCode::IdentifierRejected) == 2,
        connack_number(ConnackReturnCode::ServerUnavailable) == 3,
        connack_number(ConnackReturnCode::BadUsernameOrPassword) == 4,
        connack_number(ConnackReturnCode::NotAuthorized) == 5,
        v > 5 ==> connack_from(v) is Err,
        connack_reason(ConnackReturnCode::Accepted) == 0,
        connack_reason(ConnackReturnCode::UnacceptableProtocolVersion) == 0x84,
        connack_reason(ConnackReturnCode::IdentifierRejected) == 0x85,
        connack_reason(ConnackReturnCode::BadUsernameOrPassword) == 0x86,
        connack_reason(ConnackReturnCode::NotAuthorized) == 0x87,
        connack_reason(ConnackReturnCode::ServerUnavailable) == 0x88,
        v != 0 && (v < 0x84 || v > 0x88) ==> connack_from_reason(v) is None,
{
}

/// Packet types are numbered from 1 to 14, and no other number is a type.
pub proof fn types_have_fixed_numbers(v: u8)
    ensures
        type_from(1) == Ok::<PacketType, ()>(PacketType::Connect),
        type_from(2) == Ok::<PacketType, ()>(PacketType::Connack),
        type_from(3) == Ok::<PacketType, ()>(PacketType::Publish),
        type_from(4) == Ok::<PacketType, ()>(PacketType::Puback),
        type_from(5) == Ok::<PacketType, ()>(PacketType::Pubrec),
        type_from(6) == Ok::<PacketType, ()>(PacketType::Pubrel),
        type_from(7) == Ok::<PacketType, ()>(PacketType::Pubcomp),
        type_from(8) == Ok::<PacketType, ()>(PacketType::Subscribe),
        type_from(9) == Ok::<PacketType, ()>(PacketType::Suback),
        type_from(10) == Ok::<PacketType, ()>(PacketType::Unsubscribe),
        type_from(11) == Ok::<PacketType, ()>(PacketType::Unsuback),
        type_from(12) == Ok::<PacketType, ()>(PacketType::Pingreq),
        type_from(13) == Ok::<PacketType, ()>(PacketType::Pingresp),
        type_from(14) == Ok::<PacketType, ()>(PacketType::Disconnect),
        v == 0 || v > 14 ==> type_from(v) is Err,
{
}

/// Numbers are converted to packet types and return codes by their tables.
pub proof fn conversions_follow_the_tables(v: u8)
    ensures
        <PacketType as vstd::std_specs::convert::TryFromSpec<u8>>::try_from_spec(v) == type_from(v),
        <ConnackReturnCode as vstd::std_specs::convert::TryFromSpec<u8>>::try_from_spec(v)
            == connack_from(v),
{
}

/// The view of a packet is that of what it carries.
pub proof fn views_keep_the_kind(
    c: Box<ConnectPacket>,
    k: ConnackPacket,
    p: PublishPacket,
    id: PacketId,
    s: SubscribePacket,
    a: SubackPacket,
    u: UnsubscribePacket,
    b: UnsubackPacket,
)
    ensures
        Packet::Connect(c)@ == PacketView::Connect((*c)@),
        Packet::Connack(k)@ == PacketView::Connack(k@),
        Packet::Publish(p)@ == PacketView::Publish(p@),
        Packet::Puback(id)@ == PacketView::Puback(id),
        Packet::Pubrec(id)@ == PacketView::Pubrec(id),
        Packet::Pubrel(id)@ == PacketView::Pubrel(id),
        Packet::Pubcomp(id)@ == PacketView::Pubcomp(id),
        Packet::Subscribe(s)@ == PacketView::Subscribe(s@),
        Packet::Suback(a)@ == PacketView::Suback(a@),
        Packet::Unsubscribe(u)@ == PacketView::Unsubscribe(u@),
        Packet::Unsuback(b)@ == PacketView::Unsuback(b@),
        Packet::Pingreq@ == PacketView::Pingreq,
        Packet::Pingresp@ == PacketView::Pingresp,
        Packet::Disconnect@ == PacketView::Disconnect,
{
}

} // verus!
