//! The server side of a connection: CONNECT, CONNACK, then packets until the
//! connection ends.

use std::sync::Arc;

use vstd::prelude::*;
use vstd::string::*;

use crate::broker;
use crate::broker::{AuthResult, Broker, BrokerView};
use crate::buffers;
use crate::channel::{ChannelView, WriteView};
use crate::error::{MqttError, TimeoutKind, Violation};
use crate::packet::{
    ConnackPacket, ConnackReturnCode, ConnackView, ConnectPacket, ConnectView, Packet, PacketView,
    PublishPacket, PublishView, SubackPacket, SubackView, SubscribePacket, UnsubackPacket,
    UnsubackView, UnsubscribePacket, WillView,
};
use crate::properties::{Properties, PropertiesView};
use crate::protocol::inbound;
use crate::protocol::inbound::{Delivery, ReadOutcome, ReadView};
use crate::request::{PacketId, QoS, SubackCode, TopicFilter, WillMessage};
use crate::session::{AckSlot, BindInfo, BindView, SessionView};
use crate::text;
use crate::wire;

verus! {

// ----------------------------------------------------------------------------
// Connections of the broker
// ----------------------------------------------------------------------------

/// The broker after something has happened to one of its connections.
pub open spec fn on_connection(b: BrokerView, connection: u64, c: ChannelView) -> BrokerView {
    if b.channels.contains_key(connection) {
        b.with_channel(connection, c)
    } else {
        b
    }
}

/// What sending on a connection of the broker returns.
pub open spec fn send_outcome(b: BrokerView, connection: u64) -> Result<(), MqttError> {
    if b.reaches(connection) {
        Ok(())
    } else {
        Err(MqttError::ChannelClosed)
    }
}

fn send_on(broker: &mut Broker, connection: u64, packet: Packet) -> (r: Result<(), MqttError>)
    ensures
        r == send_outcome(old(broker)@, connection),
        final(broker)@ == old(broker)@.sent(connection, WriteView::Packet(packet@)),
{
    let mut channel = match broker.detach(connection) {
        Some(c) => c,
        None => {
            assert(broker@.channels =~= old(broker)@.channels);
            return Err(MqttError::ChannelClosed);
        },
    };
    let r = channel.send_packet(packet);
    broker.attach(connection, channel);
    assert(broker@ =~= old(broker)@.sent(connection, WriteView::Packet(packet@)));
    r
}

// ----------------------------------------------------------------------------
// The handshake
// ----------------------------------------------------------------------------

/// The CONNECT that has to come first.
pub open spec fn connect_read(read: ReadView) -> Result<ConnectView, MqttError> {
    match read {
        ReadView::TimedOut => Err(MqttError::Timeout(TimeoutKind::ConnectReceive)),
        ReadView::Failed(e) => Err(e),
        ReadView::Packet(PacketView::Connect(c)) => Ok(c),
        ReadView::Packet(_) => Err(MqttError::Protocol(Violation::ExpectedConnect)),
    }
}

/// Takes in the first packet of a connection. A CONNECT fixes the version of
/// the connection and is to be authenticated; anything else ends it.
pub fn accept_connect(broker: &mut Broker, connection: u64, read: ReadOutcome) -> (r: Result<
    Box<ConnectPacket>,
    MqttError,
>)
    ensures
        match connect_read(read@) {
            Ok(c) => (r matches Ok(got) && got@ == c) && final(broker)@ == on_connection(
                old(broker)@,
                connection,
                ChannelView { version: c.version, ..old(broker)@.channels[connection] },
            ),
            Err(e) => r == Err::<Box<ConnectPacket>, MqttError>(e) && final(broker)@ == old(
                broker,
            )@,
        },
{
    let connect = match read {
        ReadOutcome::Packet(Packet::Connect(c)) => c,
        ReadOutcome::Packet(_) => {
            return Err(MqttError::Protocol(Violation::ExpectedConnect));
        },
        ReadOutcome::Failed(e) => {
            return Err(e);
        },
        ReadOutcome::TimedOut => {
            return Err(MqttError::Timeout(TimeoutKind::ConnectReceive));
        },
    };
    match broker.detach(connection) {
        Some(c) => {
            let mut channel = c;
            channel.set_protocol_version(connect.version);
            broker.attach(connection, channel);
        },
        None => {},
    }
    assert(broker@ =~= on_connection(
        old(broker)@,
        connection,
        ChannelView { version: connect.version, ..old(broker)@.channels[connection] },
    ));
    Ok(connect)
}

/// The name that a client goes by. One that gives none gets one after its
/// connection.
pub open spec fn client_name(client_id: Seq<char>, connection: u64) -> Seq<char> {
    if client_id.len() == 0 {
        "hotaru-auto-"@ + text::decimal(connection as nat)
    } else {
        client_id
    }
}

fn name_client(client_id: &Arc<str>, connection: u64) -> (r: Arc<str>)
    ensures
        wire::text(r) == client_name(wire::text(*client_id), connection),
{
    let given: &str = &**client_id;
    if given.unicode_len() == 0 {
        let mut name = "hotaru-auto-".to_owned();
        text::append_decimal(&mut name, connection);
        wire::shared_text(name.as_str())
    } else {
        client_id.clone()
    }
}

/// The will as the broker keeps it.
pub open spec fn kept_will(will: Option<WillView>) -> Option<WillView> {
    match will {
        Some(w) => Some(WillView { properties: PropertiesView::empty(), ..w }),
        None => None,
    }
}

/// How long a server waits for a packet, in seconds: one and a half times the
/// keep-alive, which counts as a second at least.
pub open spec fn read_timeout(keep_alive: u16) -> u64 {
    ((if keep_alive == 0 {
        1
    } else {
        keep_alive as int
    }) * 3 / 2) as u64
}

/// A CONNACK without properties.
pub open spec fn connack(session_present: bool, return_code: ConnackReturnCode) -> WriteView {
    WriteView::Packet(
        PacketView::Connack(
            ConnackView { properties: PropertiesView::empty(), session_present, return_code },
        ),
    )
}

/// The broker after a connection has been bound to a client.
pub open spec fn bound(b: BrokerView, connection: u64, info: BindView) -> BrokerView {
    let c = b.channels[connection];
    on_connection(b, connection, c.with_session(c.session.bound(info)))
}

/// The broker after a client has been welcomed, but for the CONNACK.
pub open spec fn welcomed(b: BrokerView, connection: u64, c: ConnectView) -> BrokerView {
    let client = client_name(c.client_id, connection);
    bound(
        broker::registered(b, client, connection, kept_will(c.will), c.clean_session),
        connection,
        BindView { client_id: client, keep_alive: c.keep_alive },
    )
}

/// A connection that has been welcomed.
pub struct ServerSession {
    connection: u64,
    client_id: Arc<str>,
    read_timeout_secs: u64,
    graceful: bool,
}

/// What a server knows about a connection that it has welcomed.
#[verifier::ext_equal]
pub struct ServerSessionView {
    pub connection: u64,
    pub client_id: Seq<char>,
    pub read_timeout_secs: u64,
    /// Whether the client has said goodbye.
    pub graceful: bool,
}

impl View for ServerSession {
    type V = ServerSessionView;

    closed spec fn view(&self) -> ServerSessionView {
        ServerSessionView {
            connection: self.connection,
            client_id: wire::text(self.client_id),
            read_timeout_secs: self.read_timeout_secs,
            graceful: self.graceful,
        }
    }
}

/// Takes in what the authenticator has decided. A client that is refused is
/// told so, and the connection ends. One that is accepted is registered and
/// gets its CONNACK; when that cannot be sent, its session is torn down again.
pub fn answer_connect(broker: &mut Broker, connection: u64, connect: &ConnectPacket, auth: AuthResult) -> (r:
    Result<ServerSession, MqttError>)
    ensures
        !auth.accepted ==> {
            &&& r == Err::<ServerSession, MqttError>(
                MqttError::Protocol(Violation::ConnectionRefused(auth.return_code)),
            )
            &&& final(broker)@ == old(broker)@.sent(connection, connack(false, auth.return_code))
        },
        auth.accepted ==> {
            let client = client_name(connect@.client_id, connection);
            let present = !connect@.clean_session && old(broker)@.sessions.contains_key(client);
            let b = welcomed(old(broker)@, connection, connect@);
            let answered = b.sent(connection, connack(present, ConnackReturnCode::Accepted));
            if b.reaches(connection) {
                &&& r matches Ok(s) && s@ == (ServerSessionView {
                    connection,
                    client_id: client,
                    read_timeout_secs: read_timeout(connect@.keep_alive),
                    graceful: false,
                })
                &&& final(broker)@ == answered
            } else {
                &&& r == Err::<ServerSession, MqttError>(MqttError::ChannelClosed)
                &&& broker::unregistered(answered, final(broker)@, client, false)
            }
        },
{
    if !auth.accepted {
        let refusal = ConnackPacket {
            properties: Properties::default(),
            session_present: false,
            return_code: auth.return_code,
        };
        let _ = send_on(broker, connection, Packet::Connack(refusal));
        return Err(MqttError::Protocol(Violation::ConnectionRefused(auth.return_code)));
    }
    let client_id = name_client(&connect.client_id, connection);
    let will = match &connect.will {
        Some(w) => Some(
            WillMessage {
                topic: w.topic.clone(),
                payload: buffers::share_bytes(&w.payload),
                qos: w.qos,
                retain: w.retain,
            },
        ),
        None => None,
    };
    let session_present = broker.register_session(
        client_id.clone(),
        connection,
        will,
        connect.clean_session,
    );
    let ghost registered = broker@;
    let info = BindInfo { client_id: client_id.clone(), keep_alive: connect.keep_alive };
    match broker.detach(connection) {
        Some(c) => {
            let mut channel = c;
            channel.session_mut().bind_to(info);
            broker.attach(connection, channel);
        },
        None => {},
    }
    assert(broker@ =~= bound(registered, connection, info@));
    let answer = ConnackPacket {
        properties: Properties::default(),
        session_present,
        return_code: ConnackReturnCode::Accepted,
    };
    match send_on(broker, connection, Packet::Connack(answer)) {
        Ok(_) => {},
        Err(e) => {
            broker.unregister_session(&*client_id, false);
            return Err(e);
        },
    }
    let keep_alive: u64 = if connect.keep_alive == 0 {
        1
    } else {
        connect.keep_alive as u64
    };
    Ok(
        ServerSession {
            connection,
            client_id,
            read_timeout_secs: keep_alive * 3 / 2,
            graceful: false,
        },
    )
}

// ----------------------------------------------------------------------------
// Inbound packets
// ----------------------------------------------------------------------------

/// A publish for the endpoints, and the PUBCOMP that is due afterwards.
pub struct ChainJob {
    pub publish: PublishPacket,
    pub pubcomp: Option<PacketId>,
}

/// What is left to do after an inbound packet has been taken in.
pub struct ServerEffect {
    /// An operation is to be told of its acknowledgement.
    pub fire: Option<Delivery>,
    /// A publish is to be run through the endpoints.
    pub chain: Option<ChainJob>,
}

/// The view of what is left to do.
pub struct ServerEffectView {
    pub fire: Option<Delivery>,
    pub chain: Option<(PublishView, Option<PacketId>)>,
}

impl View for ServerEffect {
    type V = ServerEffectView;

    open spec fn view(&self) -> ServerEffectView {
        ServerEffectView {
            fire: self.fire,
            chain: match self.chain {
                Some(job) => Some((job.publish@, job.pubcomp)),
                None => None,
            },
        }
    }
}

/// Nothing is left to do.
pub open spec fn nothing() -> ServerEffectView {
    ServerEffectView { fire: None, chain: None }
}

/// The codes that answer a SUBSCRIBE.
pub open spec fn suback_codes(
    b: BrokerView,
    client: Seq<char>,
    subscriptions: Seq<(Seq<char>, QoS)>,
) -> Seq<SubackCode> {
    subscriptions.map_values(
        |s: (Seq<char>, QoS)|
            if b.sessions.contains_key(client) {
                broker::granted(s)
            } else {
                SubackCode::Failure
            },
    )
}

/// The publish that a PUBREL releases.
pub open spec fn released(b: BrokerView, connection: u64, id: PacketId) -> Option<PublishView> {
    if b.channels.contains_key(connection)
        && b.channels[connection].session.qos2_recv.contains_key(id) {
        Some(
            PublishView {
                dup: false,
                packet_id: Some(id),
                ..b.channels[connection].session.qos2_recv[id]
            },
        )
    } else {
        None
    }
}

/// The connection after a kept publish has been taken out.
pub open spec fn after_release(c: ChannelView, id: PacketId) -> ChannelView {
    c.with_session(SessionView { qos2_recv: c.session.qos2_recv.remove(id), ..c.session })
}

/// The broker after an inbound packet has been taken in.
pub open spec fn after_inbound(
    b: BrokerView,
    connection: u64,
    client: Seq<char>,
    p: PacketView,
) -> BrokerView {
    match p {
        PacketView::Publish(p) => on_connection(
            b,
            connection,
            inbound::acknowledged(b.channels[connection], p),
        ),
        PacketView::Subscribe(s) => (if b.sessions.contains_key(client) {
            broker::all_subscribed(b, client, s.subscriptions)
        } else {
            b
        }).sent(
            connection,
            WriteView::Packet(
                PacketView::Suback(
                    SubackView {
                        packet_id: s.packet_id,
                        return_codes: suback_codes(b, client, s.subscriptions),
                    },
                ),
            ),
        ),
        PacketView::Unsubscribe(u) => (if b.sessions.contains_key(client) {
            broker::all_unsubscribed(b, client, u.topics)
        } else {
            b
        }).sent(
            connection,
            WriteView::Packet(
                PacketView::Unsuback(
                    UnsubackView {
                        packet_id: u.packet_id,
                        reason_codes: u.topics.map_values(|t: Seq<char>| 0u8),
                    },
                ),
            ),
        ),
        PacketView::Pingreq => b.sent(connection, WriteView::Packet(PacketView::Pingresp)),
        PacketView::Puback(id) | PacketView::Pubcomp(id) => match broker::connection_of(b, client) {
            Some(n) => b.with_channel(n, broker::after_ack(b.channels[n], id)),
            None => b,
        },
        PacketView::Pubrec(id) => b.sent(connection, WriteView::Packet(PacketView::Pubrel(id))),
        PacketView::Pubrel(id) => if released(b, connection, id) is Some {
            b.with_channel(connection, after_release(b.channels[connection], id))
        } else {
            b.sent(connection, WriteView::Packet(PacketView::Pubcomp(id)))
        },
        _ => b,
    }
}

/// What taking in an inbound packet returns.
pub open spec fn inbound_result(
    b: BrokerView,
    connection: u64,
    client: Seq<char>,
    p: PacketView,
) -> Result<ServerEffectView, MqttError> {
    match p {
        PacketView::Publish(p) => if p.qos != QoS::AtMostOnce && p.packet_id is Some && !b.reaches(
            connection,
        ) {
            Err(MqttError::ChannelClosed)
        } else if p.qos == QoS::ExactlyOnce {
            Ok(nothing())
        } else {
            Ok(ServerEffectView { fire: None, chain: Some((p, None)) })
        },
        PacketView::Subscribe(_) | PacketView::Unsubscribe(_) | PacketView::Pingreq
        | PacketView::Pubrec(_) => match send_outcome(b, connection) {
            Ok(_) => Ok(nothing()),
            Err(e) => Err(e),
        },
        PacketView::Puback(id) | PacketView::Pubcomp(id) => Ok(
            ServerEffectView {
                fire: match broker::connection_of(b, client) {
                    Some(n) => inbound::ack_delivery(
                        inbound::slot_of(b.channels[n], id),
                        inbound::AckKind::Puback,
                        id,
                    ),
                    None => None,
                },
                chain: None,
            },
        ),
        PacketView::Pubrel(id) => match released(b, connection, id) {
            Some(p) => Ok(ServerEffectView { fire: None, chain: Some((p, Some(id))) }),
            None => match send_outcome(b, connection) {
                Ok(_) => Ok(nothing()),
                Err(e) => Err(e),
            },
        },
        PacketView::Connect(_) => Err(MqttError::Protocol(Violation::SessionAlreadyBound)),
        _ => Ok(nothing()),
    }
}

/// What a function returns, given what the model says.
pub open spec fn returns_effect(
    want: Result<ServerEffectView, MqttError>,
    got: Result<ServerEffect, MqttError>,
) -> bool {
    match want {
        Ok(v) => got matches Ok(e) && e@ == v,
        Err(e) => got == Err::<ServerEffect, MqttError>(e),
    }
}

/// Nothing is left to do, unless sending has failed.
fn done(sent: Result<(), MqttError>) -> (r: Result<ServerEffect, MqttError>)
    ensures
        match sent {
            Ok(_) => r matches Ok(e) && e@ == nothing(),
            Err(e) => r == Err::<ServerEffect, MqttError>(e),
        },
{
    match sent {
        Ok(_) => Ok(ServerEffect { fire: None, chain: None }),
        Err(e) => Err(e),
    }
}

fn on_publish(broker: &mut Broker, connection: u64, publish: PublishPacket) -> (r: Result<
    ServerEffect,
    MqttError,
>)
    ensures
        forall|client: Seq<char>|
            #![trigger inbound_result(
                old(broker)@,
                connection,
                client,
                PacketView::Publish(publish@),
            )]
            returns_effect(
                inbound_result(
                    old(broker)@,
                    connection,
                    client,
                    PacketView::Publish(publish@),
                ),
                r,
            ),
        final(broker)@ == on_connection(
            old(broker)@,
            connection,
            inbound::acknowledged(old(broker)@.channels[connection], publish@),
        ),
{
    match broker.detach(connection) {
        Some(c) => {
            let mut channel = c;
            let acked = inbound::ack_inbound_publish_pre_chain(&mut channel, &publish);
            broker.attach(connection, channel);
            assert(broker@ =~= on_connection(
                old(broker)@,
                connection,
                inbound::acknowledged(old(broker)@.channels[connection], publish@),
            ));
            match acked {
                Ok(_) => {},
                Err(e) => {
                    return Err(e);
                },
            }
        },
        None => {
            assert(broker@.channels =~= old(broker)@.channels);
            if publish.qos != QoS::AtMostOnce && publish.packet_id.is_some() {
                return Err(MqttError::ChannelClosed);
            }
        },
    }
    // At QoS 2 the publish is kept; PUBREL brings it to the endpoints.
    if publish.qos == QoS::ExactlyOnce {
        return Ok(ServerEffect { fire: None, chain: None });
    }
    Ok(ServerEffect { fire: None, chain: Some(ChainJob { publish, pubcomp: None }) })
}

fn on_subscribe(
    broker: &mut Broker,
    connection: u64,
    client_id: &Arc<str>,
    s: SubscribePacket,
) -> (r: Result<ServerEffect, MqttError>)
    ensures
        returns_effect(
            inbound_result(
                old(broker)@,
                connection,
                wire::text(*client_id),
                PacketView::Subscribe(s@),
            ),
            r,
        ),
        final(broker)@ == after_inbound(
            old(broker)@,
            connection,
            wire::text(*client_id),
            PacketView::Subscribe(s@),
        ),
{
    let ghost client = wire::text(*client_id);
    let mut filters: Vec<TopicFilter> = Vec::new();
    let mut i: usize = 0;
    while i < s.subscriptions.len()
        invariant
            i <= s.subscriptions@.len(),
            filters@.len() == i,
            forall|j: int| 0 <= j < i ==> (#[trigger] filters@[j])@ == s.subscriptions@[j]@,
        decreases s.subscriptions@.len() - i,
    {
        let ts = &s.subscriptions[i];
        filters.push(TopicFilter { filter: ts.topic.clone(), qos: ts.qos });
        i += 1;
    }
    assert(broker::filter_views(filters@) =~= s@.subscriptions);
    let codes = broker.subscribe(client_id, filters.as_slice());
    assert(codes@ =~= suback_codes(old(broker)@, client, s@.subscriptions)) by {
        assert forall|j: int| 0 <= j < codes@.len() implies codes@[j] == suback_codes(
            old(broker)@,
            client,
            s@.subscriptions,
        )[j] by {
            assert(filters@[j]@ == s@.subscriptions[j]);
        }
    }
    proof {
        if old(broker)@.sessions.contains_key(client) {
            subscribing_keeps_connections(old(broker)@, client, s@.subscriptions);
        }
    }
    done(
        send_on(
            broker,
            connection,
            Packet::Suback(SubackPacket { packet_id: s.packet_id, return_codes: codes }),
        ),
    )
}

fn on_unsubscribe(
    broker: &mut Broker,
    connection: u64,
    client_id: &Arc<str>,
    u: UnsubscribePacket,
) -> (r: Result<ServerEffect, MqttError>)
    ensures
        returns_effect(
            inbound_result(
                old(broker)@,
                connection,
                wire::text(*client_id),
                PacketView::Unsubscribe(u@),
            ),
            r,
        ),
        final(broker)@ == after_inbound(
            old(broker)@,
            connection,
            wire::text(*client_id),
            PacketView::Unsubscribe(u@),
        ),
{
    let ghost client = wire::text(*client_id);
    broker.unsubscribe(client_id, u.topics.as_slice());
    let mut reason_codes: Vec<u8> = Vec::new();
    let mut i: usize = 0;
    while i < u.topics.len()
        invariant
            i <= u.topics@.len(),
            reason_codes@.len() == i,
            forall|j: int| 0 <= j < i ==> reason_codes@[j] == 0,
        decreases u.topics@.len() - i,
    {
        reason_codes.push(0x00);
        i += 1;
    }
    assert(reason_codes@ =~= u@.topics.map_values(|t: Seq<char>| 0u8));
    proof {
        if old(broker)@.sessions.contains_key(client) {
            unsubscribing_keeps_connections(old(broker)@, client, u@.topics);
        }
    }
    done(
        send_on(
            broker,
            connection,
            Packet::Unsuback(UnsubackPacket { packet_id: u.packet_id, reason_codes }),
        ),
    )
}

fn on_pubrel(broker: &mut Broker, connection: u64, id: PacketId) -> (r: Result<
    ServerEffect,
    MqttError,
>)
    ensures
        match released(old(broker)@, connection, id) {
            Some(p) => {
                &&& r matches Ok(e) && e@ == (ServerEffectView {
                    fire: None,
                    chain: Some((p, Some(id))),
                })
                &&& final(broker)@ == old(broker)@.with_channel(
                    connection,
                    after_release(old(broker)@.channels[connection], id),
                )
            },
            None => {
                &&& match send_outcome(old(broker)@, connection) {
                    Ok(_) => r matches Ok(e) && e@ == nothing(),
                    Err(e) => r == Err::<ServerEffect, MqttError>(e),
                }
                &&& final(broker)@ == old(broker)@.sent(
                    connection,
                    WriteView::Packet(PacketView::Pubcomp(id)),
                )
            },
        },
{
    let stored = match broker.detach(connection) {
        Some(c) => {
            let mut channel = c;
            let ghost was = channel@;
            let stored = channel.session_mut().release_inbound(id);
            broker.attach(connection, channel);
            proof {
                assert(channel@ =~= after_release(was, id));
                if stored is None {
                    assert(was.session.qos2_recv.remove(id) =~= was.session.qos2_recv);
                    assert(channel@ =~= was);
                    assert(broker@ =~= old(broker)@);
                } else {
                    assert(broker@ =~= old(broker)@.with_channel(
                        connection,
                        after_release(was, id),
                    ));
                }
            }
            stored
        },
        None => {
            assert(broker@ =~= old(broker)@);
            None
        },
    };
    match stored {
        Some(p) => {
            let publish = PublishPacket {
                properties: p.properties,
                topic: p.topic,
                payload: p.payload,
                dup: false,
                qos: p.qos,
                retain: p.retain,
                packet_id: Some(id),
            };
            Ok(ServerEffect { fire: None, chain: Some(ChainJob { publish, pubcomp: Some(id) }) })
        },
        None => done(send_on(broker, connection, Packet::Pubcomp(id))),
    }
}

fn on_ack(broker: &mut Broker, client_id: &str, id: PacketId) -> (r: ServerEffect)
    ensures
        r@ == (ServerEffectView {
            fire: match broker::connection_of(old(broker)@, client_id@) {
                Some(n) => inbound::ack_delivery(
                    inbound::slot_of(old(broker)@.channels[n], id),
                    inbound::AckKind::Puback,
                    id,
                ),
                None => None,
            },
            chain: None,
        }),
        final(broker)@ == (match broker::connection_of(old(broker)@, client_id@) {
            Some(n) => old(broker)@.with_channel(
                n,
                broker::after_ack(old(broker)@.channels[n], id),
            ),
            None => old(broker)@,
        }),
{
    let fire = match broker.ack_outbound(client_id, id) {
        Some(AckSlot::Puback(tx)) => Some(Delivery::Id(tx, id)),
        _ => None,
    };
    ServerEffect { fire, chain: None }
}

/// Takes in a packet from a client that has been welcomed. On an error it is up
/// to the caller to tear the session down.
pub fn dispatch_server_inbound(
    broker: &mut Broker,
    connection: u64,
    client_id: &Arc<str>,
    packet: Packet,
) -> (r: Result<ServerEffect, MqttError>)
    ensures
        returns_effect(
            inbound_result(old(broker)@, connection, wire::text(*client_id), packet@),
            r,
        ),
        final(broker)@ == after_inbound(
            old(broker)@,
            connection,
            wire::text(*client_id),
            packet@,
        ),
{
    match packet {
        Packet::Publish(publish) => on_publish(broker, connection, publish),
        Packet::Subscribe(s) => on_subscribe(broker, connection, client_id, s),
        Packet::Unsubscribe(u) => on_unsubscribe(broker, connection, client_id, u),
        Packet::Pingreq => done(send_on(broker, connection, Packet::Pingresp)),
        Packet::Puback(id) => Ok(on_ack(broker, &**client_id, id)),
        Packet::Pubrec(id) => done(send_on(broker, connection, Packet::Pubrel(id))),
        Packet::Pubcomp(id) => Ok(on_ack(broker, &**client_id, id)),
        Packet::Pubrel(id) => on_pubrel(broker, connection, id),
        Packet::Connect(_) => Err(MqttError::Protocol(Violation::SessionAlreadyBound)),
        // What else a client may send is of no meaning here.
        _ => Ok(ServerEffect { fire: None, chain: None }),
    }
}

/// Subscribing touches no connection.
pub proof fn subscribing_keeps_connections(
    b: BrokerView,
    client: Seq<char>,
    filters: Seq<(Seq<char>, QoS)>,
)
    ensures
        broker::all_subscribed(b, client, filters).channels == b.channels,
    decreases filters.len(),
{
    if filters.len() > 0 {
        subscribing_keeps_connections(b, client, filters.drop_last());
    }
}

/// Unsubscribing touches no connection.
pub proof fn unsubscribing_keeps_connections(
    b: BrokerView,
    client: Seq<char>,
    topics: Seq<Seq<char>>,
)
    ensures
        broker::all_unsubscribed(b, client, topics).channels == b.channels,
    decreases topics.len(),
{
    if topics.len() > 0 {
        unsubscribing_keeps_connections(b, client, topics.drop_last());
    }
}

// ----------------------------------------------------------------------------
// After the endpoints
// ----------------------------------------------------------------------------

/// `mid` is what the endpoints leave: the publish has gone to the subscribers,
/// unless they kept it from them.
pub open spec fn chain_left(
    before: BrokerView,
    mid: BrokerView,
    client: Seq<char>,
    fanout: Option<PublishView>,
) -> bool {
    match fanout {
        Some(p) => broker::published(before, mid, client, p),
        None => mid == before,
    }
}

/// `after` and `r` are what taking in the outcome of the endpoints leaves and
/// returns: the publish goes to the subscribers first, PUBCOMP comes last.
pub open spec fn chain_taken_in(
    before: BrokerView,
    after: BrokerView,
    connection: u64,
    client: Seq<char>,
    pubcomp: Option<PacketId>,
    fanout: Option<PublishView>,
    r: Result<(), MqttError>,
) -> bool {
    exists|mid: BrokerView| #[trigger]
        chain_left(before, mid, client, fanout) && (match pubcomp {
            Some(id) => after == mid.sent(
                connection,
                WriteView::Packet(PacketView::Pubcomp(id)),
            ) && r == send_outcome(mid, connection),
            None => after == mid && r == Ok::<(), MqttError>(()),
        })
}

/// `after` is what a turn of the loop leaves: a session whose PUBCOMP cannot be
/// sent is torn down, without a goodbye.
pub open spec fn chain_ended(
    before: BrokerView,
    after: BrokerView,
    connection: u64,
    client: Seq<char>,
    pubcomp: Option<PacketId>,
    fanout: Option<PublishView>,
    r: Result<(), MqttError>,
) -> bool {
    exists|mid: BrokerView| #[trigger]
        chain_taken_in(before, mid, connection, client, pubcomp, fanout, r) && (match r {
            Ok(_) => after == mid,
            Err(_) => broker::unregistered(mid, after, client, false),
        })
}

/// The view of an optional publish.
pub open spec fn opt_publish(p: Option<PublishPacket>) -> Option<PublishView> {
    match p {
        Some(p) => Some(p@),
        None => None,
    }
}

/// Takes in what the endpoints have made of a publish. On an error it is up to
/// the caller to tear the session down.
pub fn finish_chain(
    broker: &mut Broker,
    connection: u64,
    client_id: &str,
    pubcomp: Option<PacketId>,
    fanout: Option<PublishPacket>,
) -> (r: Result<(), MqttError>)
    ensures
        chain_taken_in(
            old(broker)@,
            final(broker)@,
            connection,
            client_id@,
            pubcomp,
            opt_publish(fanout),
            r,
        ),
{
    if let Some(p) = fanout {
        broker.publish(client_id, p);
    }
    assert(chain_left(old(broker)@, broker@, client_id@, opt_publish(fanout)));
    match pubcomp {
        Some(id) => send_on(broker, connection, Packet::Pubcomp(id)),
        None => Ok(()),
    }
}

// ----------------------------------------------------------------------------
// The loop
// ----------------------------------------------------------------------------

/// What can happen while a server waits for a packet.
pub enum ServerEvent {
    Read(ReadOutcome),
    /// The channel has been closed from elsewhere.
    Shutdown,
}

/// What a server does next.
pub enum ServerStep {
    Continue(ServerEffect),
    /// The connection has ended.
    Break,
}

/// How a wait for a packet turns out.
pub enum Wait {
    /// A packet is to be taken in.
    Take(PacketView),
    /// The connection has ended; whether the client has said goodbye.
    End(bool),
    Fail(MqttError),
}

/// How what has happened turns out. A keep-alive that has run out and a wire
/// that is gone end the connection without a goodbye.
pub open spec fn wait_of(event: ServerEvent) -> Wait {
    match event {
        ServerEvent::Shutdown => Wait::End(false),
        ServerEvent::Read(ReadOutcome::TimedOut) => Wait::End(false),
        ServerEvent::Read(ReadOutcome::Failed(e)) => match e {
            MqttError::Io(_) => Wait::End(false),
            _ => Wait::Fail(e),
        },
        ServerEvent::Read(ReadOutcome::Packet(p)) => match p@ {
            PacketView::Disconnect => Wait::End(true),
            v => Wait::Take(v),
        },
    }
}

impl ServerSession {
    pub fn client_id(&self) -> (r: &Arc<str>)
        ensures
            wire::text(*r) == self@.client_id,
    {
        &self.client_id
    }

    /// How long to wait for the next packet, in seconds; `None` when the channel
    /// is closed and the loop ends.
    pub fn next_read(&self, broker: &Broker) -> (r: Option<u64>)
        ensures
            r == (if broker@.channels.contains_key(self@.connection)
                && broker@.channels[self@.connection].open {
                Some(self@.read_timeout_secs)
            } else {
                None
            }),
    {
        if broker.is_open(self.connection) {
            Some(self.read_timeout_secs)
        } else {
            None
        }
    }

    /// Takes in what has happened. An error ends the connection at once: the
    /// session is torn down, without a goodbye.
    pub fn on_event(&mut self, broker: &mut Broker, event: ServerEvent) -> (r: Result<
        ServerStep,
        MqttError,
    >)
        ensures
            match wait_of(event) {
                Wait::End(graceful) => {
                    &&& r matches Ok(ServerStep::Break)
                    &&& final(self)@ == (ServerSessionView {
                        graceful: old(self)@.graceful || graceful,
                        ..old(self)@
                    })
                    &&& final(broker)@ == old(broker)@
                },
                Wait::Fail(e) => {
                    &&& r == Err::<ServerStep, MqttError>(e)
                    &&& final(self)@ == old(self)@
                    &&& broker::unregistered(
                        old(broker)@,
                        final(broker)@,
                        old(self)@.client_id,
                        false,
                    )
                },
                Wait::Take(p) => {
                    let (connection, client) = (old(self)@.connection, old(self)@.client_id);
                    let taken = after_inbound(old(broker)@, connection, client, p);
                    &&& match inbound_result(old(broker)@, connection, client, p) {
                        Ok(v) => {
                            &&& r matches Ok(ServerStep::Continue(e)) && e@ == v
                            &&& final(broker)@ == taken
                        },
                        Err(e) => {
                            &&& r == Err::<ServerStep, MqttError>(e)
                            &&& broker::unregistered(taken, final(broker)@, client, false)
                        },
                    }
                    &&& final(self)@ == old(self)@
                },
            },
    {
        match event {
            ServerEvent::Shutdown => Ok(ServerStep::Break),
            ServerEvent::Read(ReadOutcome::TimedOut) => Ok(ServerStep::Break),
            ServerEvent::Read(ReadOutcome::Failed(MqttError::Io(_))) => Ok(ServerStep::Break),
            ServerEvent::Read(ReadOutcome::Failed(e)) => {
                broker.unregister_session(&*self.client_id, false);
                Err(e)
            },
            ServerEvent::Read(ReadOutcome::Packet(Packet::Disconnect)) => {
                self.graceful = true;
                Ok(ServerStep::Break)
            },
            ServerEvent::Read(ReadOutcome::Packet(p)) => match dispatch_server_inbound(
                broker,
                self.connection,
                &self.client_id,
                p,
            ) {
                Ok(e) => Ok(ServerStep::Continue(e)),
                Err(e) => {
                    broker.unregister_session(&*self.client_id, false);
                    Err(e)
                },
            },
        }
    }

    /// Takes in what the endpoints have made of a publish. An error ends the
    /// connection at once: the session is torn down, without a goodbye.
    pub fn on_chain(
        &self,
        broker: &mut Broker,
        pubcomp: Option<PacketId>,
        fanout: Option<PublishPacket>,
    ) -> (r: Result<(), MqttError>)
        ensures
            chain_ended(
                old(broker)@,
                final(broker)@,
                self@.connection,
                self@.client_id,
                pubcomp,
                opt_publish(fanout),
                r,
            ),
    {
        let r = finish_chain(broker, self.connection, &*self.client_id, pubcomp, fanout);
        let ghost mid = broker@;
        assert(chain_taken_in(
            old(broker)@,
            mid,
            self@.connection,
            self@.client_id,
            pubcomp,
            opt_publish(fanout),
            r,
        ));
        if r.is_err() {
            broker.unregister_session(&*self.client_id, false);
        }
        r
    }

    /// Ends the session after the loop. The will is published unless the client
    /// has said goodbye.
    pub fn finish(&self, broker: &mut Broker)
        ensures
            broker::unregistered(
                old(broker)@,
                final(broker)@,
                self@.client_id,
                self@.graceful,
            ),
    {
        broker.unregister_session(&*self.client_id, self.graceful);
    }
}

} // verus!
