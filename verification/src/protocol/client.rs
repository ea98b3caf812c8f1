//! The client side of a connection: CONNECT, CONNACK, the initial
//! subscriptions, then packets until the connection ends.

use tokio::sync::oneshot;
use vstd::prelude::*;

use crate::channel;
use crate::channel::{ChannelView, MqttChannel, WriteView};
use crate::client;
use crate::client::MqttClientConfig;
use crate::error::{MqttError, TimeoutKind, Violation};
use crate::packet::{ConnackReturnCode, Packet, PacketView, PublishView};
use crate::protocol::inbound;
use crate::protocol::inbound::{AckKind, Delivery, ReadOutcome, ReadView};
use crate::protocol::outbound;
use crate::protocol::outbound::AckOutcome;
use crate::request::{IncomingPublish, PacketId, QoS, SubackCode};
use crate::session;
use crate::session::{AckSlot, BindInfo, BindView, SessionView};
use crate::wire;

verus! {

// ----------------------------------------------------------------------------
// The handshake
// ----------------------------------------------------------------------------

/// The channel after CONNECT has been sent.
pub open spec fn after_connect(c: ChannelView, config: client::ConfigView) -> ChannelView {
    (ChannelView { version: config.protocol_version, ..c }).sent(
        WriteView::Packet(PacketView::Connect(client::connect_of(config))),
    )
}

/// Fixes the version of the connection and sends CONNECT.
pub fn send_connect(channel: &mut MqttChannel, config: &MqttClientConfig) -> (r: Result<
    (),
    MqttError,
>)
    ensures
        r == channel::send_result(old(channel)@),
        final(channel)@ == after_connect(old(channel)@, config@),
{
    let connect = client::build_connect(config);
    channel.set_protocol_version(connect.version);
    channel.send_packet(Packet::Connect(Box::new(connect)))
}

/// What the answer to CONNECT comes to.
pub open spec fn connack_result(read: ReadView) -> Result<(), MqttError> {
    match read {
        ReadView::TimedOut => Err(MqttError::Timeout(TimeoutKind::Connack)),
        ReadView::Failed(e) => Err(e),
        ReadView::Packet(PacketView::Connack(c)) => if c.return_code
            == ConnackReturnCode::Accepted {
            Ok(())
        } else {
            Err(MqttError::Protocol(Violation::ConnectionRefused(c.return_code)))
        },
        ReadView::Packet(_) => Err(MqttError::Protocol(Violation::ExpectedConnack)),
    }
}

/// Takes in the answer to CONNECT. When the server accepts, the session is
/// bound.
pub fn accept_connack(channel: &mut MqttChannel, config: &MqttClientConfig, read: ReadOutcome) -> (r:
    Result<(), MqttError>)
    ensures
        r == connack_result(read@),
        final(channel)@ == (if connack_result(read@) is Ok {
            old(channel)@.with_session(
                old(channel)@.session.bound(
                    BindView {
                        client_id: config@.client_id,
                        keep_alive: config@.keep_alive_secs,
                    },
                ),
            )
        } else {
            old(channel)@
        }),
{
    match read {
        ReadOutcome::Packet(Packet::Connack(ack)) => {
            if ack.return_code != ConnackReturnCode::Accepted {
                return Err(MqttError::Protocol(Violation::ConnectionRefused(ack.return_code)));
            }
        },
        ReadOutcome::Packet(_) => {
            return Err(MqttError::Protocol(Violation::ExpectedConnack));
        },
        ReadOutcome::Failed(e) => {
            return Err(e);
        },
        ReadOutcome::TimedOut => {
            return Err(MqttError::Timeout(TimeoutKind::Connack));
        },
    }
    channel.session_mut().bind_to(
        BindInfo { client_id: config.client_id.clone(), keep_alive: config.keep_alive_secs },
    );
    Ok(())
}

/// Sends the initial subscriptions, if there are any. The answer goes to `tx`
/// under the packet identifier that is returned.
pub fn send_initial_subscriptions(
    channel: &mut MqttChannel,
    config: &MqttClientConfig,
    tx: oneshot::Sender<Vec<SubackCode>>,
) -> (r: Result<Option<PacketId>, MqttError>)
    ensures
        config@.initial_subscriptions.len() == 0 ==> r == Ok::<Option<PacketId>, MqttError>(None)
            && final(channel)@ == old(channel)@,
        config@.initial_subscriptions.len() > 0 ==> {
            &&& r == (match channel::send_result(old(channel)@) {
                Ok(_) => Ok(Some(session::next_id(old(channel)@.session.pkt_counter))),
                Err(e) => Err::<Option<PacketId>, MqttError>(e),
            })
            &&& final(channel)@ == outbound::after_subscribe(
                old(channel)@,
                config@.initial_subscriptions,
                tx,
            )
        },
{
    if config.initial_subscriptions.len() == 0 {
        return Ok(None);
    }
    let subscriptions = outbound::subscriptions_of(&config.initial_subscriptions);
    match outbound::request_subscriptions(channel, subscriptions, tx) {
        Ok(id) => Ok(Some(id)),
        Err(e) => Err(e),
    }
}

/// What the answer to the initial subscriptions comes to.
pub fn accept_initial_suback(outcome: AckOutcome<Vec<SubackCode>>) -> (r: Result<(), MqttError>)
    ensures
        r == (match outcome {
            AckOutcome::Received(_) => Ok::<(), MqttError>(()),
            AckOutcome::Dropped => Err(MqttError::ChannelClosed),
            AckOutcome::TimedOut => Err(MqttError::Timeout(TimeoutKind::Ack)),
        }),
{
    match outcome {
        AckOutcome::Received(_) => Ok(()),
        AckOutcome::Dropped => Err(MqttError::ChannelClosed),
        AckOutcome::TimedOut => Err(MqttError::Timeout(TimeoutKind::Ack)),
    }
}

/// How often a client pings, in seconds: once per keep-alive, which counts as a
/// second at least.
pub fn ping_interval_secs(config: &MqttClientConfig) -> (r: u64)
    ensures
        r == (if config@.keep_alive_secs == 0 {
            1
        } else {
            config@.keep_alive_secs
        }),
{
    if config.keep_alive_secs == 0 {
        1
    } else {
        config.keep_alive_secs as u64
    }
}

// ----------------------------------------------------------------------------
// Inbound packets
// ----------------------------------------------------------------------------

/// What is left to do after a client has taken in what has happened, in this
/// order: tell an operation of its acknowledgement, hand a publish to the
/// endpoints, then go on, end the loop (`true`), or fail.
pub struct ClientTurn {
    pub fire: Option<Delivery>,
    pub deliver: Option<IncomingPublish>,
    pub outcome: Result<bool, MqttError>,
}

/// The view of an optional inbound publish.
pub open spec fn opt_incoming(p: Option<IncomingPublish>) -> Option<PublishView> {
    match p {
        Some(p) => Some(p@),
        None => None,
    }
}

/// The channel after an outbound operation has been acknowledged.
pub open spec fn after_final_ack(c: ChannelView, id: PacketId) -> ChannelView {
    c.with_session(
        SessionView {
            pending_acks: c.session.pending_acks.remove(id),
            outbound_inflight: c.session.outbound_inflight.remove(id),
            ..c.session
        },
    )
}

/// The channel after a kept publish has been taken out.
pub open spec fn after_release(c: ChannelView, id: PacketId) -> ChannelView {
    c.with_session(SessionView { qos2_recv: c.session.qos2_recv.remove(id), ..c.session })
}

/// The channel after an inbound packet has been taken in.
pub open spec fn after_inbound(c: ChannelView, p: PacketView) -> ChannelView {
    match p {
        PacketView::Publish(p) => inbound::acknowledged(c, p),
        PacketView::Puback(id) | PacketView::Pubcomp(id) => after_final_ack(c, id),
        PacketView::Pubrec(id) => inbound::slot_taken(c, id).sent(
            WriteView::Packet(PacketView::Pubrel(id)),
        ),
        PacketView::Pubrel(id) => after_release(c, id).sent(
            WriteView::Packet(PacketView::Pubcomp(id)),
        ),
        PacketView::Suback(s) => inbound::slot_taken(c, s.packet_id),
        PacketView::Unsuback(u) => inbound::slot_taken(c, u.packet_id),
        _ => c,
    }
}

/// The operation that an inbound packet acknowledges.
pub open spec fn inbound_fire(c: ChannelView, p: Packet) -> Option<Delivery> {
    match p {
        Packet::Puback(id) => inbound::ack_delivery(
            inbound::slot_of(c, id),
            AckKind::Puback,
            id,
        ),
        Packet::Pubrec(id) => inbound::ack_delivery(
            inbound::slot_of(c, id),
            AckKind::Pubrec,
            id,
        ),
        Packet::Pubcomp(id) => inbound::ack_delivery(
            inbound::slot_of(c, id),
            AckKind::Pubcomp,
            id,
        ),
        Packet::Suback(s) => match inbound::slot_of(c, s.packet_id) {
            Some(AckSlot::Suback(tx)) => Some(Delivery::Codes(tx, s.return_codes)),
            _ => None,
        },
        Packet::Unsuback(u) => match inbound::slot_of(c, u.packet_id) {
            Some(AckSlot::Unsuback(tx)) => Some(Delivery::Done(tx)),
            _ => None,
        },
        _ => None,
    }
}

/// The publish that an inbound packet brings to the endpoints.
pub open spec fn inbound_deliver(c: ChannelView, p: PacketView) -> Option<PublishView> {
    match p {
        PacketView::Publish(p) => if p.qos != QoS::ExactlyOnce && inbound::acknowledge_result(
            c,
            p,
        ) is Ok {
            Some(p)
        } else {
            None
        },
        PacketView::Pubrel(id) => if c.session.qos2_recv.contains_key(id) {
            Some(c.session.qos2_recv[id])
        } else {
            None
        },
        _ => None,
    }
}

/// Whether the loop ends with an inbound packet.
pub open spec fn inbound_outcome(c: ChannelView, p: PacketView) -> Result<bool, MqttError> {
    match p {
        PacketView::Publish(p) => match inbound::acknowledge_result(c, p) {
            Ok(_) => Ok(false),
            Err(e) => Err(e),
        },
        PacketView::Pubrec(_) | PacketView::Pubrel(_) => match channel::send_result(c) {
            Ok(_) => Ok(false),
            Err(e) => Err(e),
        },
        PacketView::Disconnect => Ok(true),
        _ => Ok(false),
    }
}

/// The loop goes on, unless sending has failed.
fn goes_on(sent: Result<(), MqttError>) -> (r: Result<bool, MqttError>)
    ensures
        r == (match sent {
            Ok(_) => Ok::<bool, MqttError>(false),
            Err(e) => Err(e),
        }),
{
    match sent {
        Ok(_) => Ok(false),
        Err(e) => Err(e),
    }
}

/// Takes in a packet from the server.
pub fn dispatch_client_inbound(channel: &mut MqttChannel, packet: Packet) -> (r: ClientTurn)
    ensures
        r.fire == inbound_fire(old(channel)@, packet),
        opt_incoming(r.deliver) == inbound_deliver(old(channel)@, packet@),
        r.outcome == inbound_outcome(old(channel)@, packet@),
        final(channel)@ == after_inbound(old(channel)@, packet@),
{
    match packet {
        Packet::Publish(publish) => {
            // The acknowledgement goes out before the endpoints see the publish.
            let acked = inbound::ack_inbound_publish_pre_chain(channel, &publish);
            let deliver = if acked.is_ok() && publish.qos != QoS::ExactlyOnce {
                Some(crate::broker::incoming_from_packet(&publish))
            } else {
                None
            };
            ClientTurn { fire: None, deliver, outcome: goes_on(acked) }
        },
        Packet::Puback(id) => {
            let fire = inbound::fire_ack(channel, id, AckKind::Puback);
            let _ = channel.session_mut().release_outbound(id);
            assert(channel@ =~= after_final_ack(old(channel)@, id));
            ClientTurn { fire, deliver: None, outcome: Ok(false) }
        },
        Packet::Pubrec(id) => {
            let fire = inbound::fire_ack(channel, id, AckKind::Pubrec);
            let sent = channel.send_packet(Packet::Pubrel(id));
            ClientTurn { fire, deliver: None, outcome: goes_on(sent) }
        },
        Packet::Pubcomp(id) => {
            let fire = inbound::fire_ack(channel, id, AckKind::Pubcomp);
            let _ = channel.session_mut().release_outbound(id);
            assert(channel@ =~= after_final_ack(old(channel)@, id));
            ClientTurn { fire, deliver: None, outcome: Ok(false) }
        },
        Packet::Pubrel(id) => {
            let deliver = channel.session_mut().release_inbound(id);
            let sent = channel.send_packet(Packet::Pubcomp(id));
            ClientTurn { fire: None, deliver, outcome: goes_on(sent) }
        },
        Packet::Suback(s) => {
            let fire = inbound::fire_suback(channel, s);
            ClientTurn { fire, deliver: None, outcome: Ok(false) }
        },
        Packet::Unsuback(u) => {
            let fire = inbound::fire_unsuback(channel, u.packet_id);
            ClientTurn { fire, deliver: None, outcome: Ok(false) }
        },
        Packet::Disconnect => ClientTurn { fire: None, deliver: None, outcome: Ok(true) },
        // What else a server may send is of no meaning here.
        _ => ClientTurn { fire: None, deliver: None, outcome: Ok(false) },
    }
}

// ----------------------------------------------------------------------------
// The loop
// ----------------------------------------------------------------------------

/// What can happen while a client waits.
pub enum ClientEvent {
    Packet(Packet),
    ReadFailed(MqttError),
    /// It is time for a ping.
    PingDue,
    /// The channel has been closed from elsewhere.
    Shutdown,
}

/// Takes in what has happened. A wire that is gone ends the loop, and so does a
/// ping that cannot be sent.
pub fn on_event(channel: &mut MqttChannel, event: ClientEvent) -> (r: ClientTurn)
    ensures
        match event {
            ClientEvent::Packet(p) => {
                &&& r.fire == inbound_fire(old(channel)@, p)
                &&& opt_incoming(r.deliver) == inbound_deliver(old(channel)@, p@)
                &&& r.outcome == inbound_outcome(old(channel)@, p@)
                &&& final(channel)@ == after_inbound(old(channel)@, p@)
            },
            ClientEvent::ReadFailed(e) => {
                &&& r.fire is None && r.deliver is None
                &&& r.outcome == (match e {
                    MqttError::Io(_) => Ok(true),
                    _ => Err::<bool, MqttError>(e),
                })
                &&& final(channel)@ == old(channel)@
            },
            ClientEvent::PingDue => {
                &&& r.fire is None && r.deliver is None
                &&& r.outcome == Ok::<bool, MqttError>(!old(channel)@.writing)
                &&& final(channel)@ == old(channel)@.sent(WriteView::Packet(PacketView::Pingreq))
            },
            ClientEvent::Shutdown => {
                &&& r.fire is None && r.deliver is None
                &&& r.outcome == Ok::<bool, MqttError>(true)
                &&& final(channel)@ == old(channel)@
            },
        },
{
    match event {
        ClientEvent::Packet(p) => dispatch_client_inbound(channel, p),
        ClientEvent::ReadFailed(MqttError::Io(_)) => ClientTurn {
            fire: None,
            deliver: None,
            outcome: Ok(true),
        },
        ClientEvent::ReadFailed(e) => ClientTurn { fire: None, deliver: None, outcome: Err(e) },
        ClientEvent::PingDue => {
            let sent = channel.send_packet(Packet::Pingreq);
            ClientTurn { fire: None, deliver: None, outcome: Ok(sent.is_err()) }
        },
        ClientEvent::Shutdown => ClientTurn { fire: None, deliver: None, outcome: Ok(true) },
    }
}

/// Says goodbye after the loop.
pub fn finish(channel: &mut MqttChannel)
    ensures
        final(channel)@ == old(channel)@.sent(WriteView::Packet(PacketView::Disconnect)),
{
    let _ = channel.send_packet(Packet::Disconnect);
}

} // verus!
