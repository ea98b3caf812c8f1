//! The operations of a client: publish, subscribe, unsubscribe.
//!
//! An operation starts by registering a slot for its acknowledgement and
//! sending its packet. What then comes of the slot is taken in by the function
//! that ends the operation, or its next phase.

use std::sync::Arc;

use tokio::sync::oneshot;
use vstd::prelude::*;

use crate::channel;
use crate::channel::{ChannelView, MqttChannel, WriteView};
use crate::error::{MqttError, TimeoutKind};
use crate::packet;
use crate::packet::{
    Packet, PacketView, PublishPacket, SubscribePacket, SubscribeView, TopicSubscription,
    UnsubscribePacket, UnsubscribeView,
};
use crate::properties::Properties;
use crate::protocol::inbound;
use crate::request::{
    MqttResponse, PacketId, PublishAck, PublishRequest, QoS, SubackCode, TopicFilter,
};
use crate::session;
use crate::session::{AckSlot, SessionView};

verus! {

/// What has come of waiting for an acknowledgement.
pub enum AckOutcome<T> {
    Received(T),
    /// The slot was dropped: the channel has closed.
    Dropped,
    TimedOut,
}

/// The channel after a slot has been registered under the next packet
/// identifier.
pub open spec fn awaiting(c: ChannelView, slot: AckSlot) -> ChannelView {
    let id = session::next_id(c.session.pkt_counter);
    c.with_session(
        SessionView {
            pending_acks: c.session.pending_acks.insert(id, slot),
            ..c.session.counted()
        },
    )
}

/// The channel after a wait has ended. A slot whose time has run out is taken
/// back.
pub open spec fn after_wait<T>(c: ChannelView, id: PacketId, outcome: AckOutcome<T>) -> ChannelView {
    match outcome {
        AckOutcome::TimedOut => inbound::slot_taken(c, id),
        _ => c,
    }
}

/// What a wait has brought.
pub open spec fn waited<T>(outcome: AckOutcome<T>) -> Result<T, MqttError> {
    match outcome {
        AckOutcome::Received(v) => Ok(v),
        AckOutcome::Dropped => Err(MqttError::ChannelClosed),
        AckOutcome::TimedOut => Err(MqttError::Timeout(TimeoutKind::Ack)),
    }
}

fn end_wait<T>(channel: &mut MqttChannel, id: PacketId, outcome: AckOutcome<T>) -> (r: Result<
    T,
    MqttError,
>)
    ensures
        r == waited(outcome),
        final(channel)@ == after_wait(old(channel)@, id, outcome),
{
    match outcome {
        AckOutcome::Received(v) => Ok(v),
        AckOutcome::Dropped => Err(MqttError::ChannelClosed),
        AckOutcome::TimedOut => {
            let _ = channel.session_mut().take_ack(id);
            Err(MqttError::Timeout(TimeoutKind::Ack))
        },
    }
}

// ----------------------------------------------------------------------------
// Publishing
// ----------------------------------------------------------------------------

/// How far a publish has come.
#[derive(Debug, Clone, Copy, PartialEq, Eq, Structural)]
pub enum PublishProgress {
    /// QoS 0: there is nothing to wait for.
    Sent,
    /// QoS 1: waits for PUBACK.
    AwaitPuback(PacketId),
    /// QoS 2: waits for PUBREC.
    AwaitPubrec(PacketId),
}

/// The packet identifier of a publish.
pub open spec fn publish_id(c: ChannelView, qos: QoS) -> Option<PacketId> {
    if qos == QoS::AtMostOnce {
        None
    } else {
        Some(session::next_id(c.session.pkt_counter))
    }
}

/// The channel after a publish has started.
pub open spec fn after_publish(
    c: ChannelView,
    req: PublishRequest,
    tx: oneshot::Sender<PacketId>,
) -> ChannelView {
    (match req.qos {
        QoS::AtMostOnce => c,
        QoS::AtLeastOnce => awaiting(c, AckSlot::Puback(tx)),
        QoS::ExactlyOnce => awaiting(c, AckSlot::Pubrec(tx)),
    }).sent(WriteView::Publish(req.publish(publish_id(c, req.qos))))
}

/// How far a publish has come once its packet is sent.
pub open spec fn progress(c: ChannelView, qos: QoS) -> PublishProgress {
    let id = session::next_id(c.session.pkt_counter);
    match qos {
        QoS::AtMostOnce => PublishProgress::Sent,
        QoS::AtLeastOnce => PublishProgress::AwaitPuback(id),
        QoS::ExactlyOnce => PublishProgress::AwaitPubrec(id),
    }
}

/// Starts a publish. At QoS 1 and 2 the slot stays registered when the packet
/// cannot be sent.
pub fn send_publish(
    channel: &mut MqttChannel,
    req: PublishRequest,
    tx: oneshot::Sender<PacketId>,
) -> (r: Result<PublishProgress, MqttError>)
    ensures
        r == (match channel::send_result(old(channel)@) {
            Ok(_) => Ok(progress(old(channel)@, req.qos)),
            Err(e) => Err::<PublishProgress, MqttError>(e),
        }),
        final(channel)@ == after_publish(old(channel)@, req, tx),
{
    let (packet_id, progress) = match req.qos {
        QoS::AtMostOnce => (None, PublishProgress::Sent),
        QoS::AtLeastOnce => {
            let session = channel.session_mut();
            let id: u16 = session.allocate_packet_id();
            session.await_ack(id, AckSlot::Puback(tx));
            (Some(id), PublishProgress::AwaitPuback(id))
        },
        QoS::ExactlyOnce => {
            let session = channel.session_mut();
            let id: u16 = session.allocate_packet_id();
            session.await_ack(id, AckSlot::Pubrec(tx));
            (Some(id), PublishProgress::AwaitPubrec(id))
        },
    };
    let packet = PublishPacket {
        properties: Properties::default(),
        topic: req.topic,
        payload: req.payload,
        dup: false,
        qos: req.qos,
        retain: req.retain,
        packet_id,
    };
    match channel.send_publish(packet) {
        Ok(_) => Ok(progress),
        Err(e) => Err(e),
    }
}

/// Ends a QoS 1 publish.
pub fn publish_acknowledged(
    channel: &mut MqttChannel,
    id: PacketId,
    outcome: AckOutcome<PacketId>,
) -> (r: Result<MqttResponse, MqttError>)
    ensures
        r == (match waited(outcome) {
            Ok(acked) => Ok(MqttResponse::Published(PublishAck::Acknowledged(acked))),
            Err(e) => Err::<MqttResponse, MqttError>(e),
        }),
        final(channel)@ == after_wait(old(channel)@, id, outcome),
{
    match end_wait(channel, id, outcome) {
        Ok(acked) => Ok(MqttResponse::Published(PublishAck::Acknowledged(acked))),
        Err(e) => Err(e),
    }
}

/// Goes on with a QoS 2 publish after PUBREC: PUBREL has been sent, PUBCOMP is
/// to come.
pub fn publish_received(
    channel: &mut MqttChannel,
    id: PacketId,
    outcome: AckOutcome<PacketId>,
    tx: oneshot::Sender<PacketId>,
) -> (r: Result<(), MqttError>)
    ensures
        r == (match waited(outcome) {
            Ok(_) => Ok::<(), MqttError>(()),
            Err(e) => Err(e),
        }),
        final(channel)@ == (match outcome {
            AckOutcome::Received(_) => old(channel)@.with_session(
                SessionView {
                    pending_acks: old(channel)@.session.pending_acks.insert(
                        id,
                        AckSlot::Pubcomp(tx),
                    ),
                    ..old(channel)@.session
                },
            ),
            _ => after_wait(old(channel)@, id, outcome),
        }),
{
    match end_wait(channel, id, outcome) {
        Ok(_) => {
            channel.session_mut().await_ack(id, AckSlot::Pubcomp(tx));
            Ok(())
        },
        Err(e) => Err(e),
    }
}

/// Ends a QoS 2 publish.
pub fn publish_completed(
    channel: &mut MqttChannel,
    id: PacketId,
    outcome: AckOutcome<PacketId>,
) -> (r: Result<MqttResponse, MqttError>)
    ensures
        r == (match waited(outcome) {
            Ok(done) => Ok(MqttResponse::Published(PublishAck::Completed(done))),
            Err(e) => Err::<MqttResponse, MqttError>(e),
        }),
        final(channel)@ == after_wait(old(channel)@, id, outcome),
{
    match end_wait(channel, id, outcome) {
        Ok(done) => Ok(MqttResponse::Published(PublishAck::Completed(done))),
        Err(e) => Err(e),
    }
}

// ----------------------------------------------------------------------------
// Subscribing
// ----------------------------------------------------------------------------

/// The channel after a subscription has started.
pub open spec fn after_subscribe(
    c: ChannelView,
    filters: Seq<(Seq<char>, QoS)>,
    tx: oneshot::Sender<Vec<SubackCode>>,
) -> ChannelView {
    awaiting(c, AckSlot::Suback(tx)).sent(
        WriteView::Packet(
            PacketView::Subscribe(
                SubscribeView {
                    packet_id: session::next_id(c.session.pkt_counter),
                    subscriptions: filters,
                },
            ),
        ),
    )
}

/// What a start returns: the packet identifier, when the packet was sent.
pub open spec fn started(c: ChannelView) -> Result<PacketId, MqttError> {
    match channel::send_result(c) {
        Ok(_) => Ok(session::next_id(c.session.pkt_counter)),
        Err(e) => Err(e),
    }
}

/// The subscriptions that a list of filters asks for.
pub fn subscriptions_of(filters: &Vec<TopicFilter>) -> (r: Vec<TopicSubscription>)
    ensures
        packet::subscription_views(r@) == filters@.map_values(|f: TopicFilter| f@),
{
    let mut subs: Vec<TopicSubscription> = Vec::new();
    let mut i: usize = 0;
    while i < filters.len()
        invariant
            i <= filters@.len(),
            subs@.len() == i,
            forall|j: int| 0 <= j < i ==> (#[trigger] subs@[j])@ == filters@[j]@,
        decreases filters@.len() - i,
    {
        let f = &filters[i];
        subs.push(TopicSubscription { topic: f.filter.clone(), qos: f.qos });
        i += 1;
    }
    assert(packet::subscription_views(subs@) =~= filters@.map_values(|f: TopicFilter| f@));
    subs
}

/// Registers the slot of a subscription and sends SUBSCRIBE.
pub fn request_subscriptions(
    channel: &mut MqttChannel,
    subscriptions: Vec<TopicSubscription>,
    tx: oneshot::Sender<Vec<SubackCode>>,
) -> (r: Result<PacketId, MqttError>)
    ensures
        r == started(old(channel)@),
        final(channel)@ == after_subscribe(
            old(channel)@,
            packet::subscription_views(subscriptions@),
            tx,
        ),
{
    let session = channel.session_mut();
    let packet_id: u16 = session.allocate_packet_id();
    session.await_ack(packet_id, AckSlot::Suback(tx));
    match channel.send_packet(Packet::Subscribe(SubscribePacket { packet_id, subscriptions })) {
        Ok(_) => Ok(packet_id),
        Err(e) => Err(e),
    }
}

/// Starts a subscription.
pub fn send_subscribe(
    channel: &mut MqttChannel,
    filters: Vec<TopicFilter>,
    tx: oneshot::Sender<Vec<SubackCode>>,
) -> (r: Result<PacketId, MqttError>)
    ensures
        r == started(old(channel)@),
        final(channel)@ == after_subscribe(
            old(channel)@,
            filters@.map_values(|f: TopicFilter| f@),
            tx,
        ),
{
    request_subscriptions(channel, subscriptions_of(&filters), tx)
}

/// Ends a subscription.
pub fn subscribe_acknowledged(
    channel: &mut MqttChannel,
    id: PacketId,
    outcome: AckOutcome<Vec<SubackCode>>,
) -> (r: Result<MqttResponse, MqttError>)
    ensures
        r == (match waited(outcome) {
            Ok(codes) => Ok(MqttResponse::Subscribed(codes)),
            Err(e) => Err::<MqttResponse, MqttError>(e),
        }),
        final(channel)@ == after_wait(old(channel)@, id, outcome),
{
    match end_wait(channel, id, outcome) {
        Ok(codes) => Ok(MqttResponse::Subscribed(codes)),
        Err(e) => Err(e),
    }
}

// ----------------------------------------------------------------------------
// Unsubscribing
// ----------------------------------------------------------------------------

/// The channel after unsubscribing has started.
pub open spec fn after_unsubscribe(
    c: ChannelView,
    topics: Seq<Seq<char>>,
    tx: oneshot::Sender<()>,
) -> ChannelView {
    awaiting(c, AckSlot::Unsuback(tx)).sent(
        WriteView::Packet(
            PacketView::Unsubscribe(
                UnsubscribeView { packet_id: session::next_id(c.session.pkt_counter), topics },
            ),
        ),
    )
}

/// Starts unsubscribing.
pub fn send_unsubscribe(
    channel: &mut MqttChannel,
    topics: Vec<Arc<str>>,
    tx: oneshot::Sender<()>,
) -> (r: Result<PacketId, MqttError>)
    ensures
        r == started(old(channel)@),
        final(channel)@ == after_unsubscribe(old(channel)@, packet::texts(topics@), tx),
{
    let session = channel.session_mut();
    let packet_id: u16 = session.allocate_packet_id();
    session.await_ack(packet_id, AckSlot::Unsuback(tx));
    match channel.send_packet(Packet::Unsubscribe(UnsubscribePacket { packet_id, topics })) {
        Ok(_) => Ok(packet_id),
        Err(e) => Err(e),
    }
}

/// Ends unsubscribing.
pub fn unsubscribe_acknowledged(channel: &mut MqttChannel, id: PacketId, outcome: AckOutcome<()>) -> (r:
    Result<MqttResponse, MqttError>)
    ensures
        r == (match waited(outcome) {
            Ok(_) => Ok(MqttResponse::Unsubscribed),
            Err(e) => Err::<MqttResponse, MqttError>(e),
        }),
        final(channel)@ == after_wait(old(channel)@, id, outcome),
{
    match end_wait(channel, id, outcome) {
        Ok(_) => Ok(MqttResponse::Unsubscribed),
        Err(e) => Err(e),
    }
}

} // verus!
