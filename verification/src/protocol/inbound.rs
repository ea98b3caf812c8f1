//! What both sides do with inbound packets.

use tokio::sync::oneshot;
use vstd::prelude::*;

use crate::broker;
use crate::channel;
use crate::channel::{ChannelView, MqttChannel, WriteView};
use crate::error::MqttError;
use crate::packet::{Packet, PacketView, PublishPacket, PublishView, SubackPacket};
use crate::request::{IncomingPublish, PacketId, QoS, SubackCode};
use crate::session::{AckSlot, SessionView};

verus! {

/// What reading a packet has come to.
pub enum ReadOutcome {
    Packet(Packet),
    Failed(MqttError),
    TimedOut,
}

/// The view of what reading a packet has come to.
pub enum ReadView {
    Packet(PacketView),
    Failed(MqttError),
    TimedOut,
}

impl View for ReadOutcome {
    type V = ReadView;

    open spec fn view(&self) -> ReadView {
        match self {
            ReadOutcome::Packet(p) => ReadView::Packet(p@),
            ReadOutcome::Failed(e) => ReadView::Failed(*e),
            ReadOutcome::TimedOut => ReadView::TimedOut,
        }
    }
}

// ----------------------------------------------------------------------------
// Acknowledging a publish
// ----------------------------------------------------------------------------

/// The channel after an inbound PUBLISH has been acknowledged: PUBACK at QoS 1,
/// PUBREC at QoS 2, where the PUBLISH is kept until PUBREL.
pub open spec fn acknowledged(c: ChannelView, p: PublishView) -> ChannelView {
    match (p.qos, p.packet_id) {
        (QoS::AtLeastOnce, Some(id)) => c.sent(WriteView::Packet(PacketView::Puback(id))),
        (QoS::ExactlyOnce, Some(id)) => c.with_session(
            SessionView { qos2_recv: c.session.qos2_recv.insert(id, p), ..c.session },
        ).sent(WriteView::Packet(PacketView::Pubrec(id))),
        _ => c,
    }
}

/// What acknowledging an inbound PUBLISH returns.
pub open spec fn acknowledge_result(c: ChannelView, p: PublishView) -> Result<(), MqttError> {
    if p.qos != QoS::AtMostOnce && p.packet_id is Some {
        channel::send_result(c)
    } else {
        Ok(())
    }
}

/// Acknowledges an inbound PUBLISH, before anything else is done with it.
pub fn ack_inbound_publish_pre_chain(channel: &mut MqttChannel, publish: &PublishPacket) -> (r:
    Result<(), MqttError>)
    ensures
        r == acknowledge_result(old(channel)@, publish@),
        final(channel)@ == acknowledged(old(channel)@, publish@),
{
    match publish.qos {
        QoS::AtMostOnce => Ok(()),
        QoS::AtLeastOnce => match publish.packet_id {
            Some(id) => channel.send_packet(Packet::Puback(id)),
            None => Ok(()),
        },
        QoS::ExactlyOnce => match publish.packet_id {
            Some(id) => {
                channel.session_mut().hold_inbound(id, broker::incoming_from_packet(publish));
                channel.send_packet(Packet::Pubrec(id))
            },
            None => Ok(()),
        },
    }
}

// ----------------------------------------------------------------------------
// Delivering acknowledgements
// ----------------------------------------------------------------------------

/// Which acknowledgement has come.
#[derive(Debug, Clone, Copy, PartialEq, Eq, Structural)]
pub enum AckKind {
    Puback,
    Pubrec,
    Pubcomp,
}

/// A waiting operation and what it is to be told.
pub enum Delivery {
    Id(oneshot::Sender<PacketId>, PacketId),
    Codes(oneshot::Sender<Vec<SubackCode>>, Vec<SubackCode>),
    Done(oneshot::Sender<()>),
}

/// The channel after the slot under an identifier has been taken out.
pub open spec fn slot_taken(c: ChannelView, id: PacketId) -> ChannelView {
    c.with_session(
        SessionView { pending_acks: c.session.pending_acks.remove(id), ..c.session },
    )
}

/// The slot under an identifier.
pub open spec fn slot_of(c: ChannelView, id: PacketId) -> Option<AckSlot> {
    if c.session.pending_acks.contains_key(id) {
        Some(c.session.pending_acks[id])
    } else {
        None
    }
}

/// Whom an acknowledgement goes to: the operation under its identifier, if that
/// waits for this kind.
pub open spec fn ack_delivery(slot: Option<AckSlot>, kind: AckKind, id: PacketId) -> Option<
    Delivery,
> {
    match (slot, kind) {
        (Some(AckSlot::Puback(tx)), AckKind::Puback) => Some(Delivery::Id(tx, id)),
        (Some(AckSlot::Pubrec(tx)), AckKind::Pubrec) => Some(Delivery::Id(tx, id)),
        (Some(AckSlot::Pubcomp(tx)), AckKind::Pubcomp) => Some(Delivery::Id(tx, id)),
        _ => None,
    }
}

/// Takes out the slot that an acknowledgement is for. A slot of another kind is
/// dropped.
pub fn fire_ack(channel: &mut MqttChannel, id: PacketId, kind: AckKind) -> (r: Option<Delivery>)
    ensures
        r == ack_delivery(slot_of(old(channel)@, id), kind, id),
        final(channel)@ == slot_taken(old(channel)@, id),
{
    match (channel.session_mut().take_ack(id), kind) {
        (Some(AckSlot::Puback(tx)), AckKind::Puback) => Some(Delivery::Id(tx, id)),
        (Some(AckSlot::Pubrec(tx)), AckKind::Pubrec) => Some(Delivery::Id(tx, id)),
        (Some(AckSlot::Pubcomp(tx)), AckKind::Pubcomp) => Some(Delivery::Id(tx, id)),
        _ => None,
    }
}

/// Takes out the slot that a SUBACK is for, with the codes for it.
pub fn fire_suback(channel: &mut MqttChannel, packet: SubackPacket) -> (r: Option<Delivery>)
    ensures
        match slot_of(old(channel)@, packet.packet_id) {
            Some(AckSlot::Suback(tx)) => r == Some(Delivery::Codes(tx, packet.return_codes)),
            _ => r is None,
        },
        final(channel)@ == slot_taken(old(channel)@, packet.packet_id),
{
    match channel.session_mut().take_ack(packet.packet_id) {
        Some(AckSlot::Suback(tx)) => Some(Delivery::Codes(tx, packet.return_codes)),
        _ => None,
    }
}

/// Takes out the slot that an UNSUBACK is for.
pub fn fire_unsuback(channel: &mut MqttChannel, id: PacketId) -> (r: Option<Delivery>)
    ensures
        match slot_of(old(channel)@, id) {
            Some(AckSlot::Unsuback(tx)) => r == Some(Delivery::Done(tx)),
            _ => r is None,
        },
        final(channel)@ == slot_taken(old(channel)@, id),
{
    match channel.session_mut().take_ack(id) {
        Some(AckSlot::Unsuback(tx)) => Some(Delivery::Done(tx)),
        _ => None,
    }
}

// ----------------------------------------------------------------------------
// Endpoints
// ----------------------------------------------------------------------------

/// Whether an inbound publish goes to the fallback handler: there is one, and
/// no endpoint has matched.
pub fn falls_back(matched: bool, has_handler: bool) -> (r: bool)
    ensures
        r == (!matched && has_handler),
{
    !matched && has_handler
}

/// What an endpoint has made of a publish.
pub enum ChainOutcome {
    Failed,
    Finished { fanout: bool, incoming: Option<IncomingPublish> },
}

/// The view of what an endpoint has made of a publish.
pub enum ChainOutcomeView {
    Failed,
    Finished { fanout: bool, incoming: Option<PublishView> },
}

impl View for ChainOutcome {
    type V = ChainOutcomeView;

    open spec fn view(&self) -> ChainOutcomeView {
        match self {
            ChainOutcome::Failed => ChainOutcomeView::Failed,
            ChainOutcome::Finished { fanout, incoming } => ChainOutcomeView::Finished {
                fanout: *fanout,
                incoming: match incoming {
                    Some(p) => Some(p@),
                    None => None,
                },
            },
        }
    }
}

/// A publish on its way through the endpoints of a server.
pub struct ServerChain {
    fanout: bool,
    current: PublishPacket,
}

/// What a publish has come to so far.
#[verifier::ext_equal]
pub struct ChainView {
    /// Whether it still goes to the subscribers.
    pub fanout: bool,
    pub current: PublishView,
}

impl ChainView {
    /// After one more endpoint. A failure, or an endpoint that says so, keeps the
    /// publish from the subscribers; what an endpoint has changed stays changed.
    pub open spec fn after(self, outcome: ChainOutcomeView) -> Self {
        match outcome {
            ChainOutcomeView::Failed => ChainView { fanout: false, ..self },
            ChainOutcomeView::Finished { fanout, incoming } => ChainView {
                fanout: self.fanout && fanout,
                current: match incoming {
                    Some(p) => PublishView {
                        dup: self.current.dup,
                        packet_id: self.current.packet_id,
                        ..p
                    },
                    None => self.current,
                },
            },
        }
    }
}

impl View for ServerChain {
    type V = ChainView;

    closed spec fn view(&self) -> ChainView {
        ChainView { fanout: self.fanout, current: self.current@ }
    }
}

impl ServerChain {
    pub fn new(publish: PublishPacket) -> (r: Self)
        ensures
            r@ == (ChainView { fanout: true, current: publish@ }),
    {
        ServerChain { fanout: true, current: publish }
    }

    /// What the next endpoint gets.
    pub fn incoming(&self) -> (r: IncomingPublish)
        ensures
            r@ == self@.current,
    {
        broker::incoming_from_packet(&self.current)
    }

    /// Takes in what an endpoint has made of the publish.
    pub fn apply(&mut self, outcome: ChainOutcome)
        ensures
            final(self)@ == old(self)@.after(outcome@),
    {
        match outcome {
            ChainOutcome::Failed => {
                self.fanout = false;
            },
            ChainOutcome::Finished { fanout, incoming } => {
                if !fanout {
                    self.fanout = false;
                }
                if let Some(inc) = incoming {
                    self.current.properties = inc.properties;
                    self.current.topic = inc.topic;
                    self.current.payload = inc.payload;
                    self.current.qos = inc.qos;
                    self.current.retain = inc.retain;
                }
            },
        }
    }

    /// The publish for the subscribers, unless it was kept from them.
    pub fn finish(self) -> (r: Option<PublishPacket>)
        ensures
            match r {
                Some(p) => self@.fanout && p@ == self@.current,
                None => !self@.fanout,
            },
    {
        if self.fanout {
            Some(self.current)
        } else {
            None
        }
    }
}

// ----------------------------------------------------------------------------
// Laws
// ----------------------------------------------------------------------------

/// Once an endpoint has kept a publish from the subscribers, no later endpoint
/// brings it back.
pub proof fn suppression_is_final(c: ChainView, outcome: ChainOutcomeView)
    requires
        !c.fanout,
    ensures
        !c.after(outcome).fanout,
{
}

/// Endpoints change neither the packet identifier of a publish nor its DUP flag.
pub proof fn endpoints_keep_the_identifier(c: ChainView, outcome: ChainOutcomeView)
    ensures
        c.after(outcome).current.packet_id == c.current.packet_id,
        c.after(outcome).current.dup == c.current.dup,
{
}

/// One endpoint after another, field by field: an endpoint that finishes leaves
/// its topic, payload, QoS, RETAIN and properties; one that fails or leaves
/// nothing changes no field. The publish goes on to the subscribers only as long
/// as every endpoint lets it.
pub proof fn endpoints_change_the_message(c: ChainView, fanout: bool, p: PublishView)
    ensures
        ({
            let failed = c.after(ChainOutcomeView::Failed);
            let kept = c.after(ChainOutcomeView::Finished { fanout, incoming: None });
            let changed = c.after(ChainOutcomeView::Finished { fanout, incoming: Some(p) });
            &&& !failed.fanout && failed.current == c.current
            &&& kept.fanout == (c.fanout && fanout) && kept.current == c.current
            &&& changed.fanout == (c.fanout && fanout)
            &&& changed.current.topic == p.topic
            &&& changed.current.payload == p.payload
            &&& changed.current.qos == p.qos
            &&& changed.current.retain == p.retain
            &&& changed.current.properties == p.properties
            &&& changed.current.dup == c.current.dup
            &&& changed.current.packet_id == c.current.packet_id
        }),
{
}

/// Acknowledging a publish, field by field: PUBACK or PUBREC under its
/// identifier, and at QoS 2 the publish itself is kept under it. Everything else
/// of the channel stays. A publish at QoS 0, or without an identifier, changes
/// nothing.
pub proof fn acknowledging_changes_little(c: ChannelView, p: PublishView, id: PacketId, other: PacketId)
    requires
        c.writing,
        p.packet_id == Some(id),
        other != id,
    ensures
        ({
            let after = acknowledged(c, p);
            &&& p.qos == QoS::AtMostOnce ==> after == c
            &&& p.qos == QoS::AtLeastOnce ==> after.outbox == c.outbox.push(
                WriteView::Packet(PacketView::Puback(id)),
            ) && after.session == c.session
            &&& p.qos == QoS::ExactlyOnce ==> {
                &&& after.outbox == c.outbox.push(WriteView::Packet(PacketView::Pubrec(id)))
                &&& after.session.qos2_recv.contains_pair(id, p)
                &&& after.session.qos2_recv.contains_key(other)
                    == c.session.qos2_recv.contains_key(other)
                &&& c.session.qos2_recv.contains_key(other) ==> after.session.qos2_recv[other]
                    == c.session.qos2_recv[other]
                &&& after.session.pending_acks == c.session.pending_acks
                &&& after.session.outbound_inflight == c.session.outbound_inflight
                &&& after.session.pkt_counter == c.session.pkt_counter
                &&& after.session.bind == c.session.bind
            }
            &&& after.open == c.open
            &&& after.writing == c.writing
            &&& after.version == c.version
            &&& acknowledged(c, (PublishView { packet_id: None, ..p })) == c
            &&& acknowledge_result(c, p) is Ok
        }),
{
}

/// Where nothing can be sent, acknowledging a publish is an error exactly when
/// an acknowledgement is due.
pub proof fn acknowledging_needs_a_writer(c: ChannelView, p: PublishView)
    requires
        !c.writing,
    ensures
        p.qos != QoS::AtMostOnce && p.packet_id is Some ==> acknowledge_result(c, p) == Err::<
            (),
            MqttError,
        >(MqttError::ChannelClosed),
        p.qos == QoS::AtMostOnce || p.packet_id is None ==> acknowledge_result(c, p) is Ok,
        acknowledged(c, p).outbox == c.outbox,
        p.qos == QoS::ExactlyOnce ==> (p.packet_id matches Some(id) ==> acknowledged(
            c,
            p,
        ).session.qos2_recv == c.session.qos2_recv.insert(id, p)),
        p.qos != QoS::ExactlyOnce ==> acknowledged(c, p) == c,
{
}

/// An acknowledgement of the right kind reaches the operation that waits under
/// its identifier, and tells it that identifier.
pub proof fn acknowledgements_reach_their_operation(tx: oneshot::Sender<PacketId>, id: PacketId)
    ensures
        ack_delivery(Some(AckSlot::Puback(tx)), AckKind::Puback, id) == Some(Delivery::Id(tx, id)),
        ack_delivery(Some(AckSlot::Pubrec(tx)), AckKind::Pubrec, id) == Some(Delivery::Id(tx, id)),
        ack_delivery(Some(AckSlot::Pubcomp(tx)), AckKind::Pubcomp, id) == Some(
            Delivery::Id(tx, id),
        ),
        ack_delivery(None, AckKind::Puback, id) is None,
        ack_delivery(None, AckKind::Pubrec, id) is None,
        ack_delivery(None, AckKind::Pubcomp, id) is None,
{
}

/// Taking a slot out takes that slot and nothing else.
pub proof fn taking_a_slot_leaves_the_rest(c: ChannelView, id: PacketId, other: PacketId)
    requires
        other != id,
    ensures
        slot_of(slot_taken(c, id), id) is None,
        slot_of(slot_taken(c, id), other) == slot_of(c, other),
        c.session.pending_acks.contains_key(other) ==> slot_of(c, other) == Some(
            c.session.pending_acks[other],
        ),
        !c.session.pending_acks.contains_key(other) ==> slot_of(c, other) is None,
        slot_taken(c, id).session.qos2_recv == c.session.qos2_recv,
        slot_taken(c, id).session.outbound_inflight == c.session.outbound_inflight,
        slot_taken(c, id).session.pkt_counter == c.session.pkt_counter,
        slot_taken(c, id).session.bind == c.session.bind,
        slot_taken(c, id).outbox == c.outbox,
        slot_taken(c, id).open == c.open,
        slot_taken(c, id).writing == c.writing,
        slot_taken(c, id).version == c.version,
{
}

} // verus!
