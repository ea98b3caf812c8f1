//! Logical session state, apart from the connection that carries it.
//!
//! A session keeps the packet identifier counter, the one-time binding to a
//! client, and what is in flight: inbound QoS 2 publishes that wait for PUBREL,
//! outbound operations that wait for an acknowledgement, and outbound packets.

use std::sync::Arc;

use dashmap::DashMap;
use tokio::sync::oneshot;
use vstd::prelude::*;

use crate::packet::{PublishPacket, PublishView};
use crate::request::{IncomingPublish, PacketId, SubackCode};
use crate::tables;
use crate::wire;

verus! {

/// The sending end of a channel for one value.
#[verifier::external_type_specification]
#[verifier::external_body]
#[verifier::reject_recursive_types(T)]
pub struct ExSender<T>(tokio::sync::oneshot::Sender<T>);

/// Where the acknowledgement of an outbound operation goes. An operation
/// registers its slot under its packet identifier; the matching inbound packet
/// takes the slot out. A slot that is dropped tells the operation that the
/// channel has closed.
pub enum AckSlot {
    Puback(oneshot::Sender<PacketId>),
    Pubrec(oneshot::Sender<PacketId>),
    Pubcomp(oneshot::Sender<PacketId>),
    Suback(oneshot::Sender<Vec<SubackCode>>),
    Unsuback(oneshot::Sender<()>),
}

/// Set once, when CONNECT has been accepted.
#[derive(Debug)]
pub struct BindInfo {
    pub client_id: Arc<str>,
    pub keep_alive: u16,
}

/// The view of a binding.
pub struct BindView {
    pub client_id: Seq<char>,
    pub keep_alive: u16,
}

impl View for BindInfo {
    type V = BindView;

    open spec fn view(&self) -> BindView {
        BindView { client_id: wire::text(self.client_id), keep_alive: self.keep_alive }
    }
}

impl Clone for BindInfo {
    fn clone(&self) -> (r: Self)
        ensures
            r == *self,
    {
        BindInfo { client_id: self.client_id.clone(), keep_alive: self.keep_alive }
    }
}

// ----------------------------------------------------------------------------
// The one-time binding
// ----------------------------------------------------------------------------

/// A binding that is written at most once.
pub struct OnceLockBindInfo {
    inner: Option<BindInfo>,
}

impl View for OnceLockBindInfo {
    type V = Option<BindView>;

    closed spec fn view(&self) -> Option<BindView> {
        match self.inner {
            Some(b) => Some(b@),
            None => None,
        }
    }
}

impl OnceLockBindInfo {
    pub fn new() -> (r: Self)
        ensures
            r@ is None,
    {
        OnceLockBindInfo { inner: None }
    }

    /// Binds, unless a binding is there already. What came first stays.
    pub fn set(&mut self, info: BindInfo) -> (r: Result<(), BindInfo>)
        ensures
            match old(self)@ {
                None => r is Ok && final(self)@ == Some(info@),
                Some(_) => r == Err::<(), BindInfo>(info) && final(self)@ == old(self)@,
            },
    {
        if self.inner.is_some() {
            return Err(info);
        }
        self.inner = Some(info);
        Ok(())
    }

    pub fn get(&self) -> (r: Option<&BindInfo>)
        ensures
            match self@ {
                Some(b) => r matches Some(got) && got@ == b,
                None => r is None,
            },
    {
        match &self.inner {
            Some(b) => Some(b),
            None => None,
        }
    }

    pub fn client_id(&self) -> (r: Option<Arc<str>>)
        ensures
            wire::opt_text(r) == (match self@ {
                Some(b) => Some(b.client_id),
                None => None,
            }),
    {
        match &self.inner {
            Some(b) => Some(b.client_id.clone()),
            None => None,
        }
    }

    pub fn keep_alive(&self) -> (r: Option<u16>)
        ensures
            r == (match self@ {
                Some(b) => Some(b.keep_alive),
                None => None,
            }),
    {
        match &self.inner {
            Some(b) => Some(b.keep_alive),
            None => None,
        }
    }
}

impl Default for OnceLockBindInfo {
    fn default() -> (r: Self)
        ensures
            r@ is None,
    {
        Self::new()
    }
}

// ----------------------------------------------------------------------------
// Sessions
// ----------------------------------------------------------------------------

/// Logical session state.
pub struct MqttSession {
    pkt_counter: u16,
    bind: OnceLockBindInfo,
    qos2_recv: DashMap<u16, IncomingPublish>,
    pending_acks: DashMap<u16, AckSlot>,
    outbound_inflight: DashMap<u16, PublishPacket>,
}

/// What a session holds.
#[verifier::ext_equal]
pub struct SessionView {
    /// The last packet identifier that was counted, 0 before the first.
    pub pkt_counter: u16,
    pub bind: Option<BindView>,
    /// Inbound QoS 2 publishes that wait for PUBREL, by the peer's identifier.
    pub qos2_recv: Map<u16, PublishView>,
    /// Slots of outbound operations, by our identifier.
    pub pending_acks: Map<u16, AckSlot>,
    /// Outbound QoS 1 and 2 publishes, by our identifier.
    pub outbound_inflight: Map<u16, PublishView>,
}

impl SessionView {
    /// A session to which nothing has happened.
    pub open spec fn fresh() -> Self {
        SessionView {
            pkt_counter: 0,
            bind: None,
            qos2_recv: Map::empty(),
            pending_acks: Map::empty(),
            outbound_inflight: Map::empty(),
        }
    }

    /// The session after one more identifier has been counted.
    pub open spec fn counted(self) -> Self {
        SessionView { pkt_counter: next_count(self.pkt_counter), ..self }
    }

    /// The session with nothing in flight.
    pub open spec fn abandoned(self) -> Self {
        SessionView {
            qos2_recv: Map::empty(),
            pending_acks: Map::empty(),
            outbound_inflight: Map::empty(),
            ..self
        }
    }

    /// The session bound to a client, unless it is bound already.
    pub open spec fn bound(self, b: BindView) -> Self {
        SessionView {
            bind: match self.bind {
                None => Some(b),
                Some(first) => Some(first),
            },
            ..self
        }
    }
}

/// The counter after one more identifier: it wraps around from the largest to 1,
/// for 0 is not an identifier.
pub open spec fn next_count(counter: u16) -> u16 {
    if counter == u16::MAX {
        1
    } else {
        (counter + 1) as u16
    }
}

/// The packet identifier that is allocated at a count: the new count.
pub open spec fn next_id(counter: u16) -> u16 {
    next_count(counter)
}

/// The counter after `n` more identifiers.
pub open spec fn count_after(counter: u16, n: nat) -> u16
    decreases n,
{
    if n == 0 {
        counter
    } else {
        next_count(count_after(counter, (n - 1) as nat))
    }
}

impl View for MqttSession {
    type V = SessionView;

    closed spec fn view(&self) -> SessionView {
        SessionView {
            pkt_counter: self.pkt_counter,
            bind: self.bind@,
            qos2_recv: tables::held_publishes(self.qos2_recv),
            pending_acks: tables::held_slots(self.pending_acks),
            outbound_inflight: tables::held_packets(self.outbound_inflight),
        }
    }
}

impl MqttSession {
    pub fn new() -> (r: Self)
        ensures
            r@ == SessionView::fresh(),
    {
        MqttSession {
            pkt_counter: 0,
            bind: OnceLockBindInfo::new(),
            qos2_recv: tables::new_publishes(),
            pending_acks: tables::new_slots(),
            outbound_inflight: tables::new_packets(),
        }
    }

    /// The one-time binding.
    pub fn bind(&self) -> (r: &OnceLockBindInfo)
        ensures
            r@ == self@.bind,
    {
        &self.bind
    }

    /// Binds the session to a client. A session that is bound stays as it is.
    pub fn bind_to(&mut self, info: BindInfo)
        ensures
            final(self)@ == old(self)@.bound(info@),
    {
        let _ = self.bind.set(info);
    }

    /// Allocates the next outbound packet identifier; 0 is skipped. Whether an
    /// identifier is still in flight is not checked.
    pub fn allocate_packet_id(&mut self) -> (r: u16)
        ensures
            r == next_id(old(self)@.pkt_counter),
            final(self)@ == old(self)@.counted(),
    {
        self.pkt_counter = if self.pkt_counter == u16::MAX {
            1
        } else {
            self.pkt_counter + 1
        };
        self.pkt_counter
    }

    /// Drops everything that is in flight.
    pub fn abandon(&mut self)
        ensures
            final(self)@ == old(self)@.abandoned(),
    {
        tables::clear_slots(&mut self.pending_acks);
        tables::clear_publishes(&mut self.qos2_recv);
        tables::clear_packets(&mut self.outbound_inflight);
    }

    /// Keeps an inbound QoS 2 publish until PUBREL.
    pub fn hold_inbound(&mut self, id: PacketId, publish: IncomingPublish)
        ensures
            final(self)@ == (SessionView {
                qos2_recv: old(self)@.qos2_recv.insert(id, publish@),
                ..old(self)@
            }),
    {
        tables::put_publish(&mut self.qos2_recv, id, publish);
    }

    /// Takes a kept inbound QoS 2 publish out.
    pub fn release_inbound(&mut self, id: PacketId) -> (r: Option<IncomingPublish>)
        ensures
            final(self)@ == (SessionView {
                qos2_recv: old(self)@.qos2_recv.remove(id),
                ..old(self)@
            }),
            match r {
                Some(p) => old(self)@.qos2_recv.contains_pair(id, p@),
                None => !old(self)@.qos2_recv.contains_key(id),
            },
    {
        tables::take_publish(&mut self.qos2_recv, id)
    }

    /// Registers the slot of an outbound operation.
    pub fn await_ack(&mut self, id: PacketId, slot: AckSlot)
        ensures
            final(self)@ == (SessionView {
                pending_acks: old(self)@.pending_acks.insert(id, slot),
                ..old(self)@
            }),
    {
        tables::put_slot(&mut self.pending_acks, id, slot);
    }

    /// Takes the slot of an outbound operation out.
    pub fn take_ack(&mut self, id: PacketId) -> (r: Option<AckSlot>)
        ensures
            final(self)@ == (SessionView {
                pending_acks: old(self)@.pending_acks.remove(id),
                ..old(self)@
            }),
            match r {
                Some(slot) => old(self)@.pending_acks.contains_pair(id, slot),
                None => !old(self)@.pending_acks.contains_key(id),
            },
    {
        tables::take_slot(&mut self.pending_acks, id)
    }

    /// Keeps an outbound QoS 1 or 2 publish.
    pub fn hold_outbound(&mut self, id: PacketId, packet: PublishPacket)
        ensures
            final(self)@ == (SessionView {
                outbound_inflight: old(self)@.outbound_inflight.insert(id, packet@),
                ..old(self)@
            }),
    {
        tables::put_packet(&mut self.outbound_inflight, id, packet);
    }

    /// Forgets an outbound publish and hands it back.
    pub fn release_outbound(&mut self, id: PacketId) -> (r: Option<PublishPacket>)
        ensures
            final(self)@ == (SessionView {
                outbound_inflight: old(self)@.outbound_inflight.remove(id),
                ..old(self)@
            }),
            match r {
                Some(p) => old(self)@.outbound_inflight.contains_pair(id, p@),
                None => !old(self)@.outbound_inflight.contains_key(id),
            },
    {
        tables::take_packet(&mut self.outbound_inflight, id)
    }
}

// ----------------------------------------------------------------------------
// Laws
// ----------------------------------------------------------------------------

/// A packet identifier is never 0.
pub proof fn packet_ids_are_not_zero(counter: u16)
    ensures
        next_id(counter) != 0,
{
}

/// Two allocations in a row give different packet identifiers: the second is the
/// next one after the first, and 1 after the largest.
pub proof fn consecutive_packet_ids_differ(counter: u16)
    ensures
        next_id(next_count(counter)) != next_id(counter),
        next_id(next_count(counter)) == (if next_id(counter) == u16::MAX {
            1
        } else {
            next_id(counter) + 1
        }),
{
}

/// Counts go round in a circle of 65535.
proof fn counts_go_round(counter: u16, n: nat)
    ensures
        n > 0 || counter > 0 ==> count_after(counter, n) == (counter + n + 65535 - 1) % 65535 + 1,
    decreases n,
{
    if n > 0 {
        let before = count_after(counter, (n - 1) as nat);
        counts_go_round(counter, (n - 1) as nat);
        assert(count_after(counter, n) == next_count(before));
        if n == 1 && counter == 0 {
            assert(before == 0);
        } else {
            assert(before == (counter + n + 65535 - 2) % 65535 + 1);
        }
    }
}

/// A packet identifier does not come again before 65535 allocations have been
/// made: all identifiers but 0 come first.
pub proof fn packet_ids_differ(counter: u16, i: nat, j: nat)
    requires
        i < j < i + 65535,
    ensures
        next_id(count_after(counter, i)) != next_id(count_after(counter, j)),
{
    counts_go_round(counter, i + 1);
    counts_go_round(counter, j + 1);
    assert(next_id(count_after(counter, i)) == count_after(counter, i + 1));
    assert(next_id(count_after(counter, j)) == count_after(counter, j + 1));
}

/// Abandoning a session twice is abandoning it once.
pub proof fn abandoning_is_idempotent(s: SessionView)
    ensures
        s.abandoned().abandoned() == s.abandoned(),
{
}

/// The first binding of a session stays.
pub proof fn first_binding_stays(s: SessionView, a: BindView, b: BindView)
    ensures
        s.bound(a).bound(b) == s.bound(a),
{
}

/// Counting changes the counter and nothing else: 1 follows 0 and the largest
/// identifier, and every other one is followed by the next number. The identifier
/// that is allocated is the new count.
pub proof fn counting_changes_the_counter(s: SessionView)
    ensures
        s.counted().pkt_counter == (if s.pkt_counter == 65535 {
            1
        } else {
            s.pkt_counter + 1
        }),
        next_id(s.pkt_counter) == s.counted().pkt_counter,
        s.counted().bind == s.bind,
        s.counted().qos2_recv == s.qos2_recv,
        s.counted().pending_acks == s.pending_acks,
        s.counted().outbound_inflight == s.outbound_inflight,
{
}

/// Abandoning drops everything that is in flight, and keeps the counter and the
/// binding.
pub proof fn abandoning_drops_what_is_in_flight(s: SessionView, id: u16)
    ensures
        !s.abandoned().qos2_recv.contains_key(id),
        !s.abandoned().pending_acks.contains_key(id),
        !s.abandoned().outbound_inflight.contains_key(id),
        s.abandoned().pkt_counter == s.pkt_counter,
        s.abandoned().bind == s.bind,
{
}

/// Binding binds a session that is not bound, and touches nothing else.
pub proof fn binding_binds(s: SessionView, b: BindView)
    ensures
        s.bind is None ==> (s.bound(b).bind matches Some(x) && x.client_id == b.client_id
            && x.keep_alive == b.keep_alive),
        s.bind is Some ==> s.bound(b).bind == s.bind,
        s.bound(b).pkt_counter == s.pkt_counter,
        s.bound(b).qos2_recv == s.qos2_recv,
        s.bound(b).pending_acks == s.pending_acks,
        s.bound(b).outbound_inflight == s.outbound_inflight,
{
}

/// A fresh session has counted nothing, is bound to nobody and has nothing in
/// flight; and the view of a binding holds its fields.
pub proof fn fresh_sessions_are_empty(id: u16, b: BindInfo)
    ensures
        SessionView::fresh().pkt_counter == 0,
        SessionView::fresh().bind is None,
        !SessionView::fresh().qos2_recv.contains_key(id),
        !SessionView::fresh().pending_acks.contains_key(id),
        !SessionView::fresh().outbound_inflight.contains_key(id),
        b@.client_id == (*b.client_id)@,
        b@.keep_alive == b.keep_alive,
{
}

} // verus!
