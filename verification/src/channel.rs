//! One MQTT connection, without the wire.
//!
//! Everything that is written on a connection goes through its outbox, in
//! order. A writer takes the commands out, asks `writer_action` what each of
//! them comes to, and performs it. When the writer has stopped, nothing can be
//! sent any more.

use std::sync::Arc;

use bytes::Bytes;
use vstd::prelude::*;

use crate::buffers;
use crate::codec::encode;
use crate::error::MqttError;
use crate::packet::{Packet, PacketView, ProtocolVersion, PublishPacket, PublishView};
use crate::session::{MqttSession, SessionView};
use crate::wire;

verus! {

// ----------------------------------------------------------------------------
// Connection numbers
// ----------------------------------------------------------------------------

/// Numbers connections, starting with 1.
pub struct ConnectionCounter {
    next: u64,
}

impl ConnectionCounter {
    /// The number that the next connection gets.
    pub closed spec fn upcoming(self) -> u64 {
        self.next
    }

    pub fn new() -> (r: Self)
        ensures
            r.upcoming() == 1,
    {
        ConnectionCounter { next: 1 }
    }

    pub fn next_connection_id(&mut self) -> (r: u64)
        ensures
            r == old(self).upcoming(),
            final(self).upcoming() == (if r == u64::MAX {
                0
            } else {
                r + 1
            }),
    {
        let id: u64 = self.next;
        self.next = if id == u64::MAX {
            0
        } else {
            id + 1
        };
        id
    }
}

// ----------------------------------------------------------------------------
// Writer commands
// ----------------------------------------------------------------------------

/// What the writer of a connection is asked to do.
#[derive(Debug)]
pub enum WriteCmd {
    Packet(Packet),
    Publish(PublishPacket),
    Flush,
    Shutdown,
}

/// The view of a writer command.
#[verifier::ext_equal]
pub enum WriteView {
    Packet(PacketView),
    Publish(PublishView),
    Flush,
    Shutdown,
}

impl View for WriteCmd {
    type V = WriteView;

    open spec fn view(&self) -> WriteView {
        match self {
            WriteCmd::Packet(p) => WriteView::Packet(p@),
            WriteCmd::Publish(p) => WriteView::Publish(p@),
            WriteCmd::Flush => WriteView::Flush,
            WriteCmd::Shutdown => WriteView::Shutdown,
        }
    }
}

/// The views of a list of commands.
pub open spec fn write_views(v: Seq<WriteCmd>) -> Seq<WriteView> {
    v.map_values(|c: WriteCmd| c@)
}

/// What a command comes to on the wire.
pub enum WriterAction {
    /// Write these bytes.
    Write(Vec<u8>),
    /// Write these bytes, then the payload.
    WritePublish(Vec<u8>, Bytes),
    Flush,
    /// Close the wire and take no further command.
    Stop,
}

/// The bytes that a command writes. `None` stops the writer: a packet that has
/// no encoding does, and so does `Shutdown`.
pub open spec fn written(cmd: WriteView, version: ProtocolVersion) -> Option<Seq<u8>> {
    match cmd {
        WriteView::Packet(p) => match encode::packet_bytes(p, version) {
            Ok(b) => Some(b),
            Err(_) => None,
        },
        WriteView::Publish(p) => match encode::publish_header(p, version) {
            Ok(h) => Some(h + p.payload),
            Err(_) => None,
        },
        WriteView::Flush => Some(Seq::empty()),
        WriteView::Shutdown => None,
    }
}

impl WriterAction {
    /// The bytes that the action writes.
    pub open spec fn bytes(self) -> Option<Seq<u8>> {
        match self {
            WriterAction::Write(b) => Some(b@),
            WriterAction::WritePublish(h, p) => Some(h@ + buffers::payload(p)),
            WriterAction::Flush => Some(Seq::empty()),
            WriterAction::Stop => None,
        }
    }
}

/// Decides what a writer does with a command on a connection of the given
/// version. `None` stands for a command queue that has ended.
pub fn writer_action(cmd: Option<WriteCmd>, version: ProtocolVersion) -> (r: WriterAction)
    ensures
        r.bytes() == (match cmd {
            Some(c) => written(c@, version),
            None => None,
        }),
        (r is Flush) == (cmd matches Some(WriteCmd::Flush)),
        (r is WritePublish) == (cmd matches Some(WriteCmd::Publish(p)) && written(
            WriteView::Publish(p@),
            version,
        ) is Some),
{
    match cmd {
        Some(WriteCmd::Packet(p)) => match encode::encode_packet(&p, version) {
            Ok(bytes) => WriterAction::Write(bytes),
            Err(_) => WriterAction::Stop,
        },
        Some(WriteCmd::Publish(p)) => match encode::encode_publish_header(&p, version) {
            Ok(header) => WriterAction::WritePublish(header, p.payload),
            Err(_) => WriterAction::Stop,
        },
        Some(WriteCmd::Flush) => WriterAction::Flush,
        Some(WriteCmd::Shutdown) => WriterAction::Stop,
        None => WriterAction::Stop,
    }
}

// ----------------------------------------------------------------------------
// Channels
// ----------------------------------------------------------------------------

/// Which side of a connection this is.
#[derive(Debug, Clone, Copy, PartialEq, Eq, Structural)]
pub enum ProtocolRole {
    Server,
    Client,
}

/// One connection and its session.
pub struct MqttChannel {
    connection_id: u64,
    role: ProtocolRole,
    session: MqttSession,
    version: ProtocolVersion,
    open: bool,
    writing: bool,
    outbox: Vec<WriteCmd>,
}

/// What a channel holds.
#[verifier::ext_equal]
pub struct ChannelView {
    pub connection_id: u64,
    pub role: ProtocolRole,
    pub session: SessionView,
    /// The version negotiated by CONNECT.
    pub version: ProtocolVersion,
    pub open: bool,
    /// Whether the writer still takes commands.
    pub writing: bool,
    /// The commands that the writer has not taken yet, oldest first.
    pub outbox: Seq<WriteView>,
}

impl ChannelView {
    /// The channel after a command has been sent. Without a writer it is lost.
    pub open spec fn sent(self, cmd: WriteView) -> Self {
        if self.writing {
            ChannelView { outbox: self.outbox.push(cmd), ..self }
        } else {
            self
        }
    }

    /// The channel after it has been closed: nothing is in flight any more,
    /// whether or not the writer had stopped before.
    pub open spec fn closed_down(self) -> Self {
        ChannelView { open: false, session: self.session.abandoned(), ..self }
    }

    /// The channel over another session.
    pub open spec fn with_session(self, session: SessionView) -> Self {
        ChannelView { session, ..self }
    }
}

/// What sending on a channel returns.
pub open spec fn send_result(c: ChannelView) -> Result<(), MqttError> {
    if c.writing {
        Ok(())
    } else {
        Err(MqttError::ChannelClosed)
    }
}

impl View for MqttChannel {
    type V = ChannelView;

    closed spec fn view(&self) -> ChannelView {
        ChannelView {
            connection_id: self.connection_id,
            role: self.role,
            session: self.session@,
            version: self.version,
            open: self.open,
            writing: self.writing,
            outbox: write_views(self.outbox@),
        }
    }
}

impl MqttChannel {
    /// A channel for a connection that has just been set up.
    pub fn new(counter: &mut ConnectionCounter, role: ProtocolRole) -> (r: Self)
        ensures
            r@ == (ChannelView {
                connection_id: old(counter).upcoming(),
                role,
                session: SessionView::fresh(),
                version: ProtocolVersion::V311,
                open: true,
                writing: true,
                outbox: Seq::empty(),
            }),
            final(counter).upcoming() == (if old(counter).upcoming() == u64::MAX {
                0
            } else {
                old(counter).upcoming() + 1
            }),
    {
        let r = MqttChannel {
            connection_id: counter.next_connection_id(),
            role,
            session: MqttSession::new(),
            version: ProtocolVersion::default(),
            open: true,
            writing: true,
            outbox: Vec::new(),
        };
        assert(r@.outbox =~= Seq::empty());
        r
    }

    pub fn is_open(&self) -> (r: bool)
        ensures
            r == self@.open,
    {
        self.open
    }

    /// Closes the channel and drops what is in flight. Returns whether the channel
    /// was open until now.
    pub fn close(&mut self) -> (r: bool)
        ensures
            r == old(self)@.open,
            final(self)@ == old(self)@.closed_down(),
    {
        let was_open = self.open;
        self.open = false;
        self.session.abandon();
        was_open
    }

    /// Records that the writer has stopped: commands that it has not taken are
    /// lost, and the channel is no longer open. What is in flight stays until
    /// `close`.
    pub fn writer_stopped(&mut self)
        ensures
            final(self)@ == (ChannelView {
                open: false,
                writing: false,
                outbox: Seq::empty(),
                ..old(self)@
            }),
    {
        self.open = false;
        self.writing = false;
        self.outbox = Vec::new();
        assert(self@.outbox =~= Seq::empty());
    }

    /// Hands the commands over to the writer.
    pub fn take_outbox(&mut self) -> (r: Vec<WriteCmd>)
        ensures
            write_views(r@) == old(self)@.outbox,
            final(self)@ == (ChannelView { outbox: Seq::empty(), ..old(self)@ }),
    {
        let mut taken: Vec<WriteCmd> = Vec::new();
        std::mem::swap(&mut taken, &mut self.outbox);
        assert(self@.outbox =~= Seq::empty());
        taken
    }

    pub fn session(&self) -> (r: &MqttSession)
        ensures
            r@ == self@.session,
    {
        &self.session
    }

    pub fn session_mut(&mut self) -> (r: &mut MqttSession)
        ensures
            (*r)@ == old(self)@.session,
            final(self)@ == old(self)@.with_session((*final(r))@),
    {
        &mut self.session
    }

    /// Fixes the wire version after the CONNECT handshake.
    pub fn set_protocol_version(&mut self, version: ProtocolVersion)
        ensures
            final(self)@ == (ChannelView { version, ..old(self)@ }),
    {
        self.version = version;
    }

    /// The wire version negotiated for this connection.
    pub fn protocol_version(&self) -> (r: ProtocolVersion)
        ensures
            r == self@.version,
    {
        self.version
    }

    pub fn connection_id(&self) -> (r: u64)
        ensures
            r == self@.connection_id,
    {
        self.connection_id
    }

    pub fn role(&self) -> (r: ProtocolRole)
        ensures
            r == self@.role,
    {
        self.role
    }

    pub fn client_id(&self) -> (r: Option<Arc<str>>)
        ensures
            wire::opt_text(r) == (match self@.session.bind {
                Some(b) => Some(b.client_id),
                None => None,
            }),
    {
        self.session.bind().client_id()
    }

    pub fn keep_alive(&self) -> (r: Option<u16>)
        ensures
            r == (match self@.session.bind {
                Some(b) => Some(b.keep_alive),
                None => None,
            }),
    {
        self.session.bind().keep_alive()
    }

    /// Sends a command to the writer.
    fn send(&mut self, cmd: WriteCmd) -> (r: Result<(), MqttError>)
        ensures
            r == send_result(old(self)@),
            final(self)@ == old(self)@.sent(cmd@),
    {
        if !self.writing {
            return Err(MqttError::ChannelClosed);
        }
        self.outbox.push(cmd);
        assert(self@.outbox =~= old(self)@.outbox.push(cmd@));
        Ok(())
    }

    /// Sends a control packet. The error says that the writer has stopped.
    pub fn send_packet(&mut self, packet: Packet) -> (r: Result<(), MqttError>)
        ensures
            r == send_result(old(self)@),
            final(self)@ == old(self)@.sent(WriteView::Packet(packet@)),
    {
        self.send(WriteCmd::Packet(packet))
    }

    /// Sends a PUBLISH. The error says that the writer has stopped.
    pub fn send_publish(&mut self, packet: PublishPacket) -> (r: Result<(), MqttError>)
        ensures
            r == send_result(old(self)@),
            final(self)@ == old(self)@.sent(WriteView::Publish(packet@)),
    {
        self.send(WriteCmd::Publish(packet))
    }
}

// ----------------------------------------------------------------------------
// Laws
// ----------------------------------------------------------------------------

/// Closing a channel twice is closing it once.
pub proof fn closing_is_idempotent(c: ChannelView)
    ensures
        c.closed_down().closed_down() == c.closed_down(),
{
}

/// Commands reach the writer in the order in which they were sent.
pub proof fn commands_keep_their_order(c: ChannelView, first: WriteView, second: WriteView)
    requires
        c.writing,
    ensures
        c.sent(first).sent(second).outbox == c.outbox + seq![first, second],
{
    assert(c.sent(first).sent(second).outbox =~= c.outbox + seq![first, second]);
}

/// A PUBLISH puts the same bytes on the wire whether it is sent as a publish or
/// as a packet, unless QoS asks for a packet identifier that is not there.
pub proof fn publishing_writes_the_packet(p: PublishView, version: ProtocolVersion)
    requires
        p.qos == crate::request::QoS::AtMostOnce || p.packet_id is Some,
    ensures
        written(WriteView::Publish(p), version) == written(
            WriteView::Packet(PacketView::Publish(p)),
            version,
        ),
{
    crate::codec::laws::publish_header_and_payload(p, version);
}

/// Sending appends the command where the writer still takes commands, and
/// changes nothing else; otherwise it changes nothing and is an error.
pub proof fn sending_appends(c: ChannelView, cmd: WriteView)
    ensures
        c.writing ==> c.sent(cmd).outbox == c.outbox.push(cmd) && send_result(c) is Ok,
        !c.writing ==> c.sent(cmd) == c && send_result(c) == Err::<(), MqttError>(
            MqttError::ChannelClosed,
        ),
        c.sent(cmd).session == c.session,
        c.sent(cmd).connection_id == c.connection_id,
        c.sent(cmd).role == c.role,
        c.sent(cmd).version == c.version,
        c.sent(cmd).open == c.open,
        c.sent(cmd).writing == c.writing,
{
}

/// Closing a channel shuts it and drops what is in flight; what has been sent
/// still goes out.
pub proof fn closing_shuts_the_channel(c: ChannelView, id: u16)
    ensures
        !c.closed_down().open,
        !c.closed_down().session.qos2_recv.contains_key(id),
        !c.closed_down().session.pending_acks.contains_key(id),
        !c.closed_down().session.outbound_inflight.contains_key(id),
        c.closed_down().session.pkt_counter == c.session.pkt_counter,
        c.closed_down().session.bind == c.session.bind,
        c.closed_down().outbox == c.outbox,
        c.closed_down().writing == c.writing,
        c.closed_down().version == c.version,
        c.closed_down().role == c.role,
        c.closed_down().connection_id == c.connection_id,
{
}

/// What commands put on the wire: a packet its encoding, a publish its header
/// and its payload, a flush nothing; a shutdown stops the writer, and so does
/// what has no encoding.
pub proof fn commands_are_written(p: PacketView, q: PublishView, version: ProtocolVersion)
    ensures
        encode::packet_bytes(p, version) matches Ok(b) ==> written(
            WriteView::Packet(p),
            version,
        ) == Some(b),
        encode::packet_bytes(p, version) is Err ==> written(WriteView::Packet(p), version) is None,
        encode::publish_header(q, version) matches Ok(h) ==> written(
            WriteView::Publish(q),
            version,
        ) == Some(h + q.payload),
        encode::publish_header(q, version) is Err ==> written(
            WriteView::Publish(q),
            version,
        ) is None,
        q.qos != crate::request::QoS::AtMostOnce && q.packet_id is None ==> written(
            WriteView::Publish(q),
            version,
        ) is None,
        written(WriteView::Flush, version) == Some(Seq::<u8>::empty()),
        written(WriteView::Shutdown, version) is None,
{
}

/// The view of a command holds its packet, and the views of commands keep their
/// order.
pub proof fn views_hold_the_commands(p: Packet, q: PublishPacket, v: Seq<WriteCmd>)
    ensures
        WriteCmd::Packet(p)@ == WriteView::Packet(p@),
        WriteCmd::Publish(q)@ == WriteView::Publish(q@),
        WriteCmd::Flush@ == WriteView::Flush,
        WriteCmd::Shutdown@ == WriteView::Shutdown,
        write_views(v).len() == v.len(),
        forall|i: int| 0 <= i < v.len() ==> #[trigger] write_views(v)[i] == v[i]@,
{
}

/// What the actions of a writer put on the wire.
pub proof fn actions_write_their_bytes(b: Vec<u8>, p: Bytes)
    ensures
        WriterAction::Write(b).bytes() == Some(b@),
        WriterAction::WritePublish(b, p).bytes() == Some(b@ + buffers::payload(p)),
        WriterAction::Flush.bytes() == Some(Seq::<u8>::empty()),
        WriterAction::Stop.bytes() is None,
{
}

} // verus!
