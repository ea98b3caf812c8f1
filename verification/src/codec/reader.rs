//! Reading one packet off a byte stream.
//!
//! The reader says what it needs next, a byte or a whole body, and is fed what
//! has been read. The bytes come from wherever the caller has them.

use vstd::prelude::*;

use crate::codec::decode;
use crate::error::MqttError;
use crate::packet;
use crate::packet::{Packet, PacketType, PacketView, ProtocolVersion};
use crate::wire;
use crate::wire::LengthDecoder;

verus! {

/// What the reader needs next.
#[derive(Debug, Clone, Copy, PartialEq, Eq, Structural)]
pub enum ReadWant {
    Byte,
    Body(usize),
}

enum ReadStage {
    First,
    Length(u8, PacketType, LengthDecoder),
    Body(u8, PacketType, usize),
}

/// Assembles one packet from the bytes of a connection.
pub struct PacketReader {
    version: ProtocolVersion,
    stage: ReadStage,
}

/// The packet behind a Remaining Length, and the bytes that follow it.
pub open spec fn read_body(
    first: u8,
    packet_type: PacketType,
    version: ProtocolVersion,
    length: Result<Option<(nat, Seq<u8>)>, MqttError>,
) -> Result<Option<(PacketView, Seq<u8>)>, MqttError> {
    match length {
        Err(e) => Err(e),
        Ok(None) => Ok(None),
        Ok(Some((n, after))) => if after.len() < n {
            Ok(None)
        } else {
            match decode::packet_from(first, packet_type, after.take(n as int), version) {
                Err(e) => Err(e),
                Ok(p) => Ok(Some((p, after.skip(n as int)))),
            }
        },
    }
}

impl PacketReader {
    pub closed spec fn wf(self) -> bool {
        self.stage matches ReadStage::Length(_, _, d) ==> d.wf()
    }

    pub closed spec fn want(self) -> ReadWant {
        match self.stage {
            ReadStage::Body(_, _, n) => ReadWant::Body(n),
            _ => ReadWant::Byte,
        }
    }

    /// The Remaining Length as far as it has been read, behind the first byte.
    pub closed spec fn length(self) -> Option<LengthDecoder> {
        match self.stage {
            ReadStage::Length(_, _, d) => Some(d),
            _ => None,
        }
    }

    /// How many bytes of the fixed header may still come: five before the first
    /// one, none once the body is due.
    pub open spec fn header_left(self) -> int {
        match (self.want(), self.length()) {
            (ReadWant::Body(_), _) => 0,
            (_, Some(d)) => 4 - d.count(),
            (_, None) => 5,
        }
    }

    /// What comes of the bytes `s` once they have been fed: a packet and the
    /// bytes behind it, an error, or `None` when bytes are missing.
    pub closed spec fn outcome(self, s: Seq<u8>) -> Result<
        Option<(PacketView, Seq<u8>)>,
        MqttError,
    > {
        match self.stage {
            ReadStage::First => stream_outcome(s, self.version),
            ReadStage::Length(first, packet_type, d) => read_body(
                first,
                packet_type,
                self.version,
                d.outcome(s),
            ),
            ReadStage::Body(first, packet_type, n) => read_body(
                first,
                packet_type,
                self.version,
                Ok(Some((n as nat, s))),
            ),
        }
    }

    pub fn new(version: ProtocolVersion) -> (r: Self)
        ensures
            r.wf(),
            r.want() == ReadWant::Byte,
            r.length() is None,
            r.header_left() == 5,
            forall|s: Seq<u8>| #[trigger] r.outcome(s) == stream_outcome(s, version),
    {
        PacketReader { version, stage: ReadStage::First }
    }

    /// What has to be read next.
    pub fn next_want(&self) -> (r: ReadWant)
        ensures
            r == self.want(),
    {
        match &self.stage {
            ReadStage::Body(_, _, n) => ReadWant::Body(*n),
            _ => ReadWant::Byte,
        }
    }

    /// Feeds the next byte of the fixed header. Every byte brings the reader
    /// nearer to the body, which is due after five of them at most.
    pub fn feed_byte(&mut self, byte: u8) -> (r: Result<(), MqttError>)
        requires
            old(self).wf(),
            old(self).want() == ReadWant::Byte,
        ensures
            r is Ok ==> final(self).wf(),
            match old(self).length() {
                None => {
                    &&& r is Ok <==> packet::type_from(byte / 16) is Ok
                    &&& r is Ok ==> final(self).want() == ReadWant::Byte && (
                    final(self).length() matches Some(d) && d.count() == 0 && d.value() == 0
                        && d.multiplier() == 1)
                },
                Some(d) => {
                    &&& byte < 128 ==> r is Ok && (final(self).want() matches ReadWant::Body(n)
                        && n == d.value() + d.multiplier() * byte && n
                        <= wire::MAX_VARIABLE_BYTE_INTEGER)
                    &&& byte >= 128 && d.count() < 3 ==> r is Ok && final(self).want()
                        == ReadWant::Byte && (final(self).length() matches Some(e) && e.count()
                        == d.count() + 1 && e.value() == d.value() + d.multiplier() * (byte - 128)
                        && e.multiplier() == d.multiplier() * 128)
                    &&& byte >= 128 && d.count() == 3 ==> r is Err
                },
            },
            r is Ok ==> 0 <= final(self).header_left() < old(self).header_left(),
            r is Ok ==> (final(self).header_left() == 0 <==> final(self).want() is Body),
            forall|s: Seq<u8>|
                s.len() > 0 && s[0] == byte ==> #[trigger] old(self).outcome(s) == (match r {
                    Ok(_) => final(self).outcome(s.skip(1)),
                    Err(e) => Err::<Option<(PacketView, Seq<u8>)>, MqttError>(e),
                }),
    {
        match &mut self.stage {
            ReadStage::First => {
                let packet_type = match decode::packet_type_of(byte) {
                    Ok(t) => t,
                    Err(e) => {
                        return Err(e);
                    },
                };
                self.stage = ReadStage::Length(byte, packet_type, LengthDecoder::new());
                Ok(())
            },
            ReadStage::Length(first, packet_type, decoder) => {
                let (first, packet_type) = (*first, *packet_type);
                match decoder.push(byte) {
                    Ok(Some(n)) => {
                        self.stage = ReadStage::Body(first, packet_type, n);
                        Ok(())
                    },
                    Ok(None) => Ok(()),
                    Err(e) => Err(e),
                }
            },
            ReadStage::Body(_, _, _) => Ok(()),
        }
    }

    /// Feeds the body and gives the packet.
    pub fn feed_body(&self, body: &[u8]) -> (r: Result<Packet, MqttError>)
        requires
            self.want() == ReadWant::Body(body.len()),
        ensures
            forall|s: Seq<u8>|
                body@.len() <= s.len() && s.take(body@.len() as int) == body@ ==>
                #[trigger] self.outcome(s) == (match r {
                    Ok(p) => Ok(Some((p@, s.skip(body@.len() as int)))),
                    Err(e) => Err::<Option<(PacketView, Seq<u8>)>, MqttError>(e),
                }),
    {
        match &self.stage {
            ReadStage::Body(first, packet_type, _) => decode::parse_packet(
                *first,
                *packet_type,
                body,
                self.version,
            ),
            _ => Err(MqttError::ChannelClosed),
        }
    }
}

/// What reading one packet from the stream `s` comes to.
pub open spec fn stream_outcome(s: Seq<u8>, version: ProtocolVersion) -> Result<
    Option<(PacketView, Seq<u8>)>,
    MqttError,
> {
    if s.len() == 0 {
        Ok(None)
    } else {
        match packet::type_from(s[0] / 16) {
            Err(_) => Err(decode::invalid_type(s[0] / 16)),
            Ok(packet_type) => read_body(
                s[0],
                packet_type,
                version,
                wire::take_length(s.skip(1)),
            ),
        }
    }
}

/// Reading a packet byte by byte gives what decoding the buffered bytes gives,
/// but that a lone first byte of no known type is an error to the reader at
/// once, while a buffer waits for the second byte.
pub proof fn reading_agrees_with_decoding(s: Seq<u8>, version: ProtocolVersion)
    requires
        s.len() == 1 ==> packet::type_from(s[0] / 16) is Ok,
    ensures
        decode::take_packet(s, version).packet == (match stream_outcome(s, version) {
            Ok(Some((p, _))) => Ok(Some(p)),
            Ok(None) => Ok(None),
            Err(e) => Err::<Option<PacketView>, MqttError>(e),
        }),
        stream_outcome(s, version) matches Ok(Some((_, rest))) ==> decode::take_packet(
            s,
            version,
        ).rest == rest,
{
}

/// A reader knows after one byte whether it is the first of a packet.
pub proof fn first_bytes_are_checked(first: u8, version: ProtocolVersion)
    ensures
        first / 16 == 0 || first / 16 == 15 ==> stream_outcome(seq![first], version) == Err::<
            Option<(PacketView, Seq<u8>)>,
            MqttError,
        >(MqttError::Codec(crate::error::CodecError::InvalidPacketType(first / 16))),
        1 <= first / 16 <= 14 ==> stream_outcome(seq![first], version) == Ok::<
            Option<(PacketView, Seq<u8>)>,
            MqttError,
        >(None),
        stream_outcome(Seq::empty(), version) == Ok::<Option<(PacketView, Seq<u8>)>, MqttError>(
            None,
        ),
{
    assert(seq![first].skip(1) =~= Seq::<u8>::empty());
}

} // verus!
