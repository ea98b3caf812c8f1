//! Version-aware MQTT 3.1.1 and MQTT 5 wire codec.

use bytes::BytesMut;
use vstd::prelude::*;

use crate::buffers;
use crate::error::MqttError;
use crate::packet::{Packet, PacketView, ProtocolVersion};

pub mod decode;
pub mod encode;
pub mod laws;
pub mod layout;
pub mod reader;

pub use decode::decode_packet_from_bytes;
pub use encode::encode_packet;

verus! {

/// The version that a packet is framed under when the connection is not known:
/// that of a CONNECT, the default one otherwise.
pub open spec fn own_version(p: PacketView) -> ProtocolVersion {
    match p {
        PacketView::Connect(c) => c.version,
        _ => ProtocolVersion::V311,
    }
}

impl Packet {
    /// Appends the encoded packet to a buffer.
    pub fn encode(&self, buf: &mut BytesMut) -> (r: Result<(), MqttError>)
        ensures
            match encode::packet_bytes(self@, own_version(self@)) {
                Ok(b) => r is Ok && buffers::buffered(*final(buf)) == buffers::buffered(*old(buf))
                    + b,
                Err(e) => r == Err::<(), MqttError>(e) && buffers::buffered(*final(buf))
                    == buffers::buffered(*old(buf)),
            },
    {
        let version = match self {
            Packet::Connect(connect) => connect.version,
            _ => ProtocolVersion::default(),
        };
        match encode_packet(self, version) {
            Ok(bytes) => {
                buffers::extend_buffer(buf, bytes.as_slice());
                Ok(())
            },
            Err(e) => Err(e),
        }
    }

    /// Takes one packet off a buffer. `Ok(None)` asks for more bytes.
    pub fn decode(buf: &mut BytesMut) -> (r: Result<Option<Packet>, MqttError>)
        ensures
            match decode::take_packet(
                buffers::buffered(*old(buf)),
                ProtocolVersion::V311,
            ).packet {
                Ok(Some(p)) => r matches Ok(Some(got)) && got@ == p,
                Ok(None) => r matches Ok(None),
                Err(e) => r == Err::<Option<Packet>, MqttError>(e),
            },
            buffers::buffered(*final(buf)) == decode::take_packet(
                buffers::buffered(*old(buf)),
                ProtocolVersion::V311,
            ).rest,
    {
        decode_packet_from_bytes(buf, ProtocolVersion::default())
    }
}

} // verus!
