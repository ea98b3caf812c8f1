//! MQTT 3.1.1 broker and client, with MQTT 5 framing chosen per connection by
//! the CONNECT handshake.
//!
//! The library holds what an MQTT endpoint knows and decides: the wire codec,
//! topic matching, sessions and what they have in flight, the broker, and the
//! two sides of the protocol. It does no I/O. A caller reads and writes, keeps
//! the time and runs endpoints; it hands in what has happened and carries out
//! what comes back.
//!
//! Contracts are stated over views: a packet is its fields over characters and
//! bytes, a channel is its session and its outbox, a broker is three maps. The
//! laws that relate several functions are public proof functions, at the end of
//! their module or in `codec::laws`, `codec::layout`, `properties::laws`, `fanout`
//! and `protocol::laws`; those that speak of calls are in `promises`.

mod broker;
mod buffers;
mod channel;
mod client;
pub mod codec;
mod error;
pub mod fanout;
mod packet;
pub mod promises;
pub mod properties;
pub mod protocol;
mod request;
mod session;
mod tables;
mod text;
pub mod topic;
pub mod wire;

pub use bytes::{Bytes, BytesMut};

pub use broker::{
    incoming_from_packet, AcceptAllAuthenticator, AuthResult, Broker, SubscriberEntry,
};
pub use channel::{
    writer_action, ConnectionCounter, MqttChannel, ProtocolRole, WriteCmd, WriterAction,
};
pub use client::{build_connect, MqttClientConfig};
pub use error::{CodecError, MqttError, TimeoutKind, Violation};
pub use packet::{
    ConnackPacket, ConnackReturnCode, ConnectPacket, Packet, PacketType, ProtocolVersion,
    PublishPacket, SubackPacket, SubscribePacket, TopicSubscription, UnsubackPacket,
    UnsubscribePacket, WillPacket,
};
pub use properties::Properties;
pub use protocol::{MqttProtocol, BROKER_STATICS_KEY, CLIENT_CONFIG_STATICS_KEY};
pub use request::{
    Credentials, IncomingPublish, MqttRequest, MqttResponse, PacketId, PublishAck, PublishRequest,
    QoS, SubackCode, TopicFilter, WillMessage,
};
pub use session::{AckSlot, BindInfo, MqttSession, OnceLockBindInfo};
pub use topic::{validate_publish_topic, validate_subscribe_filter};
