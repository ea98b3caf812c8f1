//! The MQTT protocol: what each side of a connection does with what comes in
//! and what it is asked to send.
//!
//! Every decision is a function of the state and of what has happened: a packet
//! that was read, a time that has run out, an acknowledgement that has come.
//! The functions change the state and say what has to be done next; reading,
//! writing and waiting are up to the caller.

use vstd::prelude::*;

use crate::channel::ProtocolRole;
use crate::error::MqttError;

pub mod client;
pub mod inbound;
pub mod laws;
pub mod outbound;
pub mod server;

verus! {

/// How long a server waits for CONNECT, in seconds.
pub const CONNECT_RECEIVE_TIMEOUT_SECS: u64 = 10;

/// How long an operation waits for its acknowledgement, in seconds.
pub const DEFAULT_ACK_TIMEOUT_SECS: u64 = 30;

/// The name under which a server finds its broker.
pub const BROKER_STATICS_KEY: &'static str = "hotaru_mqtt::broker";

/// The name under which a client finds its configuration.
pub const CLIENT_CONFIG_STATICS_KEY: &'static str = "hotaru_mqtt::client_config";

/// Whether the first bytes of a connection look like MQTT: CONNECT comes first.
pub fn detect(initial_bytes: &[u8]) -> (r: bool)
    ensures
        r == (initial_bytes@.len() > 0 && initial_bytes@[0] / 16 == 1),
{
    initial_bytes.len() > 0 && initial_bytes[0] / 16 == 1
}

/// The two sides of the protocol. A client keeps the number of its first
/// connection, so that later operations use it.
pub struct MqttProtocol {
    role: ProtocolRole,
    session_channel: Option<u64>,
}

impl MqttProtocol {
    pub closed spec fn side(self) -> ProtocolRole {
        self.role
    }

    /// The connection that operations use.
    pub closed spec fn connection(self) -> Option<u64> {
        self.session_channel
    }

    pub fn server() -> (r: Self)
        ensures
            r.side() == ProtocolRole::Server,
            r.connection() is None,
    {
        MqttProtocol { role: ProtocolRole::Server, session_channel: None }
    }

    pub fn client() -> (r: Self)
        ensures
            r.side() == ProtocolRole::Client,
            r.connection() is None,
    {
        MqttProtocol { role: ProtocolRole::Client, session_channel: None }
    }

    pub fn role(&self) -> (r: ProtocolRole)
        ensures
            r == self.side(),
    {
        self.role
    }

    /// Takes note of a connection. On a client the first one stays.
    pub fn open_channel(&mut self, connection: u64)
        ensures
            final(self).side() == old(self).side(),
            final(self).connection() == (if old(self).side() == ProtocolRole::Client && old(
                self,
            ).connection() is None {
                Some(connection)
            } else {
                old(self).connection()
            }),
    {
        if self.role == ProtocolRole::Client && self.session_channel.is_none() {
            self.session_channel = Some(connection);
        }
    }

    /// The connection for an operation. A server has none to offer, and a client
    /// has none before it is connected.
    pub fn acquire_channel(&self) -> (r: Result<u64, MqttError>)
        ensures
            self.side() == ProtocolRole::Server ==> (r matches Err(MqttError::Configuration(m))
                && m@ == "acquire_channel called on Server-mode MqttProtocol"@),
            self.side() == ProtocolRole::Client ==> match self.connection() {
                Some(n) => r == Ok::<u64, MqttError>(n),
                None => r matches Err(MqttError::NotConnected(m)) && m@
                    == "call client.run_wire(wire) to establish session first"@,
            },
    {
        if self.role == ProtocolRole::Server {
            return Err(
                MqttError::Configuration(
                    "acquire_channel called on Server-mode MqttProtocol".to_owned(),
                ),
            );
        }
        match self.session_channel {
            Some(n) => Ok(n),
            None => Err(
                MqttError::NotConnected(
                    "call client.run_wire(wire) to establish session first".to_owned(),
                ),
            ),
        }
    }
}

/// The times and names that both sides go by.
pub proof fn times_and_names_are_fixed()
    ensures
        CONNECT_RECEIVE_TIMEOUT_SECS == 10,
        DEFAULT_ACK_TIMEOUT_SECS == 30,
        BROKER_STATICS_KEY@ == "hotaru_mqtt::broker"@,
        CLIENT_CONFIG_STATICS_KEY@ == "hotaru_mqtt::client_config"@,
{
}

} // verus!
