//! Startup configuration of a client session.

use std::sync::Arc;
use std::time::Duration;

use bytes::Bytes;
use vstd::prelude::*;

use crate::buffers;
use crate::packet::{ConnectPacket, ConnectView, ProtocolVersion, WillPacket, WillView};
use crate::properties::{Properties, PropertiesView};
use crate::request::{Credentials, QoS, TopicFilter, WillMessage};
use crate::wire;

verus! {

/// What `Duration::from_secs` returns.
pub uninterp spec fn span_of_seconds(secs: u64) -> Duration;

/// Calls `Duration::from_secs`: the span of that many seconds, which is the
/// same for the same number.
#[verifier::external_body]
pub(crate) fn seconds(secs: u64) -> (r: Duration)
    ensures
        r == span_of_seconds(secs),
{
    Duration::from_secs(secs)
}

/// All settings that bring up a client session.
pub struct MqttClientConfig {
    pub client_id: Arc<str>,
    /// Wire protocol version of the session. MQTT 3.1.1 unless set otherwise.
    pub protocol_version: ProtocolVersion,
    pub clean_session: bool,
    pub keep_alive_secs: u16,
    pub connect_timeout: Duration,
    pub credentials: Option<Credentials>,
    pub initial_subscriptions: Vec<TopicFilter>,
    pub will: Option<WillMessage>,
}

/// What a configuration says.
#[verifier::ext_equal]
pub struct ConfigView {
    pub client_id: Seq<char>,
    pub protocol_version: ProtocolVersion,
    pub clean_session: bool,
    pub keep_alive_secs: u16,
    pub connect_timeout: Duration,
    pub credentials: Option<(Seq<char>, Seq<u8>)>,
    pub initial_subscriptions: Seq<(Seq<char>, QoS)>,
    pub will: Option<WillView>,
}

impl View for MqttClientConfig {
    type V = ConfigView;

    open spec fn view(&self) -> ConfigView {
        ConfigView {
            client_id: wire::text(self.client_id),
            protocol_version: self.protocol_version,
            clean_session: self.clean_session,
            keep_alive_secs: self.keep_alive_secs,
            connect_timeout: self.connect_timeout,
            credentials: match self.credentials {
                Some(c) => Some(c@),
                None => None,
            },
            initial_subscriptions: self.initial_subscriptions@.map_values(|f: TopicFilter| f@),
            will: match self.will {
                Some(w) => Some(w@),
                None => None,
            },
        }
    }
}

impl MqttClientConfig {
    /// MQTT 3.1.1, a clean session, 60 seconds of keep-alive, 30 seconds to
    /// connect; no credentials, subscriptions or will.
    pub fn new(client_id: &str) -> (r: Self)
        ensures
            r@ == (ConfigView {
                client_id: client_id@,
                protocol_version: ProtocolVersion::V311,
                clean_session: true,
                keep_alive_secs: 60,
                connect_timeout: span_of_seconds(30),
                credentials: None,
                initial_subscriptions: Seq::empty(),
                will: None,
            }),
    {
        let r = MqttClientConfig {
            client_id: wire::shared_text(client_id),
            protocol_version: ProtocolVersion::default(),
            clean_session: true,
            keep_alive_secs: 60,
            connect_timeout: seconds(30),
            credentials: None,
            initial_subscriptions: Vec::new(),
            will: None,
        };
        assert(r@.initial_subscriptions =~= Seq::empty());
        r
    }

    /// Selects the wire version of the connection.
    pub fn protocol_version(self, version: ProtocolVersion) -> (r: Self)
        ensures
            r@ == (ConfigView { protocol_version: version, ..self@ }),
    {
        let mut config = self;
        config.protocol_version = version;
        config
    }

    pub fn clean_session(self, value: bool) -> (r: Self)
        ensures
            r@ == (ConfigView { clean_session: value, ..self@ }),
    {
        let mut config = self;
        config.clean_session = value;
        config
    }

    pub fn keep_alive(self, secs: u16) -> (r: Self)
        ensures
            r@ == (ConfigView { keep_alive_secs: secs, ..self@ }),
    {
        let mut config = self;
        config.keep_alive_secs = secs;
        config
    }

    pub fn connect_timeout(self, t: Duration) -> (r: Self)
        ensures
            r@ == (ConfigView { connect_timeout: t, ..self@ }),
    {
        let mut config = self;
        config.connect_timeout = t;
        config
    }

    pub fn with_credentials(self, username: &str, password: Bytes) -> (r: Self)
        ensures
            r@ == (ConfigView {
                credentials: Some((username@, buffers::payload(password))),
                ..self@
            }),
    {
        let mut config = self;
        config.credentials = Some(Credentials::new(username, password));
        config
    }

    /// Adds a subscription that is made right after connecting.
    pub fn with_initial_subscribe(self, filter: &str, qos: QoS) -> (r: Self)
        ensures
            r@ == (ConfigView {
                initial_subscriptions: self@.initial_subscriptions.push((filter@, qos)),
                ..self@
            }),
    {
        let mut config = self;
        config.initial_subscriptions.push(TopicFilter::new(filter, qos));
        assert(config@.initial_subscriptions =~= self@.initial_subscriptions.push((filter@, qos)));
        config
    }

    pub fn with_will(self, will: WillMessage) -> (r: Self)
        ensures
            r@ == (ConfigView { will: Some(will@), ..self@ }),
    {
        let mut config = self;
        config.will = Some(will);
        config
    }
}

/// The CONNECT that a configuration asks for.
pub open spec fn connect_of(c: ConfigView) -> ConnectView {
    ConnectView {
        version: c.protocol_version,
        properties: PropertiesView::empty(),
        client_id: c.client_id,
        clean_session: c.clean_session,
        keep_alive: c.keep_alive_secs,
        username: match c.credentials {
            Some((username, _)) => Some(username),
            None => None,
        },
        password: match c.credentials {
            Some((_, password)) => Some(password),
            None => None,
        },
        will: c.will,
    }
}

/// Builds the CONNECT that a configuration asks for.
pub fn build_connect(config: &MqttClientConfig) -> (r: ConnectPacket)
    ensures
        r@ == connect_of(config@),
{
    let (username, password) = match &config.credentials {
        Some(c) => (Some(c.username.clone()), Some(buffers::share_bytes(&c.password))),
        None => (None, None),
    };
    let will = match &config.will {
        Some(w) => Some(
            WillPacket {
                properties: Properties::default(),
                topic: w.topic.clone(),
                payload: buffers::share_bytes(&w.payload),
                qos: w.qos,
                retain: w.retain,
            },
        ),
        None => None,
    };
    ConnectPacket {
        version: config.protocol_version,
        properties: Properties::default(),
        client_id: config.client_id.clone(),
        clean_session: config.clean_session,
        keep_alive: config.keep_alive_secs,
        username,
        password,
        will,
    }
}

// ----------------------------------------------------------------------------
// Laws
// ----------------------------------------------------------------------------

/// CONNECT says what the configuration says, field by field: the user name and
/// the password are those of the credentials, and the will is the configured
/// one.
pub proof fn connect_follows_the_configuration(config: MqttClientConfig)
    ensures
        ({
            let c = connect_of(config@);
            &&& c.version == config.protocol_version
            &&& c.client_id == (*config.client_id)@
            &&& c.clean_session == config.clean_session
            &&& c.keep_alive == config.keep_alive_secs
            &&& c.properties == PropertiesView::empty()
            &&& config.credentials matches Some(k) ==> c.username == Some((*k.username)@)
                && c.password == Some(buffers::payload(k.password))
            &&& config.credentials is None ==> c.username is None && c.password is None
            &&& config.will matches Some(w) ==> (c.will matches Some(v) && {
                &&& v.topic == (*w.topic)@
                &&& v.payload == buffers::payload(w.payload)
                &&& v.qos == w.qos
                &&& v.retain == w.retain
                &&& v.properties == PropertiesView::empty()
            })
            &&& config.will is None ==> c.will is None
        }),
        config@.initial_subscriptions.len() == config.initial_subscriptions@.len(),
        forall|i: int|
            0 <= i < config.initial_subscriptions@.len() ==> (
            #[trigger] config@.initial_subscriptions[i]).0 == (
            *config.initial_subscriptions@[i].filter)@ && config@.initial_subscriptions[i].1
                == config.initial_subscriptions@[i].qos,
        config@.connect_timeout == config.connect_timeout,
{
}

} // verus!
