//! Whole conversations with a broker. Every packet goes over the wire format in
//! both directions; only the sockets are missing.

use std::collections::HashMap;
use std::sync::Arc;

use bytes::{Bytes, BytesMut};
use hotaru_mqtt::codec;
use hotaru_mqtt::codec::reader::{PacketReader, ReadWant};
use hotaru_mqtt::protocol::inbound::{ChainOutcome, ReadOutcome, ServerChain};
use hotaru_mqtt::protocol::server::{accept_connect, answer_connect, ServerEvent, ServerSession, ServerStep};
use hotaru_mqtt::protocol::{detect, MqttProtocol};
use hotaru_mqtt::{
    writer_action, AcceptAllAuthenticator, AuthResult, Broker, ConnackPacket, ConnackReturnCode,
    ConnectPacket, ConnectionCounter, MqttChannel, MqttClientConfig, MqttError, Packet, Properties,
    ProtocolRole, ProtocolVersion, PublishPacket, QoS, SubackCode, SubackPacket, SubscribePacket,
    TopicSubscription, UnsubscribePacket, Violation, WillPacket, WriterAction,
};

// ----------------------------------------------------------------------------
// A broker with connections
// ----------------------------------------------------------------------------

struct Net {
    broker: Broker,
    counter: ConnectionCounter,
    sessions: HashMap<u64, ServerSession>,
    wires: HashMap<u64, BytesMut>,
    auth: AuthResult,
}

fn start_broker() -> Net {
    Net {
        broker: Broker::new(),
        counter: ConnectionCounter::new(),
        sessions: HashMap::new(),
        wires: HashMap::new(),
        auth: AuthResult::accept(),
    }
}

impl Net {
    fn connect_raw(&mut self) -> u64 {
        let channel = MqttChannel::new(&mut self.counter, ProtocolRole::Server);
        let id = channel.connection_id();
        self.broker.attach(id, channel);
        self.wires.insert(id, BytesMut::new());
        id
    }

    fn version(&mut self, id: u64) -> ProtocolVersion {
        let channel = self.broker.detach(id).unwrap();
        let version = channel.protocol_version();
        self.broker.attach(id, channel);
        version
    }

    /// Reads one packet off bytes that a client has sent.
    fn server_reads(&mut self, id: u64, bytes: &[u8]) -> ReadOutcome {
        let mut reader = PacketReader::new(self.version(id));
        let mut at = 0;
        loop {
            match reader.next_want() {
                ReadWant::Byte => {
                    if let Err(e) = reader.feed_byte(bytes[at]) {
                        return ReadOutcome::Failed(e);
                    }
                    at += 1;
                }
                ReadWant::Body(n) => {
                    assert_eq!(at + n, bytes.len());
                    return match reader.feed_body(&bytes[at..at + n]) {
                        Ok(p) => ReadOutcome::Packet(p),
                        Err(e) => ReadOutcome::Failed(e),
                    };
                }
            }
        }
    }

    fn send_packet_version(&mut self, id: u64, packet: &Packet, version: ProtocolVersion) {
        let bytes = codec::encode_packet(packet, version).unwrap();
        let read = self.server_reads(id, &bytes);
        self.takes(id, read).unwrap();
    }

    fn send_packet(&mut self, id: u64, packet: &Packet) {
        self.send_packet_version(id, packet, ProtocolVersion::V311);
    }

    /// The server takes in what it has read. Returns whether the loop goes on.
    fn takes(&mut self, id: u64, read: ReadOutcome) -> Result<bool, MqttError> {
        let outcome = self.serve(id, read);
        self.write_all();
        outcome
    }

    fn serve(&mut self, id: u64, read: ReadOutcome) -> Result<bool, MqttError> {
        let Some(mut session) = self.sessions.remove(&id) else {
            let connect = accept_connect(&mut self.broker, id, read)?;
            let session = answer_connect(&mut self.broker, id, &connect, self.auth)?;
            self.sessions.insert(id, session);
            return Ok(true);
        };
        match session.on_event(&mut self.broker, ServerEvent::Read(read))? {
            ServerStep::Continue(effect) => {
                if let Some(job) = effect.chain {
                    let chain = ServerChain::new(job.publish);
                    session.on_chain(&mut self.broker, job.pubcomp, chain.finish())?;
                }
                self.sessions.insert(id, session);
                Ok(true)
            }
            ServerStep::Break => {
                session.finish(&mut self.broker);
                if let Some(mut channel) = self.broker.detach(id) {
                    channel.close();
                }
                Ok(false)
            }
        }
    }

    /// Every writer empties its outbox onto its wire.
    fn write_all(&mut self) {
        let ids: Vec<u64> = self.wires.keys().copied().collect();
        for id in ids {
            let Some(mut channel) = self.broker.detach(id) else { continue };
            let version = channel.protocol_version();
            let wire = self.wires.get_mut(&id).unwrap();
            for cmd in channel.take_outbox() {
                match writer_action(Some(cmd), version) {
                    WriterAction::Write(bytes) => wire.extend_from_slice(&bytes),
                    WriterAction::WritePublish(header, payload) => {
                        wire.extend_from_slice(&header);
                        wire.extend_from_slice(&payload);
                    }
                    WriterAction::Flush => {}
                    WriterAction::Stop => channel.writer_stopped(),
                }
            }
            self.broker.attach(id, channel);
        }
    }

    fn read_packet_version(&mut self, id: u64, version: ProtocolVersion) -> Packet {
        let wire = self.wires.get_mut(&id).unwrap();
        codec::decode_packet_from_bytes(wire, version)
            .expect("malformed packet on the wire")
            .expect("nothing on the wire")
    }

    fn read_packet(&mut self, id: u64) -> Packet {
        self.read_packet_version(id, ProtocolVersion::V311)
    }

    fn nothing_to_read(&self, id: u64) -> bool {
        self.wires[&id].is_empty()
    }

    /// The wire breaks without a DISCONNECT.
    fn drops(&mut self, id: u64) {
        let broken = std::io::Error::new(std::io::ErrorKind::UnexpectedEof, "gone");
        assert!(!self.takes(id, ReadOutcome::Failed(MqttError::Io(broken))).unwrap());
    }

    fn connects(&mut self, client_id: &str) -> u64 {
        let id = self.connect_raw();
        self.send_packet(id, &connect_packet(client_id));
        let _ = self.read_packet(id);
        id
    }

    fn subscribes(&mut self, id: u64, filter: &str, qos: QoS) {
        self.send_packet(id, &subscribe(1, filter, qos));
        let _ = self.read_packet(id);
    }
}

fn connect_packet(client_id: &str) -> Packet {
    connect_packet_version(client_id, ProtocolVersion::V311)
}

fn connect_packet_version(client_id: &str, version: ProtocolVersion) -> Packet {
    Packet::Connect(Box::new(ConnectPacket {
        version,
        properties: Default::default(),
        client_id: Arc::from(client_id),
        clean_session: true,
        keep_alive: 60,
        username: None,
        password: None,
        will: None,
    }))
}

fn subscribe(packet_id: u16, filter: &str, qos: QoS) -> Packet {
    Packet::Subscribe(SubscribePacket {
        packet_id,
        subscriptions: vec![TopicSubscription { topic: Arc::from(filter), qos }],
    })
}

fn publish(topic: &str, payload: &'static [u8], qos: QoS, packet_id: Option<u16>) -> PublishPacket {
    PublishPacket {
        properties: Properties::default(),
        topic: Arc::from(topic),
        payload: Bytes::from_static(payload),
        dup: false,
        qos,
        retain: false,
        packet_id,
    }
}

// ----------------------------------------------------------------------------
// Conversations
// ----------------------------------------------------------------------------

#[test]
fn smoke_lib_constructible() {
    let _broker = Broker::new();
    let _config = MqttClientConfig::new("test-client");
    let _proto = MqttProtocol::server();
    let _proto = MqttProtocol::client();
}

#[test]
fn broker_constructs_cleanly() {
    let _broker = Broker::new();
}

#[test]
fn connect_returns_connack() {
    let mut net = start_broker();
    let id = net.connect_raw();
    net.send_packet(id, &connect_packet("test-client-1"));

    match net.read_packet(id) {
        Packet::Connack(ConnackPacket { session_present, return_code, .. }) => {
            assert!(!session_present);
            assert_eq!(return_code, ConnackReturnCode::Accepted);
        }
        other => panic!("expected CONNACK, got {:?}", other),
    }
}

#[test]
fn mqtt5_connect_returns_mqtt5_connack() {
    let mut net = start_broker();
    let id = net.connect_raw();
    let connect = connect_packet_version("mqtt5-client", ProtocolVersion::V5);
    net.send_packet_version(id, &connect, ProtocolVersion::V5);

    match net.read_packet_version(id, ProtocolVersion::V5) {
        Packet::Connack(ack) => {
            assert_eq!(ack.return_code, ConnackReturnCode::Accepted);
            assert!(ack.properties.is_empty());
        }
        other => panic!("expected MQTT 5 CONNACK, got {:?}", other),
    }
}

#[test]
fn v311_publish_is_encoded_for_mqtt5_subscriber() {
    let mut net = start_broker();
    let sub = net.connect_raw();
    let connect = connect_packet_version("mqtt5-sub", ProtocolVersion::V5);
    net.send_packet_version(sub, &connect, ProtocolVersion::V5);
    let _ = net.read_packet_version(sub, ProtocolVersion::V5);
    let filter = subscribe(1, "cross/version", QoS::AtMostOnce);
    net.send_packet_version(sub, &filter, ProtocolVersion::V5);
    let _ = net.read_packet_version(sub, ProtocolVersion::V5);

    let publisher = net.connects("v311-pub");
    let message = publish("cross/version", b"mixed", QoS::AtMostOnce, None);
    net.send_packet(publisher, &Packet::Publish(message));

    match net.read_packet_version(sub, ProtocolVersion::V5) {
        Packet::Publish(publish) => {
            assert_eq!(publish.topic.as_ref(), "cross/version");
            assert_eq!(&publish.payload[..], b"mixed");
            assert!(publish.properties.is_empty());
        }
        other => panic!("expected cross-version PUBLISH, got {:?}", other),
    }
}

#[test]
fn subscribe_returns_suback() {
    let mut net = start_broker();
    let id = net.connects("sub-client");
    net.send_packet(id, &subscribe(7, "sensors/+/temp", QoS::AtLeastOnce));

    match net.read_packet(id) {
        Packet::Suback(SubackPacket { packet_id, return_codes }) => {
            assert_eq!(packet_id, 7);
            assert_eq!(return_codes.len(), 1);
            assert!(matches!(return_codes[0], SubackCode::Granted(QoS::AtLeastOnce)));
        }
        other => panic!("expected SUBACK, got {:?}", other),
    }
}

#[test]
fn publish_q0_fanout_to_subscriber() {
    let mut net = start_broker();
    let sub = net.connects("sub");
    net.subscribes(sub, "hello/world", QoS::AtMostOnce);
    let publisher = net.connects("pub");
    let message = publish("hello/world", b"greetings", QoS::AtMostOnce, None);
    net.send_packet(publisher, &Packet::Publish(message));

    match net.read_packet(sub) {
        Packet::Publish(p) => {
            assert_eq!(p.topic.as_ref(), "hello/world");
            assert_eq!(&p.payload[..], b"greetings");
            assert_eq!(p.qos, QoS::AtMostOnce);
        }
        other => panic!("expected PUBLISH, got {:?}", other),
    }
}

#[test]
fn publish_q1_round_trip_with_puback() {
    let mut net = start_broker();
    let sub = net.connects("sub");
    net.subscribes(sub, "q1/topic", QoS::AtLeastOnce);
    let publisher = net.connects("pub");
    let message = publish("q1/topic", b"q1-payload", QoS::AtLeastOnce, Some(42));
    net.send_packet(publisher, &Packet::Publish(message));

    match net.read_packet(publisher) {
        Packet::Puback(id) => assert_eq!(id, 42),
        other => panic!("expected PUBACK, got {:?}", other),
    }

    match net.read_packet(sub) {
        Packet::Publish(p) => {
            assert_eq!(p.topic.as_ref(), "q1/topic");
            assert_eq!(&p.payload[..], b"q1-payload");
            assert_eq!(p.qos, QoS::AtLeastOnce);
            assert!(p.packet_id.is_some());
            net.send_packet(sub, &Packet::Puback(p.packet_id.unwrap()));
        }
        other => panic!("expected PUBLISH, got {:?}", other),
    }
}

#[test]
fn wildcard_plus_matches() {
    let mut net = start_broker();
    let sub = net.connects("wildsub");
    net.subscribes(sub, "a/+/c", QoS::AtMostOnce);
    let publisher = net.connects("wildpub");
    net.send_packet(publisher, &Packet::Publish(publish("a/b/c", b"hit", QoS::AtMostOnce, None)));

    match net.read_packet(sub) {
        Packet::Publish(p) => {
            assert_eq!(p.topic.as_ref(), "a/b/c");
            assert_eq!(&p.payload[..], b"hit");
        }
        other => panic!("expected PUBLISH, got {:?}", other),
    }
}

#[test]
fn wildcard_hash_matches() {
    let mut net = start_broker();
    let sub = net.connects("hsub");
    net.subscribes(sub, "sensors/#", QoS::AtMostOnce);
    let publisher = net.connects("hpub");
    let message = publish("sensors/floor/3/temp", b"deep", QoS::AtMostOnce, None);
    net.send_packet(publisher, &Packet::Publish(message));

    match net.read_packet(sub) {
        Packet::Publish(p) => assert_eq!(p.topic.as_ref(), "sensors/floor/3/temp"),
        other => panic!("expected PUBLISH, got {:?}", other),
    }
}

#[test]
fn unsubscribe_stops_delivery() {
    let mut net = start_broker();
    let sub = net.connects("unsub-test");
    net.subscribes(sub, "u/topic", QoS::AtMostOnce);
    net.send_packet(
        sub,
        &Packet::Unsubscribe(UnsubscribePacket { packet_id: 2, topics: vec![Arc::from("u/topic")] }),
    );
    match net.read_packet(sub) {
        Packet::Unsuback(packet) => assert_eq!(packet.packet_id, 2),
        other => panic!("expected UNSUBACK, got {:?}", other),
    }

    let publisher = net.connects("u-pub");
    let message = publish("u/topic", b"should not arrive", QoS::AtMostOnce, None);
    net.send_packet(publisher, &Packet::Publish(message));
    assert!(net.nothing_to_read(sub), "subscriber should not receive after UNSUBSCRIBE");
}

#[test]
fn pingreq_returns_pingresp() {
    let mut net = start_broker();
    let id = net.connects("pinger");
    net.send_packet(id, &Packet::Pingreq);
    match net.read_packet(id) {
        Packet::Pingresp => {}
        other => panic!("expected PINGRESP, got {:?}", other),
    }
}

#[test]
fn self_fanout_suppression() {
    let mut net = start_broker();
    let id = net.connects("self");
    net.subscribes(id, "self/topic", QoS::AtMostOnce);
    net.send_packet(id, &Packet::Publish(publish("self/topic", b"echo", QoS::AtMostOnce, None)));
    assert!(net.nothing_to_read(id), "self-publish should be suppressed");
}

#[test]
fn publish_q2_full_handshake() {
    let mut net = start_broker();
    let sub = net.connects("q2-sub");
    net.subscribes(sub, "q2/topic", QoS::ExactlyOnce);
    let publisher = net.connects("q2-pub");
    let message = publish("q2/topic", b"q2-payload", QoS::ExactlyOnce, Some(99));
    net.send_packet(publisher, &Packet::Publish(message));

    match net.read_packet(publisher) {
        Packet::Pubrec(id) => assert_eq!(id, 99),
        other => panic!("expected PUBREC, got {:?}", other),
    }
    assert!(net.nothing_to_read(sub));

    net.send_packet(publisher, &Packet::Pubrel(99));
    match net.read_packet(publisher) {
        Packet::Pubcomp(id) => assert_eq!(id, 99),
        other => panic!("expected PUBCOMP, got {:?}", other),
    }

    match net.read_packet(sub) {
        Packet::Publish(p) => {
            assert_eq!(p.topic.as_ref(), "q2/topic");
            assert_eq!(&p.payload[..], b"q2-payload");
            assert_eq!(p.qos, QoS::ExactlyOnce);
            assert!(p.packet_id.is_some());
            net.send_packet(sub, &Packet::Pubrec(p.packet_id.unwrap()));
            match net.read_packet(sub) {
                Packet::Pubrel(id) => {
                    assert_eq!(id, p.packet_id.unwrap());
                    net.send_packet(sub, &Packet::Pubcomp(id));
                }
                other => panic!("expected PUBREL, got {:?}", other),
            }
        }
        other => panic!("expected PUBLISH, got {:?}", other),
    }

    // A second PUBREL is answered, but brings nothing to the subscribers.
    net.send_packet(publisher, &Packet::Pubrel(99));
    assert!(matches!(net.read_packet(publisher), Packet::Pubcomp(99)));
    assert!(net.nothing_to_read(sub));
}

#[test]
fn fanout_to_multiple_subscribers() {
    let mut net = start_broker();
    let mut subs = Vec::new();
    for i in 0..3 {
        let id = net.connects(&format!("sub-{}", i));
        net.subscribes(id, "broadcast/topic", QoS::AtMostOnce);
        subs.push(id);
    }
    let publisher = net.connects("broadcaster");
    let message = publish("broadcast/topic", b"to all", QoS::AtMostOnce, None);
    net.send_packet(publisher, &Packet::Publish(message));

    for (i, id) in subs.into_iter().enumerate() {
        match net.read_packet(id) {
            Packet::Publish(p) => {
                assert_eq!(p.topic.as_ref(), "broadcast/topic", "sub {}", i);
                assert_eq!(&p.payload[..], b"to all", "sub {}", i);
            }
            other => panic!("sub {}: expected PUBLISH, got {:?}", i, other),
        }
    }
}

#[test]
fn multi_protocol_mqtt_works_alongside_http() {
    let bytes = codec::encode_packet(&connect_packet("multi-proto-mqtt"), ProtocolVersion::V311);
    assert!(detect(&bytes.unwrap()));
    assert!(!detect(b"GET / HTTP/1.1"));
    assert!(!detect(&[]));

    let mut net = start_broker();
    let id = net.connect_raw();
    net.send_packet(id, &connect_packet("multi-proto-mqtt"));
    match net.read_packet(id) {
        Packet::Connack(ConnackPacket { return_code, .. }) => {
            assert_eq!(return_code, ConnackReturnCode::Accepted);
        }
        other => panic!("expected CONNACK, got {:?}", other),
    }
}

#[test]
fn external_broker_publish_reaches_mqtt_subscriber() {
    let mut net = start_broker();
    let sub = net.connects("aiot-sub");
    net.subscribes(sub, "aiot/event", QoS::AtMostOnce);
    let message = publish("aiot/event", b"from-http", QoS::AtMostOnce, None);
    net.broker.publish("http-bridge", message);
    net.write_all();

    match net.read_packet(sub) {
        Packet::Publish(p) => {
            assert_eq!(p.topic.as_ref(), "aiot/event");
            assert_eq!(&p.payload[..], b"from-http");
        }
        other => panic!("expected PUBLISH from external broker.publish, got {:?}", other),
    }
}

fn will_connect(client_id: &str) -> Packet {
    Packet::Connect(Box::new(ConnectPacket {
        version: ProtocolVersion::V311,
        properties: Default::default(),
        client_id: Arc::from(client_id),
        clean_session: true,
        keep_alive: 60,
        username: None,
        password: None,
        will: Some(WillPacket {
            properties: Default::default(),
            topic: Arc::from("lwt/topic"),
            payload: Bytes::from_static(b"gone"),
            qos: QoS::AtMostOnce,
            retain: false,
        }),
    }))
}

#[test]
fn will_message_fires_on_abrupt_disconnect() {
    let mut net = start_broker();
    let sub = net.connects("lwt-sub");
    net.subscribes(sub, "lwt/topic", QoS::AtMostOnce);
    let publisher = net.connect_raw();
    net.send_packet(publisher, &will_connect("crash-client"));
    let _ = net.read_packet(publisher);
    net.drops(publisher);

    match net.read_packet(sub) {
        Packet::Publish(p) => {
            assert_eq!(p.topic.as_ref(), "lwt/topic");
            assert_eq!(&p.payload[..], b"gone");
        }
        other => panic!("expected will PUBLISH, got {:?}", other),
    }
}

#[test]
fn a_goodbye_keeps_the_will_quiet() {
    let mut net = start_broker();
    let sub = net.connects("lwt-sub");
    net.subscribes(sub, "lwt/topic", QoS::AtMostOnce);
    let publisher = net.connect_raw();
    net.send_packet(publisher, &will_connect("polite-client"));
    assert!(!net.takes(publisher, ReadOutcome::Packet(Packet::Disconnect)).unwrap());
    assert!(net.nothing_to_read(sub));
}

#[test]
fn a_keep_alive_that_runs_out_fires_the_will() {
    let mut net = start_broker();
    let sub = net.connects("lwt-sub");
    net.subscribes(sub, "lwt/topic", QoS::AtMostOnce);
    let publisher = net.connect_raw();
    net.send_packet(publisher, &will_connect("silent-client"));
    let session = net.sessions.get(&publisher).unwrap();
    assert_eq!(session.next_read(&net.broker), Some(90));
    assert!(!net.takes(publisher, ReadOutcome::TimedOut).unwrap());
    assert!(matches!(net.read_packet(sub), Packet::Publish(_)));
}

#[test]
fn refused_clients_get_the_code_and_no_session() {
    let mut net = start_broker();
    net.auth = AuthResult::reject(ConnackReturnCode::BadUsernameOrPassword);
    let id = net.connect_raw();
    let read = ReadOutcome::Packet(connect_packet("stranger"));
    assert!(matches!(
        net.takes(id, read),
        Err(MqttError::Protocol(Violation::ConnectionRefused(
            ConnackReturnCode::BadUsernameOrPassword
        )))
    ));
    match net.read_packet(id) {
        Packet::Connack(ack) => {
            assert_eq!(ack.return_code, ConnackReturnCode::BadUsernameOrPassword);
            assert!(!ack.session_present);
        }
        other => panic!("expected CONNACK, got {:?}", other),
    }
    let codes = net.broker.subscribe(
        &Arc::from("stranger"),
        &[hotaru_mqtt::TopicFilter::new("a", QoS::AtMostOnce)],
    );
    assert_eq!(codes, vec![SubackCode::Failure]);
}

#[test]
fn the_first_packet_has_to_be_connect() {
    let mut net = start_broker();
    let id = net.connect_raw();
    assert!(matches!(
        net.takes(id, ReadOutcome::Packet(Packet::Pingreq)),
        Err(MqttError::Protocol(Violation::ExpectedConnect))
    ));
    let id = net.connect_raw();
    assert!(matches!(
        net.takes(id, ReadOutcome::TimedOut),
        Err(MqttError::Timeout(hotaru_mqtt::TimeoutKind::ConnectReceive))
    ));
}

#[test]
fn a_second_connect_ends_the_connection() {
    let mut net = start_broker();
    let id = net.connects("twice");
    assert!(matches!(
        net.takes(id, ReadOutcome::Packet(connect_packet("twice"))),
        Err(MqttError::Protocol(Violation::SessionAlreadyBound))
    ));
}

/// A client with a will that subscribes, and somebody who listens for the will.
fn net_with_a_will() -> (Net, u64, u64) {
    let mut net = start_broker();
    let listener = net.connects("listener");
    net.subscribes(listener, "lwt/topic", QoS::AtMostOnce);
    let client = net.connect_raw();
    net.send_packet(client, &will_connect("failing"));
    let _ = net.read_packet(client);
    net.subscribes(client, "t", QoS::AtMostOnce);
    (net, listener, client)
}

/// The will has come, and the client is gone.
fn assert_torn_down(mut net: Net, listener: u64, client: u64) {
    match net.read_packet(listener) {
        Packet::Publish(p) => assert_eq!(&p.payload[..], b"gone"),
        other => panic!("expected will PUBLISH, got {:?}", other),
    }
    net.broker.publish("source", publish("t", b"x", QoS::AtMostOnce, None));
    net.write_all();
    assert!(net.nothing_to_read(client));
    let present =
        net.broker.register_session(Arc::from("failing"), client, None, false);
    assert!(!present);
}

#[test]
fn bytes_that_do_not_decode_tear_the_session_down() {
    let (mut net, listener, client) = net_with_a_will();
    let read = net.server_reads(client, &[0xF0, 0x00]);
    assert!(net.takes(client, read).is_err());
    assert_torn_down(net, listener, client);
}

#[test]
fn a_second_connect_tears_the_session_down() {
    let (mut net, listener, client) = net_with_a_will();
    assert!(net.takes(client, ReadOutcome::Packet(will_connect("failing"))).is_err());
    assert_torn_down(net, listener, client);
}

#[test]
fn a_connack_or_pubcomp_that_cannot_be_sent_tears_the_session_down() {
    let (mut net, listener, client) = net_with_a_will();
    let stored = Packet::Publish(publish("elsewhere", b"x", QoS::ExactlyOnce, Some(7)));
    net.send_packet(client, &stored);
    let _ = net.read_packet(client);
    let mut channel = net.broker.detach(client).unwrap();
    channel.writer_stopped();
    net.broker.attach(client, channel);
    assert!(matches!(
        net.takes(client, ReadOutcome::Packet(Packet::Pubrel(7))),
        Err(MqttError::ChannelClosed)
    ));
    assert_torn_down(net, listener, client);

    let mut net = start_broker();
    let listener = net.connects("listener");
    net.subscribes(listener, "lwt/topic", QoS::AtMostOnce);
    let client = net.connect_raw();
    let mut channel = net.broker.detach(client).unwrap();
    channel.writer_stopped();
    net.broker.attach(client, channel);
    assert!(matches!(
        net.takes(client, ReadOutcome::Packet(will_connect("failing"))),
        Err(MqttError::ChannelClosed)
    ));
    assert_torn_down(net, listener, client);
}

#[test]
fn wildcards_do_not_subscribe_to_reserved_topics() {
    let mut net = start_broker();
    let all = net.connects("all");
    net.subscribes(all, "#", QoS::AtMostOnce);
    let system = net.connects("system");
    net.subscribes(system, "$SYS/#", QoS::AtMostOnce);
    net.broker.publish("source", publish("$SYS/uptime", b"1", QoS::AtMostOnce, None));
    net.write_all();
    assert!(net.nothing_to_read(all));
    assert!(matches!(net.read_packet(system), Packet::Publish(_)));
}

#[test]
fn nameless_clients_are_named_after_their_connection() {
    let mut net = start_broker();
    for _ in 0..11 {
        net.connect_raw();
    }
    let id = net.connect_raw();
    assert_eq!(id, 12);
    net.send_packet(id, &connect_packet(""));
    let session = net.sessions.get(&id).unwrap();
    assert_eq!(session.client_id().as_ref(), "hotaru-auto-12");
}

#[test]
fn a_kept_session_is_found_again() {
    let mut net = start_broker();
    let connect = |clean_session: bool| {
        Packet::Connect(Box::new(ConnectPacket {
            version: ProtocolVersion::V311,
            properties: Default::default(),
            client_id: Arc::from("keeper"),
            clean_session,
            keep_alive: 60,
            username: None,
            password: None,
            will: None,
        }))
    };
    let first = net.connect_raw();
    net.send_packet(first, &connect(false));
    assert!(matches!(net.read_packet(first), Packet::Connack(a) if !a.session_present));
    net.subscribes(first, "kept", QoS::AtMostOnce);

    let second = net.connect_raw();
    net.send_packet(second, &connect(false));
    assert!(matches!(net.read_packet(second), Packet::Connack(a) if a.session_present));
    net.broker.publish("other", publish("kept", b"x", QoS::AtMostOnce, None));
    net.write_all();
    assert!(matches!(net.read_packet(second), Packet::Publish(_)));
    assert!(net.nothing_to_read(first));

    let third = net.connect_raw();
    net.send_packet(third, &connect(true));
    assert!(matches!(net.read_packet(third), Packet::Connack(a) if !a.session_present));
    net.broker.publish("other", publish("kept", b"x", QoS::AtMostOnce, None));
    net.write_all();
    assert!(net.nothing_to_read(third));
}

#[test]
fn subscribers_are_served_at_the_lower_qos() {
    let mut net = start_broker();
    let low = net.connects("low");
    net.subscribes(low, "q", QoS::AtMostOnce);
    let high = net.connects("high");
    net.subscribes(high, "q", QoS::ExactlyOnce);
    let mut message = publish("q", b"x", QoS::AtLeastOnce, None);
    message.retain = true;
    message.dup = true;
    net.broker.publish("source", message);
    net.write_all();
    match net.read_packet(low) {
        Packet::Publish(p) => {
            assert_eq!(p.qos, QoS::AtMostOnce);
            assert_eq!(p.packet_id, None);
            assert!(!p.retain && !p.dup);
        }
        other => panic!("expected PUBLISH, got {:?}", other),
    }
    match net.read_packet(high) {
        Packet::Publish(p) => {
            assert_eq!(p.qos, QoS::AtLeastOnce);
            assert_eq!(p.packet_id, Some(1));
        }
        other => panic!("expected PUBLISH, got {:?}", other),
    }
}

#[test]
fn overlapping_filters_deliver_once_each() {
    let mut net = start_broker();
    let sub = net.connects("twofold");
    net.subscribes(sub, "a/b", QoS::AtMostOnce);
    net.subscribes(sub, "a/#", QoS::AtMostOnce);
    net.broker.publish("source", publish("a/b", b"x", QoS::AtMostOnce, None));
    net.write_all();
    assert!(matches!(net.read_packet(sub), Packet::Publish(_)));
    assert!(matches!(net.read_packet(sub), Packet::Publish(_)));
    assert!(net.nothing_to_read(sub));
}

#[test]
fn bad_filters_fail_alone() {
    let mut net = start_broker();
    let id = net.connects("mixed");
    net.send_packet(
        id,
        &Packet::Subscribe(SubscribePacket {
            packet_id: 5,
            subscriptions: vec![
                TopicSubscription { topic: Arc::from("a/#/b"), qos: QoS::AtMostOnce },
                TopicSubscription { topic: Arc::from("a/b"), qos: QoS::ExactlyOnce },
            ],
        }),
    );
    match net.read_packet(id) {
        Packet::Suback(s) => assert_eq!(
            s.return_codes,
            vec![SubackCode::Failure, SubackCode::Granted(QoS::ExactlyOnce)]
        ),
        other => panic!("expected SUBACK, got {:?}", other),
    }
}

#[test]
fn a_publish_to_a_stopped_writer_is_lost_quietly() {
    let mut net = start_broker();
    let sub = net.connects("stopped");
    net.subscribes(sub, "t", QoS::AtLeastOnce);
    let mut channel = net.broker.detach(sub).unwrap();
    channel.writer_stopped();
    net.broker.attach(sub, channel);
    net.broker.publish("source", publish("t", b"x", QoS::AtLeastOnce, None));
    net.write_all();
    assert!(net.nothing_to_read(sub));
    assert!(!net.broker.is_open(sub));
    assert!(matches!(
        net.takes(sub, ReadOutcome::Packet(Packet::Pingreq)),
        Err(MqttError::ChannelClosed)
    ));
}

#[test]
fn endpoints_can_change_or_keep_back_a_publish() {
    let mut chain = ServerChain::new(publish("in", b"old", QoS::AtLeastOnce, Some(4)));
    let mut incoming = chain.incoming();
    incoming.topic = Arc::from("out");
    incoming.payload = Bytes::from_static(b"new");
    chain.apply(ChainOutcome::Finished { fanout: true, incoming: Some(incoming) });
    chain.apply(ChainOutcome::Finished { fanout: true, incoming: None });
    let changed = chain.finish().unwrap();
    assert_eq!(changed.topic.as_ref(), "out");
    assert_eq!(&changed.payload[..], b"new");
    assert_eq!(changed.packet_id, Some(4));

    let mut chain = ServerChain::new(publish("in", b"old", QoS::AtMostOnce, None));
    chain.apply(ChainOutcome::Finished { fanout: false, incoming: None });
    chain.apply(ChainOutcome::Finished { fanout: true, incoming: None });
    assert!(chain.finish().is_none());

    let mut chain = ServerChain::new(publish("in", b"old", QoS::AtMostOnce, None));
    chain.apply(ChainOutcome::Failed);
    assert!(chain.finish().is_none());
}

#[test]
fn the_default_authenticator_accepts() {
    let Packet::Connect(connect) = connect_packet("anyone") else { unreachable!() };
    assert_eq!(AcceptAllAuthenticator.authenticate(&connect), AuthResult::accept());
    assert!(AuthResult::accept().accepted);
    assert!(!AuthResult::reject(ConnackReturnCode::NotAuthorized).accepted);
}

#[test]
fn a_client_keeps_its_first_connection() {
    let mut client = MqttProtocol::client();
    assert!(matches!(client.acquire_channel(), Err(MqttError::NotConnected(_))));
    client.open_channel(3);
    client.open_channel(4);
    assert!(matches!(client.acquire_channel(), Ok(3)));
    assert_eq!(client.role(), ProtocolRole::Client);
    let mut server = MqttProtocol::server();
    server.open_channel(3);
    assert!(matches!(server.acquire_channel(), Err(MqttError::Configuration(_))));
}
