//! The client side: operations, acknowledgements, inbound packets.

use std::sync::Arc;
use std::time::Duration;

use bytes::Bytes;
use hotaru_mqtt::protocol::client::{
    accept_connack, accept_initial_suback, dispatch_client_inbound, finish, on_event,
    ping_interval_secs, send_connect, send_initial_subscriptions, ClientEvent,
};
use hotaru_mqtt::protocol::inbound::{falls_back, Delivery, ReadOutcome};
use hotaru_mqtt::protocol::outbound::{
    publish_acknowledged, publish_completed, publish_received, send_publish, send_subscribe,
    send_unsubscribe, subscribe_acknowledged, unsubscribe_acknowledged, AckOutcome,
    PublishProgress,
};
use hotaru_mqtt::{
    build_connect, AckSlot, BindInfo, ConnackPacket, ConnackReturnCode, ConnectionCounter,
    MqttChannel, MqttClientConfig, MqttError, MqttResponse, MqttSession, OnceLockBindInfo, Packet,
    Properties, ProtocolRole, ProtocolVersion, PublishAck, PublishPacket, PublishRequest, QoS,
    SubackCode, SubackPacket, TimeoutKind, TopicFilter, UnsubackPacket, Violation, WillMessage,
    WriteCmd,
};
use tokio::sync::oneshot;

fn channel() -> MqttChannel {
    MqttChannel::new(&mut ConnectionCounter::new(), ProtocolRole::Client)
}

fn request(qos: QoS) -> PublishRequest {
    PublishRequest { topic: Arc::from("t"), payload: Bytes::from_static(b"x"), qos, retain: false }
}

fn inbound(qos: QoS, packet_id: Option<u16>) -> Packet {
    Packet::Publish(PublishPacket {
        properties: Properties::default(),
        topic: Arc::from("in"),
        payload: Bytes::from_static(b"y"),
        dup: false,
        qos,
        retain: false,
        packet_id,
    })
}

fn connack(return_code: ConnackReturnCode) -> ReadOutcome {
    ReadOutcome::Packet(Packet::Connack(ConnackPacket {
        properties: Properties::default(),
        session_present: false,
        return_code,
    }))
}

fn fire(delivery: Option<Delivery>) {
    match delivery {
        Some(Delivery::Id(tx, id)) => tx.send(id).unwrap(),
        Some(Delivery::Codes(tx, codes)) => tx.send(codes).unwrap(),
        Some(Delivery::Done(tx)) => tx.send(()).unwrap(),
        None => panic!("nobody to tell"),
    }
}

#[test]
fn a_configuration_has_defaults() {
    let config = MqttClientConfig::new("device-42");
    assert_eq!(config.client_id.as_ref(), "device-42");
    assert_eq!(config.protocol_version, ProtocolVersion::V311);
    assert!(config.clean_session);
    assert_eq!(config.keep_alive_secs, 60);
    assert_eq!(config.connect_timeout, Duration::from_secs(30));
    assert!(config.credentials.is_none());
    assert!(config.initial_subscriptions.is_empty());
    assert!(config.will.is_none());
}

#[test]
fn a_configuration_becomes_a_connect() {
    let config = MqttClientConfig::new("device-42")
        .protocol_version(ProtocolVersion::V5)
        .clean_session(false)
        .keep_alive(15)
        .connect_timeout(Duration::from_secs(3))
        .with_credentials("user", Bytes::from_static(b"secret"))
        .with_initial_subscribe("sensors/+/temp", QoS::AtLeastOnce)
        .with_will(WillMessage::new("bye", Bytes::from_static(b"gone"), QoS::ExactlyOnce, true));
    assert_eq!(config.connect_timeout, Duration::from_secs(3));
    assert_eq!(config.initial_subscriptions[0].filter.as_ref(), "sensors/+/temp");
    let connect = build_connect(&config);
    assert_eq!(connect.version, ProtocolVersion::V5);
    assert!(!connect.clean_session);
    assert_eq!(connect.keep_alive, 15);
    assert_eq!(connect.username.as_deref(), Some("user"));
    assert_eq!(&connect.password.unwrap()[..], b"secret");
    let will = connect.will.unwrap();
    assert_eq!(will.topic.as_ref(), "bye");
    assert_eq!(will.qos, QoS::ExactlyOnce);
    assert!(will.retain);
    assert!(connect.properties.is_empty());
}

#[test]
fn the_handshake_binds_the_session() {
    let mut channel = channel();
    let config = MqttClientConfig::new("c").protocol_version(ProtocolVersion::V5).keep_alive(0);
    send_connect(&mut channel, &config).unwrap();
    assert_eq!(channel.protocol_version(), ProtocolVersion::V5);
    assert!(matches!(channel.take_outbox()[..], [WriteCmd::Packet(Packet::Connect(_))]));
    accept_connack(&mut channel, &config, connack(ConnackReturnCode::Accepted)).unwrap();
    assert_eq!(channel.client_id().as_deref(), Some("c"));
    assert_eq!(channel.keep_alive(), Some(0));
    assert_eq!(ping_interval_secs(&config), 1);
    assert_eq!(ping_interval_secs(&MqttClientConfig::new("c")), 60);
}

#[test]
fn answers_to_connect_are_told_apart() {
    let config = MqttClientConfig::new("c");
    let mut channel = channel();
    assert!(matches!(
        accept_connack(&mut channel, &config, connack(ConnackReturnCode::NotAuthorized)),
        Err(MqttError::Protocol(Violation::ConnectionRefused(ConnackReturnCode::NotAuthorized)))
    ));
    assert!(matches!(
        accept_connack(&mut channel, &config, ReadOutcome::Packet(Packet::Pingresp)),
        Err(MqttError::Protocol(Violation::ExpectedConnack))
    ));
    assert!(matches!(
        accept_connack(&mut channel, &config, ReadOutcome::TimedOut),
        Err(MqttError::Timeout(TimeoutKind::Connack))
    ));
    assert!(matches!(
        accept_connack(&mut channel, &config, ReadOutcome::Failed(MqttError::ChannelClosed)),
        Err(MqttError::ChannelClosed)
    ));
    assert!(channel.client_id().is_none());
}

#[test]
fn initial_subscriptions_wait_for_their_suback() {
    let mut channel = channel();
    let (tx, _rx) = oneshot::channel();
    let none = MqttClientConfig::new("c");
    assert!(matches!(send_initial_subscriptions(&mut channel, &none, tx), Ok(None)));
    let config = none.with_initial_subscribe("a/#", QoS::AtLeastOnce);
    let (tx, mut rx) = oneshot::channel();
    assert!(matches!(send_initial_subscriptions(&mut channel, &config, tx), Ok(Some(1))));
    match &channel.take_outbox()[..] {
        [WriteCmd::Packet(Packet::Subscribe(s))] => {
            assert_eq!(s.packet_id, 1);
            assert_eq!(s.subscriptions[0].topic.as_ref(), "a/#");
        }
        other => panic!("expected SUBSCRIBE, got {:?}", other),
    }
    let suback = SubackPacket {
        packet_id: 1,
        return_codes: vec![SubackCode::Granted(QoS::AtLeastOnce)],
    };
    fire(dispatch_client_inbound(&mut channel, Packet::Suback(suback)).fire);
    accept_initial_suback(AckOutcome::Received(rx.try_recv().unwrap())).unwrap();
    assert!(matches!(
        accept_initial_suback(AckOutcome::TimedOut),
        Err(MqttError::Timeout(TimeoutKind::Ack))
    ));
    assert!(matches!(accept_initial_suback(AckOutcome::Dropped), Err(MqttError::ChannelClosed)));
}

#[test]
fn a_qos0_publish_is_done_when_sent() {
    let mut channel = channel();
    let (tx, _rx) = oneshot::channel();
    assert!(matches!(
        send_publish(&mut channel, request(QoS::AtMostOnce), tx),
        Ok(PublishProgress::Sent)
    ));
    match &channel.take_outbox()[..] {
        [WriteCmd::Publish(p)] => {
            assert_eq!(p.packet_id, None);
            assert_eq!(p.topic.as_ref(), "t");
        }
        other => panic!("expected PUBLISH, got {:?}", other),
    }
}

#[test]
fn a_qos1_publish_ends_with_its_puback() {
    let mut channel = channel();
    let (tx, mut rx) = oneshot::channel();
    let progress = send_publish(&mut channel, request(QoS::AtLeastOnce), tx).unwrap();
    assert_eq!(progress, PublishProgress::AwaitPuback(1));
    fire(dispatch_client_inbound(&mut channel, Packet::Puback(1)).fire);
    let outcome = AckOutcome::Received(rx.try_recv().unwrap());
    assert!(matches!(
        publish_acknowledged(&mut channel, 1, outcome),
        Ok(MqttResponse::Published(PublishAck::Acknowledged(1)))
    ));
    assert!(dispatch_client_inbound(&mut channel, Packet::Puback(1)).fire.is_none());
}

#[test]
fn a_qos2_publish_goes_through_both_phases() {
    let mut channel = channel();
    let (rec_tx, mut rec_rx) = oneshot::channel();
    let progress = send_publish(&mut channel, request(QoS::ExactlyOnce), rec_tx).unwrap();
    assert_eq!(progress, PublishProgress::AwaitPubrec(1));
    channel.take_outbox();
    fire(dispatch_client_inbound(&mut channel, Packet::Pubrec(1)).fire);
    assert!(matches!(channel.take_outbox()[..], [WriteCmd::Packet(Packet::Pubrel(1))]));
    let (comp_tx, mut comp_rx) = oneshot::channel();
    let received = AckOutcome::Received(rec_rx.try_recv().unwrap());
    publish_received(&mut channel, 1, received, comp_tx).unwrap();
    fire(dispatch_client_inbound(&mut channel, Packet::Pubcomp(1)).fire);
    let done = AckOutcome::Received(comp_rx.try_recv().unwrap());
    assert!(matches!(
        publish_completed(&mut channel, 1, done),
        Ok(MqttResponse::Published(PublishAck::Completed(1)))
    ));
}

#[test]
fn acknowledgements_of_the_wrong_kind_reach_nobody() {
    let mut channel = channel();
    let (tx, mut rx) = oneshot::channel();
    send_publish(&mut channel, request(QoS::AtLeastOnce), tx).unwrap();
    assert!(dispatch_client_inbound(&mut channel, Packet::Pubcomp(1)).fire.is_none());
    // The slot has been dropped with it.
    assert!(matches!(rx.try_recv(), Err(oneshot::error::TryRecvError::Closed)));
}

#[test]
fn a_wait_that_times_out_takes_its_slot_back() {
    let mut channel = channel();
    let (tx, mut rx) = oneshot::channel();
    send_publish(&mut channel, request(QoS::AtLeastOnce), tx).unwrap();
    assert!(matches!(
        publish_acknowledged(&mut channel, 1, AckOutcome::TimedOut),
        Err(MqttError::Timeout(TimeoutKind::Ack))
    ));
    assert!(matches!(rx.try_recv(), Err(oneshot::error::TryRecvError::Closed)));
    assert!(matches!(
        publish_acknowledged(&mut channel, 1, AckOutcome::Dropped),
        Err(MqttError::ChannelClosed)
    ));
}

#[test]
fn subscribing_and_unsubscribing_end_with_their_acknowledgement() {
    let mut channel = channel();
    let (tx, mut rx) = oneshot::channel();
    let filters = vec![TopicFilter::new("a", QoS::AtMostOnce)];
    let id = send_subscribe(&mut channel, filters, tx).unwrap();
    let suback = SubackPacket { packet_id: id, return_codes: vec![SubackCode::Failure] };
    fire(dispatch_client_inbound(&mut channel, Packet::Suback(suback)).fire);
    let outcome = AckOutcome::Received(rx.try_recv().unwrap());
    match subscribe_acknowledged(&mut channel, id, outcome) {
        Ok(MqttResponse::Subscribed(codes)) => assert_eq!(codes, vec![SubackCode::Failure]),
        other => panic!("expected codes, got {:?}", other),
    }

    let (tx, mut rx) = oneshot::channel();
    let id = send_unsubscribe(&mut channel, vec![Arc::from("a")], tx).unwrap();
    assert_eq!(id, 2);
    fire(dispatch_client_inbound(&mut channel, Packet::Unsuback(UnsubackPacket::new(id))).fire);
    rx.try_recv().unwrap();
    assert!(matches!(
        unsubscribe_acknowledged(&mut channel, id, AckOutcome::Received(())),
        Ok(MqttResponse::Unsubscribed)
    ));
}

#[test]
fn nothing_can_be_sent_without_a_writer() {
    let mut channel = channel();
    channel.writer_stopped();
    assert!(!channel.is_open());
    let (tx, mut rx) = oneshot::channel();
    assert!(matches!(
        send_publish(&mut channel, request(QoS::AtLeastOnce), tx),
        Err(MqttError::ChannelClosed)
    ));
    // The slot stays registered.
    assert!(matches!(rx.try_recv(), Err(oneshot::error::TryRecvError::Empty)));
    assert!(matches!(channel.send_packet(Packet::Pingreq), Err(MqttError::ChannelClosed)));
    assert!(channel.take_outbox().is_empty());
}

#[test]
fn inbound_publishes_are_acknowledged_first() {
    let mut channel = channel();
    let turn = dispatch_client_inbound(&mut channel, inbound(QoS::AtMostOnce, None));
    assert_eq!(turn.deliver.unwrap().topic(), "in");
    assert!(channel.take_outbox().is_empty());

    let turn = dispatch_client_inbound(&mut channel, inbound(QoS::AtLeastOnce, Some(5)));
    assert_eq!(turn.deliver.unwrap().payload(), b"y");
    assert!(matches!(channel.take_outbox()[..], [WriteCmd::Packet(Packet::Puback(5))]));

    let turn = dispatch_client_inbound(&mut channel, inbound(QoS::ExactlyOnce, Some(6)));
    assert!(turn.deliver.is_none());
    assert!(matches!(channel.take_outbox()[..], [WriteCmd::Packet(Packet::Pubrec(6))]));
    let turn = dispatch_client_inbound(&mut channel, Packet::Pubrel(6));
    assert_eq!(turn.deliver.unwrap().packet_id, Some(6));
    assert!(matches!(channel.take_outbox()[..], [WriteCmd::Packet(Packet::Pubcomp(6))]));
    let turn = dispatch_client_inbound(&mut channel, Packet::Pubrel(6));
    assert!(turn.deliver.is_none());
    assert!(matches!(channel.take_outbox()[..], [WriteCmd::Packet(Packet::Pubcomp(6))]));
}

#[test]
fn the_client_loop_ends_where_it_should() {
    let mut channel = channel();
    assert!(matches!(on_event(&mut channel, ClientEvent::PingDue).outcome, Ok(false)));
    assert!(matches!(channel.take_outbox()[..], [WriteCmd::Packet(Packet::Pingreq)]));
    assert!(matches!(
        on_event(&mut channel, ClientEvent::Packet(Packet::Disconnect)).outcome,
        Ok(true)
    ));
    assert!(matches!(
        on_event(&mut channel, ClientEvent::Packet(Packet::Pingresp)).outcome,
        Ok(false)
    ));
    assert!(matches!(on_event(&mut channel, ClientEvent::Shutdown).outcome, Ok(true)));
    let broken = std::io::Error::new(std::io::ErrorKind::UnexpectedEof, "gone");
    assert!(matches!(
        on_event(&mut channel, ClientEvent::ReadFailed(MqttError::Io(broken))).outcome,
        Ok(true)
    ));
    assert!(matches!(
        on_event(&mut channel, ClientEvent::ReadFailed(MqttError::ChannelClosed)).outcome,
        Err(MqttError::ChannelClosed)
    ));
    finish(&mut channel);
    assert!(matches!(channel.take_outbox()[..], [WriteCmd::Packet(Packet::Disconnect)]));
    channel.writer_stopped();
    assert!(matches!(on_event(&mut channel, ClientEvent::PingDue).outcome, Ok(true)));
}

#[test]
fn the_fallback_handler_gets_what_nobody_matches() {
    assert!(falls_back(false, true));
    assert!(!falls_back(true, true));
    assert!(!falls_back(false, false));
}

#[test]
fn closing_drops_what_is_in_flight_once() {
    let mut channel = channel();
    let (tx, mut rx) = oneshot::channel();
    send_publish(&mut channel, request(QoS::AtLeastOnce), tx).unwrap();
    dispatch_client_inbound(&mut channel, inbound(QoS::ExactlyOnce, Some(6)));
    assert!(channel.close());
    assert!(!channel.is_open());
    assert!(matches!(rx.try_recv(), Err(oneshot::error::TryRecvError::Closed)));
    assert!(dispatch_client_inbound(&mut channel, Packet::Pubrel(6)).deliver.is_none());
    assert!(!channel.close());
}

#[test]
fn closing_after_the_writer_has_stopped_drops_what_is_in_flight() {
    let mut channel = channel();
    let (tx, mut rx) = oneshot::channel();
    send_publish(&mut channel, request(QoS::AtLeastOnce), tx).unwrap();
    channel.writer_stopped();
    assert!(!channel.is_open());
    assert!(matches!(rx.try_recv(), Err(oneshot::error::TryRecvError::Empty)));
    assert!(!channel.close());
    assert!(!channel.is_open());
    assert!(matches!(rx.try_recv(), Err(oneshot::error::TryRecvError::Closed)));
}

#[test]
fn packet_identifiers_count_up_and_skip_zero() {
    let mut session = MqttSession::new();
    for expected in 1..=65_535u16 {
        assert_eq!(session.allocate_packet_id(), expected);
    }
    assert_eq!(session.allocate_packet_id(), 1);
    assert_eq!(session.allocate_packet_id(), 2);
    assert_eq!(session.allocate_packet_id(), 3);
}

#[test]
fn a_session_gives_back_what_it_holds() {
    let mut session = MqttSession::new();
    let Packet::Publish(packet) = inbound(QoS::AtLeastOnce, Some(9)) else { unreachable!() };
    session.hold_inbound(9, hotaru_mqtt::incoming_from_packet(&packet));
    session.hold_outbound(3, packet);
    let (tx, _rx) = oneshot::channel();
    session.await_ack(3, AckSlot::Unsuback(tx));
    assert_eq!(session.release_inbound(9).unwrap().topic(), "in");
    assert!(session.release_inbound(9).is_none());
    assert_eq!(session.release_outbound(3).unwrap().packet_id, Some(9));
    assert!(session.release_outbound(3).is_none());
    assert!(matches!(session.take_ack(3), Some(AckSlot::Unsuback(_))));
    assert!(session.take_ack(3).is_none());
}

#[test]
fn the_first_binding_stays() {
    let mut bind = OnceLockBindInfo::new();
    assert!(bind.get().is_none());
    assert!(bind.set(BindInfo { client_id: Arc::from("a"), keep_alive: 5 }).is_ok());
    let refused = bind.set(BindInfo { client_id: Arc::from("b"), keep_alive: 6 }).unwrap_err();
    assert_eq!(refused.client_id.as_ref(), "b");
    assert_eq!(bind.client_id().as_deref(), Some("a"));
    assert_eq!(bind.keep_alive(), Some(5));
    assert_eq!(bind.get().unwrap().client_id.as_ref(), "a");
}

#[test]
fn connections_are_numbered_from_one() {
    let mut counter = ConnectionCounter::new();
    assert_eq!(MqttChannel::new(&mut counter, ProtocolRole::Server).connection_id(), 1);
    assert_eq!(MqttChannel::new(&mut counter, ProtocolRole::Server).connection_id(), 2);
    assert_eq!(counter.next_connection_id(), 3);
}

#[test]
fn an_empty_request_is_the_default() {
    let request = PublishRequest::default();
    assert_eq!(request.topic.as_ref(), "");
    assert!(request.payload.is_empty());
    assert_eq!(request.qos, QoS::AtMostOnce);
    assert!(!request.retain);
    assert_eq!(request.clone().topic.as_ref(), "");
}
