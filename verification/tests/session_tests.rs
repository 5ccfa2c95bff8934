use rmqtt::builder::{connack_outcome, MqttSessionBuilder};
use rmqtt::clock::{deadline_reached, keep_alive_expired, timeout_deadline};
use rmqtt::mqtt::CtrlPacket;
use rmqtt::session::{PublishResult, ReceivedMessage, ReceivedPacket, SessionState};

fn publish_packet(packet_id: Option<i16>, topic: &str, payload: &[u8], qos: u8) -> CtrlPacket {
    CtrlPacket::PUBLISH {
        packet_id,
        topic: topic.to_string(),
        payload: payload.to_vec(),
        duplicate_delivery: false,
        qos,
        retain: false,
    }
}

#[test]
fn builder_keeps_host() {
    let builder = MqttSessionBuilder::new("test-client", "localhost:1883")
        .credentials("user", "password")
        .will_message("will/topic", "gone", 1, true)
        .keep_alive(120)
        .clean_session();
    assert_eq!(builder.host(), "localhost:1883");
    match builder.connect_packet() {
        CtrlPacket::CONNECT {
            client_id,
            topic,
            content,
            qos,
            retain,
            username,
            password,
            clean_session,
            keep_alive,
        } => {
            assert_eq!(client_id, "test-client");
            assert_eq!(topic.as_deref(), Some("will/topic"));
            assert_eq!(content.as_deref(), Some("gone"));
            assert_eq!(qos, Some(1));
            assert_eq!(retain, Some(true));
            assert_eq!(username.as_deref(), Some("user"));
            assert_eq!(password.as_deref(), Some("password"));
            assert!(clean_session);
            assert_eq!(keep_alive, 120);
        }
        _ => panic!("not a CONNECT"),
    }
    let state = builder.start_session();
    assert_eq!(state.last_packet_id(), 0);
}

#[test]
fn builder_without_credentials_connects_without_authentication() {
    let bytes = MqttSessionBuilder::new("abc", "h").connect_packet().as_bytes();
    // connect flags: neither user name nor password
    assert_eq!(bytes[9], 0x00);
    assert_eq!(&bytes[12..], &[0x00, 0x03, b'a', b'b', b'c']);
}

#[test]
fn packet_ids_count_up_from_one() {
    let mut state = SessionState::new(10);
    assert_eq!(state.subscribe("t", 1).0.packet_id(), 1);
    assert_eq!(state.unsubscribe("t").0.packet_id(), 2);
    assert_eq!(state.publish("t", vec![1], 1).0, PublishResult::NotComplete { packet_id: 3 });
    assert_eq!(state.publish("t", vec![1], 0).0, PublishResult::Ready);
    assert_eq!(state.publish("t", vec![1], 7).0, PublishResult::Ready);
    assert_eq!(state.last_packet_id(), 3);
}

#[test]
fn subscription_waits_for_suback() {
    let mut state = SessionState::new(10);
    let id = state.subscribe("a/#", 1).0.packet_id();
    assert_eq!(state.subscribe_outcome(id), None);
    let (event, reply) = state.handle_packet(CtrlPacket::SUBACK { packet_id: id, return_code: 1 });
    assert_eq!(event, Some(ReceivedPacket::WithId { packet_id: id }));
    assert!(reply.is_none());
    assert_eq!(state.subscribe_outcome(id), Some(1));
    assert_eq!(state.subscribe_outcome(id + 1), None);
}

#[test]
fn suback_for_unknown_id_changes_nothing() {
    let mut state = SessionState::new(10);
    let (event, _) = state.handle_packet(CtrlPacket::SUBACK { packet_id: 9, return_code: 0 });
    assert_eq!(event, Some(ReceivedPacket::WithId { packet_id: 9 }));
    assert_eq!(state.subscribe_outcome(9), None);
}

#[test]
fn unsubscription_outcome() {
    let mut state = SessionState::new(10);
    let id = state.unsubscribe("a/#").0.packet_id();
    assert_eq!(state.unsubscribe_outcome(id), Some(false));
    let (event, reply) = state.handle_packet(CtrlPacket::UNSUBACK { packet_id: id });
    assert_eq!(event, None);
    assert!(reply.is_none());
    assert_eq!(state.unsubscribe_outcome(id), Some(true));
    assert_eq!(state.unsubscribe_outcome(id + 1), None);
}

#[test]
fn qos1_publication_completes_on_puback() {
    let mut state = SessionState::new(10);
    let id = match state.publish("a/b", vec![1, 2, 3], 1).0 {
        PublishResult::NotComplete { packet_id } => packet_id,
        PublishResult::Ready => panic!("QoS 1 publication must wait"),
    };
    assert_eq!(state.publish_outcome(id), None);
    let (event, reply) = state.handle_packet(CtrlPacket::PUBACK { packet_id: id });
    assert_eq!(event, Some(ReceivedPacket::WithId { packet_id: id }));
    assert!(reply.is_none());
    assert_eq!(state.publish_outcome(id), Some(PublishResult::Ready));
}

#[test]
fn qos2_publication_completes_on_pubcomp() {
    let mut state = SessionState::new(10);
    let id = match state.publish("a/b", vec![9], 2).0 {
        PublishResult::NotComplete { packet_id } => packet_id,
        PublishResult::Ready => panic!("QoS 2 publication must wait"),
    };
    let (event, reply) = state.handle_packet(CtrlPacket::PUBREC { packet_id: id });
    assert_eq!(event, None);
    assert!(matches!(reply, Some(CtrlPacket::PUBREL { packet_id }) if packet_id == id));
    assert_eq!(state.publish_outcome(id), None);
    let (event, reply) = state.handle_packet(CtrlPacket::PUBCOMP { packet_id: id });
    assert_eq!(event, Some(ReceivedPacket::WithId { packet_id: id }));
    assert!(reply.is_none());
    assert_eq!(state.publish_outcome(id), Some(PublishResult::Ready));
}

#[test]
fn unknown_publication_is_ready() {
    let state = SessionState::new(10);
    assert_eq!(state.publish_outcome(42), Some(PublishResult::Ready));
}

#[test]
fn pubrel_is_answered_with_pubcomp() {
    let mut state = SessionState::new(10);
    let (event, reply) = state.handle_packet(CtrlPacket::PUBREL { packet_id: 5 });
    assert_eq!(event, None);
    assert!(matches!(reply, Some(CtrlPacket::PUBCOMP { packet_id }) if packet_id == 5));
}

#[test]
fn delivered_messages_are_acknowledged_and_taken_last_first() {
    let mut state = SessionState::new(10);
    assert!(state.take_received().is_none());
    let (event, reply) = state.handle_packet(publish_packet(None, "first", b"one", 0));
    assert_eq!(event, Some(ReceivedPacket::WithoutId));
    assert!(reply.is_none());
    let (event, reply) = state.handle_packet(publish_packet(Some(7), "second", b"two", 1));
    assert_eq!(event, Some(ReceivedPacket::WithId { packet_id: 7 }));
    assert!(matches!(reply, Some(CtrlPacket::PUBACK { packet_id }) if packet_id == 7));
    let (_, reply) = state.handle_packet(publish_packet(Some(8), "third", b"three", 2));
    assert!(matches!(reply, Some(CtrlPacket::PUBREC { packet_id }) if packet_id == 8));

    let m = state.take_received().unwrap();
    assert_eq!(m.topic(), "third");
    assert_eq!(m.payload(), b"three");
    let m = state.take_received().unwrap();
    assert_eq!(m.topic(), "second");
    let m = state.take_received().unwrap();
    assert_eq!(m.topic(), "first");
    assert_eq!(m.payload(), b"one");
    assert!(state.take_received().is_none());
}

#[test]
fn other_packets_change_nothing() {
    let mut state = SessionState::new(10);
    let (event, reply) = state.handle_packet(CtrlPacket::PINGRESP);
    assert_eq!(event, None);
    assert!(reply.is_none());
    let (event, reply) =
        state.handle_packet(CtrlPacket::CONNACK { session_present: false, return_code: 0 });
    assert_eq!(event, None);
    assert!(reply.is_none());
}

#[test]
fn received_message_accessors() {
    let m = ReceivedMessage::new("t/x".to_string(), vec![4, 5]);
    assert_eq!(m.topic(), "t/x");
    assert_eq!(m.payload(), &[4, 5]);
}

#[test]
fn event_concerns_its_identifier() {
    assert!(ReceivedPacket::WithId { packet_id: 3 }.concerns(3));
    assert!(!ReceivedPacket::WithId { packet_id: 3 }.concerns(4));
    assert!(!ReceivedPacket::WithoutId.concerns(3));
}

fn publish_fields(p: &CtrlPacket) -> (Option<i16>, String, Vec<u8>, u8, bool, bool) {
    match p {
        CtrlPacket::PUBLISH { packet_id, topic, payload, duplicate_delivery, qos, retain } => {
            (*packet_id, topic.clone(), payload.clone(), *qos, *duplicate_delivery, *retain)
        }
        _ => panic!("not a PUBLISH"),
    }
}

#[test]
fn redeliveries_list_pending_publications() {
    let mut state = SessionState::new(10);
    state.publish("a", vec![1], 1);
    state.publish("b", vec![2, 2], 2);
    state.publish("c", vec![3], 0);
    state.publish("d", vec![4], 1);
    state.handle_packet(CtrlPacket::PUBACK { packet_id: 3 });
    let mut items: Vec<(Option<i16>, String, Vec<u8>, u8, bool, bool)> =
        state.redeliveries().iter().map(publish_fields).collect();
    items.sort();
    assert_eq!(
        items,
        vec![
            (Some(1), "a".to_string(), vec![1], 1, false, false),
            (Some(2), "b".to_string(), vec![2, 2], 2, false, false),
            (Some(3), "d".to_string(), vec![4], 1, false, false),
        ]
    );
}

#[test]
fn publish_gives_the_packet_to_send() {
    let mut state = SessionState::new(10);
    let (_, packet) = state.publish("x/y", vec![7, 8], 2);
    assert_eq!(publish_fields(&packet), (Some(1), "x/y".to_string(), vec![7, 8], 2, false, false));
    let (_, packet) = state.publish("z", vec![1], 5);
    assert_eq!(publish_fields(&packet), (None, "z".to_string(), vec![1], 0, false, false));
}

#[test]
fn subscribe_and_unsubscribe_give_the_packets_to_send() {
    let mut state = SessionState::new(10);
    let (result, packet) = state.subscribe("sensors/+", 2);
    match packet {
        CtrlPacket::SUBSCRIBE { packet_id, topic, qos } => {
            assert_eq!(packet_id, result.packet_id());
            assert_eq!(topic, "sensors/+");
            assert_eq!(qos, 2);
        }
        _ => panic!("not a SUBSCRIBE"),
    }
    let (result, packet) = state.unsubscribe("sensors/+");
    match packet {
        CtrlPacket::UNSUBSCRIBE { packet_id, topic } => {
            assert_eq!(packet_id, result.packet_id());
            assert_eq!(packet_id, 2);
            assert_eq!(topic, "sensors/+");
        }
        _ => panic!("not an UNSUBSCRIBE"),
    }
}

#[test]
fn subscription_waits_through_other_packets() {
    let mut state = SessionState::new(10);
    let id = state.subscribe("a", 0).0.packet_id();
    state.handle_packet(CtrlPacket::PUBACK { packet_id: id });
    state.handle_packet(publish_packet(Some(id), "t", b"p", 1));
    state.handle_packet(CtrlPacket::SUBACK { packet_id: id + 1, return_code: 0 });
    assert_eq!(state.subscribe_outcome(id), None);
    state.handle_packet(CtrlPacket::SUBACK { packet_id: id, return_code: 2 });
    assert_eq!(state.subscribe_outcome(id), Some(2));
}

#[test]
fn connack_codes() {
    let outcome = |code: u8| {
        connack_outcome(&CtrlPacket::CONNACK { session_present: false, return_code: code })
    };
    assert_eq!(outcome(0), Ok(()));
    assert_eq!(outcome(1), Err("Connection Refused, unacceptable protocol version".to_string()));
    assert_eq!(outcome(2), Err("Connection Refused, identifier rejected".to_string()));
    assert_eq!(outcome(3), Err("Connection Refused, Server unavailable".to_string()));
    assert_eq!(outcome(4), Err("Connection Refused, bad user name or password".to_string()));
    assert_eq!(outcome(5), Err("Connection Refused, not authorized".to_string()));
    assert_eq!(outcome(6), Err("Connection Refused, invalid return code".to_string()));
    assert_eq!(
        connack_outcome(&CtrlPacket::PINGRESP),
        Err("Unexpected packet received".to_string())
    );
}

#[test]
fn deadlines() {
    assert_eq!(timeout_deadline(100, 20), Some(120));
    assert_eq!(timeout_deadline(i64::MAX, 1), None);
    // a timeout beyond i64::MAX wraps to a negative number of seconds
    assert_eq!(timeout_deadline(10, u64::MAX), Some(9));
    assert!(deadline_reached(120, 120));
    assert!(!deadline_reached(119, 120));
}

#[test]
fn keep_alive_expiry() {
    assert_eq!(keep_alive_expired(111, 100, 10), Some(true));
    assert_eq!(keep_alive_expired(110, 100, 10), Some(false));
    assert_eq!(keep_alive_expired(0, i64::MAX, 1), None);
}

#[test]
fn session_at_a_given_second() {
    let mut state = SessionState::new_at(10, 1000);
    assert_eq!(state.last_packet_id(), 0);
    assert_eq!(state.keep_alive_due_at(1010), Some(false));
    assert_eq!(state.keep_alive_due_at(1011), Some(true));
    state.note_sent_at(2000);
    assert_eq!(state.keep_alive_due_at(2010), Some(false));
    assert_eq!(state.keep_alive_due_at(2011), Some(true));
    let started = MqttSessionBuilder::new("c", "h").keep_alive(5).start_session_at(50);
    assert_eq!(started.keep_alive_due_at(55), Some(false));
    assert_eq!(started.keep_alive_due_at(56), Some(true));
}

#[test]
fn publication_waits_through_other_packets() {
    let mut state = SessionState::new(10);
    let id = match state.publish("a", vec![1], 2).0 {
        PublishResult::NotComplete { packet_id } => packet_id,
        PublishResult::Ready => panic!("QoS 2 publication must wait"),
    };
    state.handle_packet(CtrlPacket::PUBREC { packet_id: id });
    state.handle_packet(CtrlPacket::SUBACK { packet_id: id, return_code: 0 });
    state.handle_packet(CtrlPacket::PUBACK { packet_id: id + 1 });
    state.handle_packet(publish_packet(Some(id), "t", b"p", 1));
    assert_eq!(state.publish_outcome(id), None);
    state.handle_packet(CtrlPacket::PUBCOMP { packet_id: id });
    assert_eq!(state.publish_outcome(id), Some(PublishResult::Ready));
}

#[test]
fn keep_alive_due_at_a_given_second() {
    let state = SessionState::new(10);
    // `new` takes the current second as the time of the last packet sent
    assert_eq!(state.keep_alive_due_at(i64::MIN), Some(false));
    assert_eq!(state.keep_alive_due_at(i64::MAX), Some(true));
}

#[test]
fn clock_based_checks_run() {
    let mut state = SessionState::new(i16::MAX);
    state.note_sent();
    assert_eq!(state.keep_alive_due(), Some(false));
    assert!(rmqtt::clock::deadline_from_now(3600).is_some());
    assert!(!rmqtt::clock::deadline_passed(i64::MAX));
    assert!(rmqtt::clock::deadline_passed(i64::MIN));
    assert!(rmqtt::clock::deadline_from_now(0).is_some());
}
