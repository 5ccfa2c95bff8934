use std::collections::HashMap;
use vstd::prelude::*;
use vstd::std_specs::iter::IteratorSpec;

use crate::clock::{current_second, keep_alive_expired};
use crate::mqtt::{is_publish, is_subscribe, is_unsubscribe, CtrlPacket};

verus! {

broadcast use vstd::std_specs::hash::group_hash_axioms;

/// Where an outgoing QoS 1 or 2 publication stands in its handshake.
#[derive(Clone, Copy, Debug, PartialEq, Eq, Structural)]
pub enum PublishState {
    Sent,
    Acknowledgement,
    Received,
    Release,
    Complete,
}

/// A publication that waits for its acknowledgement.
struct PublishToken {
    topic: String,
    payload: Vec<u8>,
    publish_state: PublishState,
    qos: u8,
    last_message: i64,
}

/// What the session knows of a pending publication.
pub struct PublishEntry {
    pub topic: Seq<char>,
    pub payload: Seq<u8>,
    pub publish_state: PublishState,
    pub qos: u8,
}

impl View for PublishToken {
    type V = PublishEntry;

    closed spec fn view(&self) -> PublishEntry {
        PublishEntry {
            topic: self.topic@,
            payload: self.payload@,
            publish_state: self.publish_state,
            qos: self.qos,
        }
    }
}

/// A subscription that waits for its SUBACK.
struct SubscribeToken {
    return_code: Option<u8>,
}

/// An unsubscription that waits for its UNSUBACK.
struct UnsubscribeToken {
    unsubscribed: bool,
}

/// What `publish` hands back: `Ready` when nothing more is to come (QoS 0),
/// otherwise the identifier of the packet whose acknowledgement is awaited.
#[derive(Clone, Copy, Debug, PartialEq, Eq, Structural)]
pub enum PublishResult {
    Ready,
    NotComplete { packet_id: i16 },
}

/// A message that the broker delivered to this client.
pub struct ReceivedMessage {
    topic: String,
    payload: Vec<u8>,
}

/// The identifier of a SUBSCRIBE packet that was sent.
#[derive(Clone, Copy, Debug, PartialEq, Eq, Structural)]
pub struct SubscribeResult {
    packet_id: i16,
}

/// The identifier of an UNSUBSCRIBE packet that was sent.
#[derive(Clone, Copy, Debug, PartialEq, Eq, Structural)]
pub struct UnsubscribeResult {
    packet_id: i16,
}

/// What a handled packet means to a caller that waits for an event: it
/// carried a packet identifier, or it did not.
#[derive(Clone, Copy, Debug, PartialEq, Eq, Structural)]
pub enum ReceivedPacket {
    WithId { packet_id: i16 },
    WithoutId,
}

/// The abstract state of a session.
pub struct SessionView {
    pub packet_id: i16,
    pub keep_alive: i16,
    pub last_message_sent: i64,
    pub received: Seq<(Seq<char>, Seq<u8>)>,
    pub published: Map<i16, PublishEntry>,
    pub subscribed: Map<i16, Option<u8>>,
    pub unsubscribed: Map<i16, bool>,
}

impl SessionView {
    /// Every pending packet identifier was handed out by this session: it lies
    /// between 1 and the last identifier handed out.
    pub open spec fn well_formed(self) -> bool {
        &&& 0 <= self.packet_id
        &&& forall|k: i16| #[trigger]
            self.published.contains_key(k) ==> 1 <= k <= self.packet_id
        &&& forall|k: i16| #[trigger]
            self.subscribed.contains_key(k) ==> 1 <= k <= self.packet_id
        &&& forall|k: i16| #[trigger]
            self.unsubscribed.contains_key(k) ==> 1 <= k <= self.packet_id
    }
}

/// The bookkeeping of an MQTT session: the last packet identifier handed out,
/// the keep-alive interval, when the last packet was sent, the messages
/// received and not yet taken, and the publications, subscriptions and
/// unsubscriptions that wait for the broker's answer.
pub struct SessionState {
    packet_id: i16,
    keep_alive: i16,
    last_message_sent: i64,
    received: Vec<ReceivedMessage>,
    published: HashMap<i16, PublishToken>,
    subscribed: HashMap<i16, SubscribeToken>,
    unsubscribed: HashMap<i16, UnsubscribeToken>,
}

impl View for SessionState {
    type V = SessionView;

    closed spec fn view(&self) -> SessionView {
        SessionView {
            packet_id: self.packet_id,
            keep_alive: self.keep_alive,
            last_message_sent: self.last_message_sent,
            received: self.received@.map_values(|m: ReceivedMessage| m@),
            published: self.published@.map_values(|t: PublishToken| t@),
            subscribed: self.subscribed@.map_values(|t: SubscribeToken| t.return_code),
            unsubscribed: self.unsubscribed@.map_values(|t: UnsubscribeToken| t.unsubscribed),
        }
    }
}

impl View for ReceivedMessage {
    type V = (Seq<char>, Seq<u8>);

    closed spec fn view(&self) -> (Seq<char>, Seq<u8>) {
        (self.topic@, self.payload@)
    }
}

impl ReceivedMessage {
    /// A message with the given topic and payload.
    pub fn new(topic: String, payload: Vec<u8>) -> (result: ReceivedMessage)
        ensures
            result@ == (topic@, payload@),
    {
        ReceivedMessage { topic: topic, payload: payload }
    }

    /// The topic the message was published to.
    pub fn topic(&self) -> (result: &str)
        ensures
            result@ == self@.0,
    {
        self.topic.as_str()
    }

    /// The content of the message.
    pub fn payload(&self) -> (result: &[u8])
        ensures
            result@ == self@.1,
    {
        self.payload.as_slice()
    }
}

impl View for SubscribeResult {
    type V = i16;

    closed spec fn view(&self) -> i16 {
        self.packet_id
    }
}

impl SubscribeResult {
    /// The identifier of the SUBSCRIBE packet.
    pub fn packet_id(&self) -> (result: i16)
        ensures
            result == self@,
    {
        self.packet_id
    }
}

impl View for UnsubscribeResult {
    type V = i16;

    closed spec fn view(&self) -> i16 {
        self.packet_id
    }
}

impl UnsubscribeResult {
    /// The identifier of the UNSUBSCRIBE packet.
    pub fn packet_id(&self) -> (result: i16)
        ensures
            result == self@,
    {
        self.packet_id
    }
}

impl ReceivedPacket {
    /// Whether this event carried the packet identifier `packet_id`.
    pub fn concerns(&self, packet_id: i16) -> (result: bool)
        ensures
            result == (*self == ReceivedPacket::WithId { packet_id }),
    {
        match self {
            ReceivedPacket::WithId { packet_id: id } => *id == packet_id,
            ReceivedPacket::WithoutId => false,
        }
    }
}

/// The event that a handled packet yields, or `None` where the caller keeps
/// waiting.
pub open spec fn packet_event(p: CtrlPacket) -> Option<ReceivedPacket> {
    match p {
        CtrlPacket::PUBLISH { packet_id, .. } => Some(
            match packet_id {
                Some(id) => ReceivedPacket::WithId { packet_id: id },
                None => ReceivedPacket::WithoutId,
            },
        ),
        CtrlPacket::PUBACK { packet_id } => Some(ReceivedPacket::WithId { packet_id }),
        CtrlPacket::PUBCOMP { packet_id } => Some(ReceivedPacket::WithId { packet_id }),
        CtrlPacket::SUBACK { packet_id, .. } => Some(ReceivedPacket::WithId { packet_id }),
        _ => None,
    }
}

/// The packet that the client sends in answer to `p`, if any: a QoS 1
/// publication is acknowledged with PUBACK, a QoS 2 publication with PUBREC,
/// a PUBREC with PUBREL, and a PUBREL with PUBCOMP.
pub open spec fn packet_reply(p: CtrlPacket) -> Option<CtrlPacket> {
    match p {
        CtrlPacket::PUBLISH { packet_id, qos, .. } => if qos == 1 {
            Some(CtrlPacket::PUBACK { packet_id: packet_id->0 })
        } else if qos == 2 {
            Some(CtrlPacket::PUBREC { packet_id: packet_id->0 })
        } else {
            None
        },
        CtrlPacket::PUBREC { packet_id } => Some(CtrlPacket::PUBREL { packet_id }),
        CtrlPacket::PUBREL { packet_id } => Some(CtrlPacket::PUBCOMP { packet_id }),
        _ => None,
    }
}

/// The pending publications after the handshake of publication `id` moved to
/// `state`; an identifier that is not pending leaves them unchanged.
pub open spec fn advance_publication(
    published: Map<i16, PublishEntry>,
    id: i16,
    state: PublishState,
) -> Map<i16, PublishEntry> {
    if published.contains_key(id) {
        published.insert(id, PublishEntry { publish_state: state, ..published[id] })
    } else {
        published
    }
}

/// The session after it handled packet `p`.
pub open spec fn after_packet(v: SessionView, p: CtrlPacket) -> SessionView {
    match p {
        CtrlPacket::PUBLISH { topic, payload, .. } => SessionView {
            received: v.received.push((topic@, payload@)),
            ..v
        },
        CtrlPacket::PUBACK { packet_id } => SessionView {
            published: advance_publication(v.published, packet_id, PublishState::Acknowledgement),
            ..v
        },
        CtrlPacket::PUBREC { packet_id } => SessionView {
            published: advance_publication(v.published, packet_id, PublishState::Received),
            ..v
        },
        CtrlPacket::PUBCOMP { packet_id } => SessionView {
            published: advance_publication(v.published, packet_id, PublishState::Complete),
            ..v
        },
        CtrlPacket::SUBACK { packet_id, return_code } => SessionView {
            subscribed: if v.subscribed.contains_key(packet_id) {
                v.subscribed.insert(packet_id, Some(return_code))
            } else {
                v.subscribed
            },
            ..v
        },
        CtrlPacket::UNSUBACK { packet_id } => SessionView {
            unsubscribed: if v.unsubscribed.contains_key(packet_id) {
                v.unsubscribed.insert(packet_id, true)
            } else {
                v.unsubscribed
            },
            ..v
        },
        _ => v,
    }
}

/// A packet the session can handle: a QoS 1 or 2 publication carries a
/// packet identifier.
pub open spec fn handleable(p: CtrlPacket) -> bool {
    p matches CtrlPacket::PUBLISH { packet_id, qos, .. } ==> (qos == 1 || qos == 2
        ==> packet_id is Some)
}

/// Whether the session can handle `packet`: a QoS 1 or 2 publication must
/// carry a packet identifier.
pub fn handleable_packet(packet: &CtrlPacket) -> (result: bool)
    ensures
        result == handleable(*packet),
{
    match packet {
        CtrlPacket::PUBLISH { packet_id, qos, .. } => !(*qos == 1 || *qos == 2)
            || packet_id.is_some(),
        _ => true,
    }
}

/// The packet identifier of a PUBLISH; 0 for any other packet or a PUBLISH
/// without one.
pub open spec fn redelivered_id(p: CtrlPacket) -> i16 {
    match p {
        CtrlPacket::PUBLISH { packet_id: Some(id), .. } => id,
        _ => 0,
    }
}

/// What waiting for subscription `id` finds: its SUBACK return code, once
/// one arrived.
pub open spec fn subscribe_status(v: SessionView, id: i16) -> Option<u8> {
    if v.subscribed.contains_key(id) {
        v.subscribed[id]
    } else {
        None
    }
}

/// What waiting for unsubscription `id` finds: whether its UNSUBACK arrived,
/// for an identifier that was handed out for an unsubscription.
pub open spec fn unsubscribe_status(v: SessionView, id: i16) -> Option<bool> {
    if v.unsubscribed.contains_key(id) {
        Some(v.unsubscribed[id])
    } else {
        None
    }
}

/// What waiting for publication `id` finds: `Ready` once it was
/// acknowledged (QoS 1) or completed (QoS 2), or when no publication with
/// that identifier is pending; `None` while its handshake goes on.
pub open spec fn publish_status(v: SessionView, id: i16) -> Option<PublishResult> {
    if !v.published.contains_key(id) {
        Some(PublishResult::Ready)
    } else if v.published[id].publish_state == PublishState::Acknowledgement
        || v.published[id].publish_state == PublishState::Complete {
        Some(PublishResult::Ready)
    } else {
        None
    }
}

proof fn lemma_map_values_insert<V, W>(m: Map<i16, V>, k: i16, v: V, f: spec_fn(V) -> W)
    ensures
        m.insert(k, v).map_values(f) == m.map_values(f).insert(k, f(v)),
{
    assert(m.insert(k, v).map_values(f) =~= m.map_values(f).insert(k, f(v)));
}

impl SessionState {
    /// Every pending packet identifier lies between 1 and the last identifier
    /// handed out.
    #[verifier::type_invariant]
    spec fn pending_ids_issued(&self) -> bool {
        &&& 0 <= self.packet_id
        &&& forall|k: i16| #[trigger]
            self.published@.contains_key(k) ==> 1 <= k <= self.packet_id
        &&& forall|k: i16| #[trigger]
            self.subscribed@.contains_key(k) ==> 1 <= k <= self.packet_id
        &&& forall|k: i16| #[trigger]
            self.unsubscribed@.contains_key(k) ==> 1 <= k <= self.packet_id
    }

    proof fn lemma_view_well_formed(&self)
        requires
            self.pending_ids_issued(),
        ensures
            self@.well_formed(),
    {
        assert(self@.published.dom() =~= self.published@.dom());
        assert(self@.subscribed.dom() =~= self.subscribed@.dom());
        assert(self@.unsubscribed.dom() =~= self.unsubscribed@.dom());
    }

    /// A new session with the given keep-alive interval in seconds: no packet
    /// identifier handed out, nothing received or pending, and the clock's
    /// current second as the time of the last packet sent.
    pub fn new(keep_alive: i16) -> (result: SessionState)
        ensures
            result@.packet_id == 0,
            result@.keep_alive == keep_alive,
            result@.received == Seq::<(Seq<char>, Seq<u8>)>::empty(),
            result@.published == Map::<i16, PublishEntry>::empty(),
            result@.subscribed == Map::<i16, Option<u8>>::empty(),
            result@.unsubscribed == Map::<i16, bool>::empty(),
            result@.well_formed(),
    {
        SessionState::new_at(keep_alive, current_second())
    }

    /// A new session with the given keep-alive interval in seconds, whose last
    /// packet was sent at second `now`: no packet identifier handed out, and
    /// nothing received or pending.
    pub fn new_at(keep_alive: i16, now: i64) -> (result: SessionState)
        ensures
            result@ == (SessionView {
                packet_id: 0,
                keep_alive: keep_alive,
                last_message_sent: now,
                received: Seq::<(Seq<char>, Seq<u8>)>::empty(),
                published: Map::<i16, PublishEntry>::empty(),
                subscribed: Map::<i16, Option<u8>>::empty(),
                unsubscribed: Map::<i16, bool>::empty(),
            }),
            result@.well_formed(),
    {
        let result = SessionState {
            packet_id: 0,
            keep_alive: keep_alive,
            last_message_sent: now,
            received: Vec::new(),
            published: HashMap::new(),
            subscribed: HashMap::new(),
            unsubscribed: HashMap::new(),
        };
        proof {
            assert(result@.received =~= Seq::<(Seq<char>, Seq<u8>)>::empty());
            assert(result@.published =~= Map::<i16, PublishEntry>::empty());
            assert(result@.subscribed =~= Map::<i16, Option<u8>>::empty());
            assert(result@.unsubscribed =~= Map::<i16, bool>::empty());
        }
        result
    }

    /// The last packet identifier handed out.
    pub fn last_packet_id(&self) -> (result: i16)
        ensures
            result == self@.packet_id,
    {
        self.packet_id
    }

    fn next_packet_id(&mut self) -> (result: i16)
        requires
            old(self)@.packet_id < i16::MAX,
        ensures
            result == old(self)@.packet_id + 1,
            final(self)@ == (SessionView { packet_id: result, ..old(self)@ }),
    {
        proof {
            use_type_invariant(&*self);
            self.lemma_view_well_formed();
        }
        self.packet_id = self.packet_id + 1;
        self.packet_id
    }

    /// Hands out the next packet identifier for a SUBSCRIBE to the topic
    /// filter `topic` at QoS `qos`, records the subscription as waiting for
    /// its SUBACK, and gives the SUBSCRIBE to send.
    pub fn subscribe(&mut self, topic: &str, qos: u8) -> (result: (SubscribeResult, CtrlPacket))
        requires
            old(self)@.packet_id < i16::MAX,
        ensures
            result.0@ == old(self)@.packet_id + 1,
            is_subscribe(result.1, result.0@, topic@, qos),
            final(self)@ == (SessionView {
                packet_id: result.0@,
                subscribed: old(self)@.subscribed.insert(result.0@, None),
                ..old(self)@
            }),
            !old(self)@.subscribed.contains_key(result.0@),
            final(self)@.well_formed(),
    {
        proof {
            use_type_invariant(&*self);
            self.lemma_view_well_formed();
        }
        let next_packet_id = self.next_packet_id();
        proof {
            use_type_invariant(&*self);
        }
        let mut subscribed: HashMap<i16, SubscribeToken> = HashMap::new();
        std::mem::swap(&mut subscribed, &mut self.subscribed);
        let ghost before = subscribed@;
        subscribed.insert(next_packet_id, SubscribeToken { return_code: None });
        proof {
            lemma_map_values_insert(
                before,
                next_packet_id,
                SubscribeToken { return_code: None },
                |t: SubscribeToken| t.return_code,
            );
        }
        self.subscribed = subscribed;
        let packet = CtrlPacket::new_subscribe(topic, qos, next_packet_id);
        (SubscribeResult { packet_id: next_packet_id }, packet)
    }

    /// Hands out the next packet identifier for an UNSUBSCRIBE from the topic
    /// filter `topic`, records the unsubscription as waiting for its UNSUBACK,
    /// and gives the UNSUBSCRIBE to send.
    pub fn unsubscribe(&mut self, topic: &str) -> (result: (UnsubscribeResult, CtrlPacket))
        requires
            old(self)@.packet_id < i16::MAX,
        ensures
            result.0@ == old(self)@.packet_id + 1,
            is_unsubscribe(result.1, result.0@, topic@),
            final(self)@ == (SessionView {
                packet_id: result.0@,
                unsubscribed: old(self)@.unsubscribed.insert(result.0@, false),
                ..old(self)@
            }),
            !old(self)@.unsubscribed.contains_key(result.0@),
            final(self)@.well_formed(),
    {
        proof {
            use_type_invariant(&*self);
            self.lemma_view_well_formed();
        }
        let next_packet_id = self.next_packet_id();
        proof {
            use_type_invariant(&*self);
        }
        let mut unsubscribed: HashMap<i16, UnsubscribeToken> = HashMap::new();
        std::mem::swap(&mut unsubscribed, &mut self.unsubscribed);
        let ghost before = unsubscribed@;
        unsubscribed.insert(next_packet_id, UnsubscribeToken { unsubscribed: false });
        proof {
            lemma_map_values_insert(
                before,
                next_packet_id,
                UnsubscribeToken { unsubscribed: false },
                |t: UnsubscribeToken| t.unsubscribed,
            );
        }
        self.unsubscribed = unsubscribed;
        let packet = CtrlPacket::new_unsubscribe(topic, next_packet_id);
        (UnsubscribeResult { packet_id: next_packet_id }, packet)
    }

    /// Records a publication of `payload` to `topic` and gives the PUBLISH to
    /// send. With QoS 1 or 2 it gets the next packet identifier and waits for
    /// its acknowledgement; with any other QoS it is sent as QoS 0, without
    /// identifier, and nothing is recorded.
    pub fn publish(&mut self, topic: &str, payload: Vec<u8>, qos: u8) -> (result: (
        PublishResult,
        CtrlPacket,
    ))
        requires
            qos == 1 || qos == 2 ==> old(self)@.packet_id < i16::MAX,
        ensures
            qos == 1 || qos == 2 ==> {
                let id = (old(self)@.packet_id + 1) as i16;
                &&& result.0 == PublishResult::NotComplete { packet_id: id }
                &&& is_publish(result.1, Some(id), topic@, payload@, qos)
                &&& !old(self)@.published.contains_key(id)
                &&& final(self)@ == (SessionView {
                    packet_id: id,
                    published: old(self)@.published.insert(
                        id,
                        PublishEntry {
                            topic: topic@,
                            payload: payload@,
                            publish_state: PublishState::Sent,
                            qos: qos,
                        },
                    ),
                    ..old(self)@
                })
            },
            !(qos == 1 || qos == 2) ==> {
                &&& result.0 == PublishResult::Ready
                &&& is_publish(result.1, None, topic@, payload@, 0)
                &&& final(self)@ == old(self)@
            },
            final(self)@.well_formed(),
    {
        proof {
            use_type_invariant(&*self);
            self.lemma_view_well_formed();
        }
        if qos == 1 || qos == 2 {
            let next_packet_id = self.next_packet_id();
            proof {
                use_type_invariant(&*self);
            }
            let stored = payload.clone();
            proof {
                assert(stored@ =~= payload@);
            }
            let token = PublishToken {
                topic: topic.to_owned(),
                payload: stored,
                publish_state: PublishState::Sent,
                qos: qos,
                last_message: 0,
            };
            let mut published: HashMap<i16, PublishToken> = HashMap::new();
            std::mem::swap(&mut published, &mut self.published);
            let ghost before = published@;
            published.insert(next_packet_id, token);
            proof {
                lemma_map_values_insert(before, next_packet_id, token, |t: PublishToken| t@);
            }
            self.published = published;
            let packet = CtrlPacket::new_publish(topic, payload, next_packet_id, qos);
            (PublishResult::NotComplete { packet_id: next_packet_id }, packet)
        } else {
            let packet = CtrlPacket::new_publish_qos0(topic, payload);
            (PublishResult::Ready, packet)
        }
    }

    /// Moves the handshake of publication `packet_id`, if it is pending, to
    /// `state`.
    fn set_publish_state(&mut self, packet_id: i16, state: PublishState)
        ensures
            final(self)@ == (SessionView {
                published: advance_publication(old(self)@.published, packet_id, state),
                ..old(self)@
            }),
    {
        proof {
            use_type_invariant(&*self);
            self.lemma_view_well_formed();
        }
        let mut published: HashMap<i16, PublishToken> = HashMap::new();
        std::mem::swap(&mut published, &mut self.published);
        let ghost before = published@;
        match published.remove(&packet_id) {
            Some(mut published_token) => {
                let ghost old_entry = published_token@;
                assert(before.map_values(|t: PublishToken| t@)[packet_id] == old_entry);
                published_token.publish_state = state;
                assert(published_token@ == PublishEntry { publish_state: state, ..old_entry });
                let ghost removed = published@;
                published.insert(packet_id, published_token);
                proof {
                    lemma_map_values_insert(
                        removed,
                        packet_id,
                        published_token,
                        |t: PublishToken| t@,
                    );
                    assert(removed.insert(packet_id, published_token).map_values(
                        |t: PublishToken| t@,
                    ) =~= before.map_values(|t: PublishToken| t@).insert(
                        packet_id,
                        published_token@,
                    ));
                }
            },
            None => {
                assert(published@ =~= before);
            },
        }
        self.published = published;
    }

    /// Handles one packet received from the broker: records a delivered
    /// message, moves the handshake of a publication, subscription or
    /// unsubscription along, and says which answer to send and which event,
    /// if any, the packet makes for a caller that waits.
    pub fn handle_packet(&mut self, packet: CtrlPacket) -> (result: (
        Option<ReceivedPacket>,
        Option<CtrlPacket>,
    ))
        requires
            handleable(packet),
        ensures
            final(self)@ == after_packet(old(self)@, packet),
            result.0 == packet_event(packet),
            result.1 == packet_reply(packet),
            final(self)@.well_formed(),
    {
        proof {
            use_type_invariant(&*self);
            self.lemma_view_well_formed();
        }
        match packet {
            CtrlPacket::PUBLISH { packet_id, topic, payload, duplicate_delivery, qos, retain } => {
                let reply = if qos == 1 {
                    Some(CtrlPacket::PUBACK { packet_id: packet_id.unwrap() })
                } else if qos == 2 {
                    Some(CtrlPacket::PUBREC { packet_id: packet_id.unwrap() })
                } else {
                    None
                };
                let mut received: Vec<ReceivedMessage> = Vec::new();
                std::mem::swap(&mut received, &mut self.received);
                let ghost before = received@;
                let message = ReceivedMessage::new(topic, payload);
                received.push(message);
                proof {
                    assert(received@.map_values(|m: ReceivedMessage| m@) =~= before.map_values(
                        |m: ReceivedMessage| m@,
                    ).push(message@));
                }
                self.received = received;
                match packet_id {
                    Some(publish_packet_id) => (
                        Some(ReceivedPacket::WithId { packet_id: publish_packet_id }),
                        reply,
                    ),
                    None => (Some(ReceivedPacket::WithoutId), reply),
                }
            },
            CtrlPacket::PUBACK { packet_id } => {
                self.set_publish_state(packet_id, PublishState::Acknowledgement);
                (Some(ReceivedPacket::WithId { packet_id: packet_id }), None)
            },
            CtrlPacket::PUBREC { packet_id } => {
                self.set_publish_state(packet_id, PublishState::Received);
                (None, Some(CtrlPacket::PUBREL { packet_id: packet_id }))
            },
            CtrlPacket::PUBREL { packet_id } => {
                (None, Some(CtrlPacket::PUBCOMP { packet_id: packet_id }))
            },
            CtrlPacket::PUBCOMP { packet_id } => {
                self.set_publish_state(packet_id, PublishState::Complete);
                (Some(ReceivedPacket::WithId { packet_id: packet_id }), None)
            },
            CtrlPacket::SUBACK { packet_id, return_code } => {
                if self.subscribed.contains_key(&packet_id) {
                    let mut subscribed: HashMap<i16, SubscribeToken> = HashMap::new();
                    std::mem::swap(&mut subscribed, &mut self.subscribed);
                    let ghost before = subscribed@;
                    let token = SubscribeToken { return_code: Some(return_code) };
                    subscribed.insert(packet_id, token);
                    proof {
                        lemma_map_values_insert(
                            before,
                            packet_id,
                            token,
                            |t: SubscribeToken| t.return_code,
                        );
                    }
                    self.subscribed = subscribed;
                }
                (Some(ReceivedPacket::WithId { packet_id: packet_id }), None)
            },
            CtrlPacket::UNSUBACK { packet_id } => {
                if self.unsubscribed.contains_key(&packet_id) {
                    let mut unsubscribed: HashMap<i16, UnsubscribeToken> = HashMap::new();
                    std::mem::swap(&mut unsubscribed, &mut self.unsubscribed);
                    let ghost before = unsubscribed@;
                    let token = UnsubscribeToken { unsubscribed: true };
                    unsubscribed.insert(packet_id, token);
                    proof {
                        lemma_map_values_insert(
                            before,
                            packet_id,
                            token,
                            |t: UnsubscribeToken| t.unsubscribed,
                        );
                    }
                    self.unsubscribed = unsubscribed;
                }
                (None, None)
            },
            _ => (None, None),
        }
    }

    /// What waiting for subscription `packet_id` finds now: the return code
    /// of its SUBACK, once one arrived.
    pub fn subscribe_outcome(&self, packet_id: i16) -> (result: Option<u8>)
        ensures
            result == subscribe_status(self@, packet_id),
    {
        match self.subscribed.get(&packet_id) {
            Some(subscribe_token) => subscribe_token.return_code,
            None => None,
        }
    }

    /// What waiting for unsubscription `packet_id` finds now: whether its
    /// UNSUBACK arrived, if the identifier belongs to an unsubscription.
    pub fn unsubscribe_outcome(&self, packet_id: i16) -> (result: Option<bool>)
        ensures
            result == unsubscribe_status(self@, packet_id),
    {
        match self.unsubscribed.get(&packet_id) {
            Some(unsubscribe_token) => Some(unsubscribe_token.unsubscribed),
            None => None,
        }
    }

    /// What waiting for publication `packet_id` finds now: `Ready` once it was
    /// acknowledged or completed, or when it is not pending; `None` while its
    /// handshake goes on.
    pub fn publish_outcome(&self, packet_id: i16) -> (result: Option<PublishResult>)
        ensures
            result == publish_status(self@, packet_id),
    {
        match self.published.get(&packet_id) {
            Some(published_token) => {
                assert(self@.published[packet_id] == published_token@);
                match published_token.publish_state {
                    PublishState::Acknowledgement => Some(PublishResult::Ready),
                    PublishState::Complete => Some(PublishResult::Ready),
                    _ => None,
                }
            },
            None => Some(PublishResult::Ready),
        }
    }

    /// Takes the message received last, if any.
    pub fn take_received(&mut self) -> (result: Option<ReceivedMessage>)
        ensures
            old(self)@.received.len() == 0 ==> result is None && final(self)@ == old(self)@,
            old(self)@.received.len() > 0 ==> {
                &&& result matches Some(m) && m@ == old(self)@.received.last()
                &&& final(self)@ == (SessionView {
                    received: old(self)@.received.drop_last(),
                    ..old(self)@
                })
            },
    {
        proof {
            use_type_invariant(&*self);
            self.lemma_view_well_formed();
        }
        let mut received: Vec<ReceivedMessage> = Vec::new();
        std::mem::swap(&mut received, &mut self.received);
        let ghost before = received@;
        let result = received.pop();
        proof {
            if before.len() > 0 {
                assert(received@.map_values(|m: ReceivedMessage| m@) =~= before.map_values(
                    |m: ReceivedMessage| m@,
                ).drop_last());
            }
        }
        self.received = received;
        result
    }

    /// The publications to send again after a reconnection: every pending
    /// publication once, with its identifier, topic, payload and QoS, in the
    /// order in which the map of pending publications is walked.
    pub fn redeliveries(&self) -> (result: Vec<CtrlPacket>)
        ensures
            result.len() == self@.published.dom().len(),
            forall|i: int|
                0 <= i < result.len() ==> {
                    let id = #[trigger] redelivered_id(result[i]);
                    &&& self@.published.contains_key(id)
                    &&& is_publish(
                        result[i],
                        Some(id),
                        self@.published[id].topic,
                        self@.published[id].payload,
                        self@.published[id].qos,
                    )
                },
            forall|i: int, j: int|
                0 <= i < j < result.len() ==> #[trigger] redelivered_id(result[i])
                    != #[trigger] redelivered_id(result[j]),
            forall|id: i16|
                #[trigger] self@.published.contains_key(id) ==> exists|i: int|
                    0 <= i < result.len() && #[trigger] redelivered_id(result[i]) == id,
    {
        let mut result: Vec<CtrlPacket> = Vec::new();
        for (packet_id, published_token) in it: self.published.iter()
            invariant
                it.seq() == vstd::std_specs::hash::spec_hash_map_iter(&self.published).remaining(),
                result.len() == it.index(),
                forall|i: int|
                    0 <= i < it.index() ==> {
                        let (id, token) = #[trigger] it.seq()[i];
                        is_publish(result[i], Some(*id), token.topic@, token.payload@, token.qos)
                    },
        {
            let payload = published_token.payload.clone();
            proof {
                assert(payload@ =~= published_token.payload@);
            }
            result.push(
                CtrlPacket::new_publish(
                    published_token.topic.as_str(),
                    payload,
                    *packet_id,
                    published_token.qos,
                ),
            );
        }
        proof {
            let items = vstd::std_specs::hash::spec_hash_map_iter(&self.published).remaining();
            assert(items.len() == self.published@.dom().len());
            assert(result.len() == items.len());
            assert(self@.published.dom() =~= self.published@.dom());
            assert forall|i: int| 0 <= i < result.len() implies {
                let id = #[trigger] redelivered_id(result[i]);
                &&& self@.published.contains_key(id)
                &&& is_publish(
                    result[i],
                    Some(id),
                    self@.published[id].topic,
                    self@.published[id].payload,
                    self@.published[id].qos,
                )
            } by {
                let (id, token) = items[i];
                assert(self.published@.contains_key(*id));
                assert(self.published@[*id] == *token);
            }
            assert forall|id: i16| #[trigger] self@.published.contains_key(id) implies exists|i: int|
                0 <= i < result.len() && #[trigger] redelivered_id(result[i]) == id by {
                assert(self.published@.contains_key(id));
                let v = self.published@[id];
                assert(items.contains((&id, &v)));
                let i = items.index_of((&id, &v));
                assert(redelivered_id(result[i]) == id);
            }
            assert forall|i: int, j: int|
                0 <= i < j < result.len() implies #[trigger] redelivered_id(result[i]) != #[trigger] redelivered_id(result[j]) by {
                if redelivered_id(result[i]) == redelivered_id(result[j]) {
                    assert(self.published@.contains_key(*items[i].0));
                    assert(self.published@.contains_key(*items[j].0));
                    assert(items[i] == items[j]);
                }
            }
        }
        result
    }

    /// Records that a packet was just sent: the clock's current second becomes
    /// the time of the last packet sent; nothing else changes.
    pub fn note_sent(&mut self)
        ensures
            final(self)@ == (SessionView {
                last_message_sent: final(self)@.last_message_sent,
                ..old(self)@
            }),
    {
        self.note_sent_at(current_second());
    }

    /// Records that a packet was sent at second `now`: it becomes the time of
    /// the last packet sent; nothing else changes.
    pub fn note_sent_at(&mut self, now: i64)
        ensures
            final(self)@ == (SessionView { last_message_sent: now, ..old(self)@ }),
    {
        proof {
            use_type_invariant(&*self);
        }
        self.last_message_sent = now;
    }

    /// Whether a keep-alive ping is due by the clock's current second, given
    /// the time of the last packet sent and the keep-alive interval; `None`
    /// where their sum leaves the range of `i64`.
    pub fn keep_alive_due(&self) -> (result: Option<bool>)
        ensures
            !(i64::MIN <= self@.last_message_sent + self@.keep_alive <= i64::MAX) ==> result is None,
            i64::MIN <= self@.last_message_sent + self@.keep_alive <= i64::MAX ==> result is Some,
    {
        self.keep_alive_due_at(current_second())
    }

    /// Whether a keep-alive ping is due at second `now`: `now` lies strictly
    /// beyond the time of the last packet sent plus the keep-alive interval;
    /// `None` where that sum leaves the range of `i64`.
    pub fn keep_alive_due_at(&self, now: i64) -> (result: Option<bool>)
        ensures
            i64::MIN <= self@.last_message_sent + self@.keep_alive <= i64::MAX ==> result == Some(
                now > self@.last_message_sent + self@.keep_alive,
            ),
            !(i64::MIN <= self@.last_message_sent + self@.keep_alive <= i64::MAX) ==> result is None,
    {
        keep_alive_expired(now, self.last_message_sent, self.keep_alive)
    }
}

/// A subscription is waiting until its SUBACK arrives, and then its outcome is
/// the SUBACK's return code; the SUBACK is an event for that identifier.
pub proof fn lemma_subscription_completes(v: SessionView, return_code: u8)
    requires
        v.well_formed(),
        v.packet_id < i16::MAX,
    ensures
        ({
            let id = (v.packet_id + 1) as i16;
            let subscribed = SessionView {
                packet_id: id,
                subscribed: v.subscribed.insert(id, None),
                ..v
            };
            let suback = CtrlPacket::SUBACK { packet_id: id, return_code };
            &&& subscribe_status(subscribed, id) is None
            &&& subscribe_status(after_packet(subscribed, suback), id) == Some(return_code)
            &&& packet_event(suback) == Some(ReceivedPacket::WithId { packet_id: id })
        }),
{
}

/// The session after it handled the packets `ps`, in order.
pub open spec fn after_packets(v: SessionView, ps: Seq<CtrlPacket>) -> SessionView
    decreases ps.len(),
{
    if ps.len() == 0 {
        v
    } else {
        after_packet(after_packets(v, ps.drop_last()), ps.last())
    }
}

/// `p` is a SUBACK for packet identifier `id`.
pub open spec fn is_suback_for(p: CtrlPacket, id: i16) -> bool {
    p matches CtrlPacket::SUBACK { packet_id, .. } && packet_id == id
}

proof fn lemma_waiting_subscription_stays(w: SessionView, id: i16, ps: Seq<CtrlPacket>)
    requires
        w.subscribed.contains_key(id),
        w.subscribed[id] is None,
        forall|i: int| 0 <= i < ps.len() ==> !is_suback_for(#[trigger] ps[i], id),
    ensures
        after_packets(w, ps).subscribed.contains_key(id),
        after_packets(w, ps).subscribed[id] is None,
    decreases ps.len(),
{
    if ps.len() > 0 {
        let prefix = ps.drop_last();
        assert forall|i: int| 0 <= i < prefix.len() implies !is_suback_for(#[trigger] prefix[i], id) by {
            assert(prefix[i] == ps[i]);
        }
        lemma_waiting_subscription_stays(w, id, prefix);
        assert(!is_suback_for(ps[ps.len() - 1], id));
    }
}

/// Waiting for a subscription: whatever packets other than its SUBACK come
/// first, in any number, its outcome stays open; the SUBACK that then arrives
/// is an event for its identifier and fixes the outcome to the SUBACK's
/// return code.
pub proof fn lemma_subscription_wait(
    v: SessionView,
    ps: Seq<CtrlPacket>,
    return_code: u8,
)
    requires
        v.well_formed(),
        v.packet_id < i16::MAX,
        forall|i: int|
            0 <= i < ps.len() ==> !is_suback_for(#[trigger] ps[i], (v.packet_id + 1) as i16),
    ensures
        ({
            let id = (v.packet_id + 1) as i16;
            let subscribed = SessionView {
                packet_id: id,
                subscribed: v.subscribed.insert(id, None),
                ..v
            };
            let suback = CtrlPacket::SUBACK { packet_id: id, return_code };
            &&& forall|j: int|
                0 <= j <= ps.len() ==> subscribe_status(
                    #[trigger] after_packets(subscribed, ps.take(j)),
                    id,
                ) is None
            &&& subscribe_status(after_packets(subscribed, ps.push(suback)), id) == Some(
                return_code,
            )
            &&& packet_event(suback) == Some(ReceivedPacket::WithId { packet_id: id })
        }),
{
    let id = (v.packet_id + 1) as i16;
    let subscribed = SessionView { packet_id: id, subscribed: v.subscribed.insert(id, None), ..v };
    let suback = CtrlPacket::SUBACK { packet_id: id, return_code };
    assert forall|j: int| 0 <= j <= ps.len() implies subscribe_status(
        #[trigger] after_packets(subscribed, ps.take(j)),
        id,
    ) is None by {
        let taken = ps.take(j);
        assert forall|i: int| 0 <= i < taken.len() implies !is_suback_for(#[trigger] taken[i], id) by {
            assert(taken[i] == ps[i]);
        }
        lemma_waiting_subscription_stays(subscribed, id, taken);
    }
    lemma_waiting_subscription_stays(subscribed, id, ps);
    assert(ps.push(suback).drop_last() == ps);
}

proof fn lemma_after_packets_keeps(v: SessionView, ps: Seq<CtrlPacket>)
    requires
        v.well_formed(),
    ensures
        after_packets(v, ps).packet_id == v.packet_id,
        after_packets(v, ps).keep_alive == v.keep_alive,
        after_packets(v, ps).last_message_sent == v.last_message_sent,
        after_packets(v, ps).published.dom() == v.published.dom(),
        after_packets(v, ps).subscribed.dom() == v.subscribed.dom(),
        after_packets(v, ps).unsubscribed.dom() == v.unsubscribed.dom(),
        after_packets(v, ps).received.len() >= v.received.len(),
        after_packets(v, ps).received.subrange(0, v.received.len() as int) == v.received,
        after_packets(v, ps).well_formed(),
    decreases ps.len(),
{
    if ps.len() > 0 {
        lemma_after_packets_keeps(v, ps.drop_last());
        let w = after_packets(v, ps.drop_last());
        lemma_handling_keeps_identifiers(w, ps.last());
        let a = after_packet(w, ps.last());
        assert(a.received.subrange(0, v.received.len() as int) =~= v.received) by {
            assert(a.received.len() >= w.received.len());
            assert forall|i: int| 0 <= i < v.received.len() implies a.received[i] == w.received[i] by {
                if ps.last() is PUBLISH {
                    assert(a.received == w.received.push(a.received.last()));
                }
            }
            assert forall|i: int| 0 <= i < v.received.len() implies w.received[i] == v.received[i] by {
                assert(w.received.subrange(0, v.received.len() as int)[i] == w.received[i]);
            }
        }
    }
}

/// Handling any number of packets in a row hands out no packet identifier,
/// keeps the keep-alive interval, the time of the last packet sent and the
/// pending identifiers, and only adds received messages behind those already
/// there.
pub proof fn lemma_handling_many_keeps_identifiers(v: SessionView, ps: Seq<CtrlPacket>)
    requires
        v.well_formed(),
    ensures
        ({
            let a = after_packets(v, ps);
            &&& a.packet_id == v.packet_id
            &&& a.keep_alive == v.keep_alive
            &&& a.last_message_sent == v.last_message_sent
            &&& a.published.dom() == v.published.dom()
            &&& a.subscribed.dom() == v.subscribed.dom()
            &&& a.unsubscribed.dom() == v.unsubscribed.dom()
            &&& v.received.is_prefix_of(a.received)
            &&& a.well_formed()
        }),
{
    lemma_after_packets_keeps(v, ps);
    let a = after_packets(v, ps);
    assert(v.received.is_prefix_of(a.received)) by {
        assert forall|i: int| 0 <= i < v.received.len() implies v.received[i] == a.received[i] by {
            assert(a.received.subrange(0, v.received.len() as int)[i] == a.received[i]);
        }
    }
}

/// `p` acknowledges (PUBACK) or completes (PUBCOMP) publication `id`.
pub open spec fn completes_publication(p: CtrlPacket, id: i16) -> bool {
    ||| (p matches CtrlPacket::PUBACK { packet_id } && packet_id == id)
    ||| (p matches CtrlPacket::PUBCOMP { packet_id } && packet_id == id)
}

/// A pending publication whose handshake is sent or received.
pub open spec fn publication_in_flight(v: SessionView, id: i16) -> bool {
    &&& v.published.contains_key(id)
    &&& (v.published[id].publish_state == PublishState::Sent || v.published[id].publish_state
        == PublishState::Received)
}

proof fn lemma_in_flight_publication_stays(w: SessionView, id: i16, ps: Seq<CtrlPacket>)
    requires
        publication_in_flight(w, id),
        forall|i: int| 0 <= i < ps.len() ==> !completes_publication(#[trigger] ps[i], id),
    ensures
        publication_in_flight(after_packets(w, ps), id),
    decreases ps.len(),
{
    if ps.len() > 0 {
        let prefix = ps.drop_last();
        assert forall|i: int| 0 <= i < prefix.len() implies !completes_publication(
            #[trigger] prefix[i],
            id,
        ) by {
            assert(prefix[i] == ps[i]);
        }
        lemma_in_flight_publication_stays(w, id, prefix);
        assert(!completes_publication(ps[ps.len() - 1], id));
    }
}

/// Waiting for a QoS 1 or 2 publication: whatever packets other than its
/// PUBACK or PUBCOMP come first, in any number (a PUBREC among them), it stays
/// waiting; the PUBACK or PUBCOMP that then arrives is an event for its
/// identifier and makes it `Ready`.
pub proof fn lemma_publication_wait(
    v: SessionView,
    entry: PublishEntry,
    ps: Seq<CtrlPacket>,
    completion: CtrlPacket,
)
    requires
        v.well_formed(),
        v.packet_id < i16::MAX,
        entry.publish_state == PublishState::Sent,
        forall|i: int|
            0 <= i < ps.len() ==> !completes_publication(#[trigger] ps[i], (v.packet_id + 1) as i16),
        completes_publication(completion, (v.packet_id + 1) as i16),
    ensures
        ({
            let id = (v.packet_id + 1) as i16;
            let published = SessionView {
                packet_id: id,
                published: v.published.insert(id, entry),
                ..v
            };
            &&& forall|j: int|
                0 <= j <= ps.len() ==> publish_status(
                    #[trigger] after_packets(published, ps.take(j)),
                    id,
                ) is None
            &&& publish_status(after_packets(published, ps.push(completion)), id) == Some(
                PublishResult::Ready,
            )
            &&& packet_event(completion) == Some(ReceivedPacket::WithId { packet_id: id })
        }),
{
    let id = (v.packet_id + 1) as i16;
    let published = SessionView { packet_id: id, published: v.published.insert(id, entry), ..v };
    assert forall|j: int| 0 <= j <= ps.len() implies publish_status(
        #[trigger] after_packets(published, ps.take(j)),
        id,
    ) is None by {
        let taken = ps.take(j);
        assert forall|i: int| 0 <= i < taken.len() implies !completes_publication(
            #[trigger] taken[i],
            id,
        ) by {
            assert(taken[i] == ps[i]);
        }
        lemma_in_flight_publication_stays(published, id, taken);
    }
    lemma_in_flight_publication_stays(published, id, ps);
    assert(ps.push(completion).drop_last() == ps);
}

/// An unsubscription's outcome is `false` until its UNSUBACK arrives and
/// `true` afterwards.
pub proof fn lemma_unsubscription_completes(v: SessionView)
    requires
        v.well_formed(),
        v.packet_id < i16::MAX,
    ensures
        ({
            let id = (v.packet_id + 1) as i16;
            let unsubscribed = SessionView {
                packet_id: id,
                unsubscribed: v.unsubscribed.insert(id, false),
                ..v
            };
            &&& unsubscribe_status(unsubscribed, id) == Some(false)
            &&& unsubscribe_status(
                after_packet(unsubscribed, CtrlPacket::UNSUBACK { packet_id: id }),
                id,
            ) == Some(true)
        }),
{
}

/// A QoS 1 publication waits until its PUBACK arrives and is `Ready`
/// afterwards.
pub proof fn lemma_qos1_publication_completes(v: SessionView, entry: PublishEntry)
    requires
        v.well_formed(),
        v.packet_id < i16::MAX,
        entry.publish_state == PublishState::Sent,
    ensures
        ({
            let id = (v.packet_id + 1) as i16;
            let published = SessionView {
                packet_id: id,
                published: v.published.insert(id, entry),
                ..v
            };
            let puback = CtrlPacket::PUBACK { packet_id: id };
            &&& publish_status(published, id) is None
            &&& publish_status(after_packet(published, puback), id) == Some(PublishResult::Ready)
            &&& packet_event(puback) == Some(ReceivedPacket::WithId { packet_id: id })
        }),
{
}

/// A QoS 2 publication still waits after its PUBREC, which is answered with
/// PUBREL, and is `Ready` once its PUBCOMP arrives.
pub proof fn lemma_qos2_publication_completes(v: SessionView, entry: PublishEntry)
    requires
        v.well_formed(),
        v.packet_id < i16::MAX,
        entry.publish_state == PublishState::Sent,
    ensures
        ({
            let id = (v.packet_id + 1) as i16;
            let published = SessionView {
                packet_id: id,
                published: v.published.insert(id, entry),
                ..v
            };
            let pubrec = CtrlPacket::PUBREC { packet_id: id };
            let received = after_packet(published, pubrec);
            let pubcomp = CtrlPacket::PUBCOMP { packet_id: id };
            &&& publish_status(published, id) is None
            &&& publish_status(received, id) is None
            &&& packet_reply(pubrec) == Some(CtrlPacket::PUBREL { packet_id: id })
            &&& packet_event(pubrec) is None
            &&& publish_status(after_packet(received, pubcomp), id) == Some(PublishResult::Ready)
        }),
{
}

/// Waiting for a publication that is not pending finds it `Ready` at once.
pub proof fn lemma_unknown_publication_ready(v: SessionView, id: i16)
    requires
        !v.published.contains_key(id),
    ensures
        publish_status(v, id) == Some(PublishResult::Ready),
{
}

/// A delivered publication becomes the message that is taken next, and is
/// answered according to its QoS with the packet identifier it carried.
pub proof fn lemma_delivered_message_taken_next(
    v: SessionView,
    packet_id: Option<i16>,
    topic: String,
    payload: Vec<u8>,
    duplicate_delivery: bool,
    qos: u8,
    retain: bool,
)
    ensures
        ({
            let p = CtrlPacket::PUBLISH {
                packet_id,
                topic,
                payload,
                duplicate_delivery,
                qos,
                retain,
            };
            let after = after_packet(v, p);
            &&& after.received.len() == v.received.len() + 1
            &&& after.received.last() == (topic@, payload@)
            &&& after.received.drop_last() == v.received
            &&& (qos == 1 ==> packet_reply(p) == Some(CtrlPacket::PUBACK { packet_id: packet_id->0 }))
            &&& (qos == 2 ==> packet_reply(p) == Some(CtrlPacket::PUBREC { packet_id: packet_id->0 }))
            &&& (qos != 1 && qos != 2 ==> packet_reply(p) is None)
        }),
{
    let p = CtrlPacket::PUBLISH { packet_id, topic, payload, duplicate_delivery, qos, retain };
    assert(after_packet(v, p).received.drop_last() =~= v.received);
}

/// Handling a packet hands out no packet identifier, keeps the keep-alive
/// interval and the time of the last packet sent, and adds no pending
/// identifier.
pub proof fn lemma_handling_keeps_identifiers(v: SessionView, p: CtrlPacket)
    requires
        v.well_formed(),
    ensures
        after_packet(v, p).packet_id == v.packet_id,
        after_packet(v, p).keep_alive == v.keep_alive,
        after_packet(v, p).last_message_sent == v.last_message_sent,
        after_packet(v, p).published.dom() == v.published.dom(),
        after_packet(v, p).subscribed.dom() == v.subscribed.dom(),
        after_packet(v, p).unsubscribed.dom() == v.unsubscribed.dom(),
        after_packet(v, p).well_formed(),
{
    let a = after_packet(v, p);
    assert(a.published.dom() =~= v.published.dom());
    assert(a.subscribed.dom() =~= v.subscribed.dom());
    assert(a.unsubscribed.dom() =~= v.unsubscribed.dom());
}

/// Every delivered publication is an event for a waiting caller, whatever its
/// QoS: an event for its packet identifier when it carries one, an event
/// without identifier otherwise.
pub proof fn lemma_delivery_is_an_event(
    packet_id: Option<i16>,
    topic: String,
    payload: Vec<u8>,
    duplicate_delivery: bool,
    qos: u8,
    retain: bool,
)
    ensures
        ({
            let p = CtrlPacket::PUBLISH {
                packet_id,
                topic,
                payload,
                duplicate_delivery,
                qos,
                retain,
            };
            &&& packet_event(p) is Some
            &&& packet_id matches Some(id) ==> packet_event(p) == Some(
                ReceivedPacket::WithId { packet_id: id },
            )
            &&& packet_id is None ==> packet_event(p) == Some(ReceivedPacket::WithoutId)
        }),
{
}

/// Each packet touches only its own part of the session: only an UNSUBACK
/// changes the unsubscriptions, only a SUBACK the subscriptions, only a
/// PUBACK, PUBREC or PUBCOMP the pending publications, and only a PUBLISH the
/// received messages; a SUBACK, UNSUBACK, PUBACK, PUBREC or PUBCOMP for an
/// identifier that is not pending in its table changes nothing.
pub proof fn lemma_packet_touches_its_own_table(v: SessionView, p: CtrlPacket)
    ensures
        !(p is UNSUBACK) ==> after_packet(v, p).unsubscribed == v.unsubscribed,
        !(p is SUBACK) ==> after_packet(v, p).subscribed == v.subscribed,
        !(p is PUBACK || p is PUBREC || p is PUBCOMP) ==> after_packet(v, p).published
            == v.published,
        !(p is PUBLISH) ==> after_packet(v, p).received == v.received,
        p matches CtrlPacket::UNSUBACK { packet_id } ==> (v.unsubscribed.contains_key(packet_id)
            ==> after_packet(v, p).unsubscribed == v.unsubscribed.insert(packet_id, true))
            && (!v.unsubscribed.contains_key(packet_id) ==> after_packet(v, p) == v),
        p matches CtrlPacket::SUBACK { packet_id, return_code } ==> (v.subscribed.contains_key(
            packet_id,
        ) ==> after_packet(v, p).subscribed == v.subscribed.insert(packet_id, Some(return_code)))
            && (!v.subscribed.contains_key(packet_id) ==> after_packet(v, p) == v),
{
}

/// `p` is an UNSUBACK for packet identifier `id`.
pub open spec fn is_unsuback_for(p: CtrlPacket, id: i16) -> bool {
    p matches CtrlPacket::UNSUBACK { packet_id } && packet_id == id
}

proof fn lemma_waiting_unsubscription_stays(w: SessionView, id: i16, ps: Seq<CtrlPacket>)
    requires
        w.unsubscribed.contains_key(id),
        w.unsubscribed[id] == false,
        forall|i: int| 0 <= i < ps.len() ==> !is_unsuback_for(#[trigger] ps[i], id),
    ensures
        after_packets(w, ps).unsubscribed.contains_key(id),
        after_packets(w, ps).unsubscribed[id] == false,
    decreases ps.len(),
{
    if ps.len() > 0 {
        let prefix = ps.drop_last();
        assert forall|i: int| 0 <= i < prefix.len() implies !is_unsuback_for(
            #[trigger] prefix[i],
            id,
        ) by {
            assert(prefix[i] == ps[i]);
        }
        lemma_waiting_unsubscription_stays(w, id, prefix);
        assert(!is_unsuback_for(ps[ps.len() - 1], id));
    }
}

/// Waiting for an unsubscription: whatever packets other than its UNSUBACK
/// come first, in any number (publications carrying the same identifier
/// among them), its outcome stays `false`; the UNSUBACK that then arrives
/// makes it `true`.
pub proof fn lemma_unsubscription_wait(v: SessionView, ps: Seq<CtrlPacket>)
    requires
        v.well_formed(),
        v.packet_id < i16::MAX,
        forall|i: int|
            0 <= i < ps.len() ==> !is_unsuback_for(#[trigger] ps[i], (v.packet_id + 1) as i16),
    ensures
        ({
            let id = (v.packet_id + 1) as i16;
            let unsubscribed = SessionView {
                packet_id: id,
                unsubscribed: v.unsubscribed.insert(id, false),
                ..v
            };
            &&& forall|j: int|
                0 <= j <= ps.len() ==> unsubscribe_status(
                    #[trigger] after_packets(unsubscribed, ps.take(j)),
                    id,
                ) == Some(false)
            &&& unsubscribe_status(
                after_packets(unsubscribed, ps.push(CtrlPacket::UNSUBACK { packet_id: id })),
                id,
            ) == Some(true)
        }),
{
    let id = (v.packet_id + 1) as i16;
    let unsubscribed = SessionView {
        packet_id: id,
        unsubscribed: v.unsubscribed.insert(id, false),
        ..v
    };
    assert forall|j: int| 0 <= j <= ps.len() implies unsubscribe_status(
        #[trigger] after_packets(unsubscribed, ps.take(j)),
        id,
    ) == Some(false) by {
        let taken = ps.take(j);
        assert forall|i: int| 0 <= i < taken.len() implies !is_unsuback_for(
            #[trigger] taken[i],
            id,
        ) by {
            assert(taken[i] == ps[i]);
        }
        lemma_waiting_unsubscription_stays(unsubscribed, id, taken);
    }
    lemma_waiting_unsubscription_stays(unsubscribed, id, ps);
    assert(ps.push(CtrlPacket::UNSUBACK { packet_id: id }).drop_last() == ps);
}

} // verus!
