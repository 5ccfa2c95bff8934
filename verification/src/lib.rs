//! A small MQTT 3.1.1 client library: control packet encoding, the session
//! builder, and the bookkeeping of an MQTT session (packet identifiers, the
//! QoS 1/2 publish handshakes, subscription acknowledgements, keep-alive).
#![allow(non_camel_case_types)]
#![allow(non_snake_case)]

pub mod builder;
pub mod clock;
pub mod mqtt;
pub mod session;

pub use builder::{connack_outcome, MqttSessionBuilder};
pub use mqtt::CtrlPacket;
pub use session::{
    PublishResult, ReceivedMessage, ReceivedPacket, SessionState, SubscribeResult,
    UnsubscribeResult,
};
