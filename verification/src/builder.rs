use vstd::prelude::*;

use crate::mqtt::{opt_chars, CtrlPacket};
use crate::clock::current_second;
use crate::session::{PublishEntry, SessionState, SessionView};

verus! {

/// The settings that a `MqttSessionBuilder` collects.
pub struct SessionSettings {
    pub client_id: Seq<char>,
    pub host: Seq<char>,
    pub user: Option<Seq<char>>,
    pub password: Option<Seq<char>>,
    pub will_topic: Option<Seq<char>>,
    pub will_content: Option<Seq<char>>,
    pub will_qos: Option<u8>,
    pub will_retain: Option<bool>,
    pub clean_session: bool,
    pub keep_alive: i16,
}

/// A copy of an optional string.
fn clone_text(s: &Option<String>) -> (result: Option<String>)
    ensures
        opt_chars(result) == opt_chars(*s),
{
    match s {
        Some(text) => Some(text.clone()),
        None => None,
    }
}

/// A structure that can be used to connect to an MQTT broker and build a
/// session.
pub struct MqttSessionBuilder {
    client_id: String,
    host: String,
    user: Option<String>,
    password: Option<String>,
    will_topic: Option<String>,
    will_content: Option<String>,
    will_qos: Option<u8>,
    will_retain: Option<bool>,
    clean_session: bool,
    keep_alive: i16,
}

impl View for MqttSessionBuilder {
    type V = SessionSettings;

    closed spec fn view(&self) -> SessionSettings {
        SessionSettings {
            client_id: self.client_id@,
            host: self.host@,
            user: opt_chars(self.user),
            password: opt_chars(self.password),
            will_topic: opt_chars(self.will_topic),
            will_content: opt_chars(self.will_content),
            will_qos: self.will_qos,
            will_retain: self.will_retain,
            clean_session: self.clean_session,
            keep_alive: self.keep_alive,
        }
    }
}

impl MqttSessionBuilder {
    /// Creates a new `MqttSessionBuilder` for the client `client_id` and the
    /// broker at `host`: no credentials, no will message, no clean session,
    /// and a keep-alive of 0.
    pub fn new(client_id: &str, host: &str) -> (result: MqttSessionBuilder)
        ensures
            result@ == (SessionSettings {
                client_id: client_id@,
                host: host@,
                user: None,
                password: None,
                will_topic: None,
                will_content: None,
                will_qos: None,
                will_retain: None,
                clean_session: false,
                keep_alive: 0,
            }),
    {
        MqttSessionBuilder {
            client_id: client_id.to_owned(),
            host: host.to_owned(),
            user: None,
            password: None,
            will_topic: None,
            will_content: None,
            will_qos: None,
            will_retain: None,
            clean_session: false,
            keep_alive: 0,
        }
    }

    /// Sets the user name and password with which the client authenticates
    /// when it connects. Without them it connects without authentication.
    pub fn credentials(self, user: &str, password: &str) -> (result: MqttSessionBuilder)
        ensures
            result@ == (SessionSettings { user: Some(user@), password: Some(password@), ..self@ }),
    {
        let mut builder = self;
        builder.user = Some(user.to_owned());
        builder.password = Some(password.to_owned());
        builder
    }

    /// Defines the Will Message: the message that the broker publishes to
    /// `will_topic` when the connection to the client is lost unexpectedly.
    /// Without it no Will Message is defined.
    pub fn will_message(self, will_topic: &str, will_content: &str, will_qos: u8, will_retain: bool)
        -> (result: MqttSessionBuilder)
        ensures
            result@ == (SessionSettings {
                will_topic: Some(will_topic@),
                will_content: Some(will_content@),
                will_qos: Some(will_qos),
                will_retain: Some(will_retain),
                ..self@
            }),
    {
        let mut builder = self;
        builder.will_retain = Some(will_retain);
        builder.will_qos = Some(will_qos);
        builder.will_topic = Some(will_topic.to_owned());
        builder.will_content = Some(will_content.to_owned());
        builder
    }

    /// Sets how often, in seconds, the broker should expect a keep-alive
    /// message from the client.
    pub fn keep_alive(self, keep_alive: i16) -> (result: MqttSessionBuilder)
        ensures
            result@ == (SessionSettings { keep_alive: keep_alive, ..self@ }),
    {
        let mut builder = self;
        builder.keep_alive = keep_alive;
        builder
    }

    /// Asks for a clean session.
    pub fn clean_session(self) -> (result: MqttSessionBuilder)
        ensures
            result@ == (SessionSettings { clean_session: true, ..self@ }),
    {
        let mut builder = self;
        builder.clean_session = true;
        builder
    }

    /// The CONNECT that opens a session with these settings: the client
    /// identifier, the will message, the credentials, the clean-session flag
    /// and the keep-alive interval set here.
    pub fn connect_packet(&self) -> (result: CtrlPacket)
        ensures
            result matches CtrlPacket::CONNECT {
                client_id,
                topic,
                content,
                qos,
                retain,
                username,
                password,
                clean_session,
                keep_alive,
            } && client_id@ == self@.client_id && opt_chars(topic) == self@.will_topic
                && opt_chars(content) == self@.will_content && qos == self@.will_qos && retain
                == self@.will_retain && opt_chars(username) == self@.user && opt_chars(password)
                == self@.password && clean_session == self@.clean_session && keep_alive
                == self@.keep_alive,
    {
        CtrlPacket::CONNECT {
            client_id: self.client_id.clone(),
            topic: clone_text(&self.will_topic),
            content: clone_text(&self.will_content),
            qos: self.will_qos,
            retain: self.will_retain,
            username: clone_text(&self.user),
            password: clone_text(&self.password),
            clean_session: self.clean_session,
            keep_alive: self.keep_alive,
        }
    }

    /// The address of the broker.
    pub fn host(&self) -> (result: &str)
        ensures
            result@ == self@.host,
    {
        self.host.as_str()
    }

    /// The state of a session that starts with these settings: its keep-alive
    /// interval is the one set here, and nothing is pending yet.
    pub fn start_session(&self) -> (result: SessionState)
        ensures
            result@.packet_id == 0,
            result@.keep_alive == self@.keep_alive,
            result@.received.len() == 0,
            result@.published.is_empty(),
            result@.subscribed.is_empty(),
            result@.unsubscribed.is_empty(),
            result@.well_formed(),
    {
        self.start_session_at(current_second())
    }

    /// The state of a session that starts with these settings and whose last
    /// packet was sent at second `now`: its keep-alive interval is the one set
    /// here, and nothing is pending yet.
    pub fn start_session_at(&self, now: i64) -> (result: SessionState)
        ensures
            result@ == (SessionView {
                packet_id: 0,
                keep_alive: self@.keep_alive,
                last_message_sent: now,
                received: Seq::<(Seq<char>, Seq<u8>)>::empty(),
                published: Map::<i16, PublishEntry>::empty(),
                subscribed: Map::<i16, Option<u8>>::empty(),
                unsubscribed: Map::<i16, bool>::empty(),
            }),
            result@.well_formed(),
    {
        SessionState::new_at(self.keep_alive, now)
    }
}

/// The message with which a CONNACK return code other than 0 refuses the
/// connection.
pub open spec fn refusal_message(return_code: u8) -> Seq<char> {
    if return_code == 1 {
        "Connection Refused, unacceptable protocol version"@
    } else if return_code == 2 {
        "Connection Refused, identifier rejected"@
    } else if return_code == 3 {
        "Connection Refused, Server unavailable"@
    } else if return_code == 4 {
        "Connection Refused, bad user name or password"@
    } else if return_code == 5 {
        "Connection Refused, not authorized"@
    } else {
        "Connection Refused, invalid return code"@
    }
}

/// What the first packet after CONNECT makes of the connection: a CONNACK
/// with return code 0 accepts it; a CONNACK with another code refuses it with
/// the matching message; any other packet is unexpected.
pub fn connack_outcome(packet: &CtrlPacket) -> (result: Result<(), String>)
    ensures
        match *packet {
            CtrlPacket::CONNACK { return_code, .. } => if return_code == 0 {
                result is Ok
            } else {
                result matches Err(message) && message@ == refusal_message(return_code)
            },
            _ => result matches Err(message) && message@ == "Unexpected packet received"@,
        },
{
    match packet {
        CtrlPacket::CONNACK { session_present, return_code } => {
            match *return_code {
                0x00 => Ok(()),
                0x01 => Err("Connection Refused, unacceptable protocol version".to_owned()),
                0x02 => Err("Connection Refused, identifier rejected".to_owned()),
                0x03 => Err("Connection Refused, Server unavailable".to_owned()),
                0x04 => Err("Connection Refused, bad user name or password".to_owned()),
                0x05 => Err("Connection Refused, not authorized".to_owned()),
                _ => Err("Connection Refused, invalid return code".to_owned()),
            }
        },
        _ => Err("Unexpected packet received".to_owned()),
    }
}

} // verus!
