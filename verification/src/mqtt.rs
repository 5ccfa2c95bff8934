use vstd::prelude::*;
use vstd::string::StringSliceAdditionalSpecFns;
use vstd::utf8::encode_utf8;

verus! {

/// The MQTT control packets, with the fields that this library writes and
/// reads.
pub enum CtrlPacket {
    CONNECT {
        client_id: String,
        topic: Option<String>,
        content: Option<String>,
        qos: Option<u8>,
        retain: Option<bool>,
        username: Option<String>,
        password: Option<String>,
        clean_session: bool,
        keep_alive: i16,
    },
    CONNACK { session_present: bool, return_code: u8 },
    PUBLISH {
        packet_id: Option<i16>,
        topic: String,
        payload: Vec<u8>,
        duplicate_delivery: bool,
        qos: u8,
        retain: bool,
    },
    PUBACK { packet_id: i16 },
    PUBREC { packet_id: i16 },
    PUBREL { packet_id: i16 },
    PUBCOMP { packet_id: i16 },
    SUBSCRIBE { packet_id: i16, topic: String, qos: u8 },
    SUBACK { packet_id: i16, return_code: u8 },
    UNSUBSCRIBE { packet_id: i16, topic: String },
    UNSUBACK { packet_id: i16 },
    PINGREQ,
    PINGRESP,
    DISCONNECT,
}

/// The view of an optional string.
pub open spec fn opt_chars(s: Option<String>) -> Option<Seq<char>> {
    match s {
        Some(s) => Some(s@),
        None => None,
    }
}

/// The two bytes written in front of a string of `n` bytes: the length taken
/// as a `u16`, most significant byte first.
pub open spec fn string_length_prefix(n: nat) -> Seq<u8> {
    let t = n as u16;
    seq![(t / 256) as u8, (t % 256) as u8]
}

/// A string field: its length prefix followed by its bytes.
pub open spec fn string_field(bytes: Seq<u8>) -> Seq<u8> {
    string_length_prefix(bytes.len()) + bytes
}

/// The MQTT "remaining length" encoding of `n`: base 128, least significant
/// digit first, with the high bit of every byte but the last set.
pub open spec fn remaining_length_bytes(n: nat) -> Seq<u8>
    decreases n,
{
    if n < 128 {
        seq![n as u8]
    } else {
        seq![((n % 128) + 128) as u8] + remaining_length_bytes(n / 128)
    }
}

/// The value that a sequence of remaining-length bytes stands for, reading
/// the low seven bits of each byte as a base-128 digit, least significant first.
pub open spec fn remaining_length_value(bytes: Seq<u8>) -> nat
    decreases bytes.len(),
{
    if bytes.len() == 0 {
        0
    } else {
        (bytes[0] % 128) as nat + 128 * remaining_length_value(bytes.drop_first())
    }
}

/// A text field: the length prefix and the UTF-8 bytes of `s`.
pub open spec fn text_field(s: Seq<char>) -> Seq<u8> {
    string_field(encode_utf8(s))
}

/// The text field of an optional string; nothing where it is absent.
pub open spec fn optional_text_field(s: Option<Seq<char>>) -> Seq<u8> {
    match s {
        Some(s) => text_field(s),
        None => Seq::<u8>::empty(),
    }
}

/// A CONNECT carries a will message where it has both a will topic and a will
/// message.
pub open spec fn has_will(topic: Option<Seq<char>>, content: Option<Seq<char>>) -> bool {
    topic is Some && content is Some
}

/// The connect flags: user name (0x80), password (0x40), will retain (0x20),
/// the low two bits of the will QoS (0x18), will (0x04) and clean session
/// (0x02). Will retain and will QoS are written only with a will message.
pub open spec fn connect_flags(
    user: bool,
    password: bool,
    will: bool,
    will_qos: u8,
    will_retain: bool,
    clean_session: bool,
) -> u8 {
    ((if user { 0x80int } else { 0 }) + (if password { 0x40int } else { 0 }) + (if will
        && will_retain {
        0x20int
    } else {
        0
    }) + (if will { (will_qos % 4) * 8 } else { 0 }) + (if will { 4int } else { 0 }) + (
    if clean_session {
        2int
    } else {
        0
    })) as u8
}

/// The keep-alive interval as two bytes, most significant first.
pub open spec fn keep_alive_bytes(keep_alive: i16) -> Seq<u8> {
    let t = keep_alive as u16;
    seq![(t / 256) as u8, (t % 256) as u8]
}

/// What follows the fixed header of a CONNECT: the protocol name "MQTT",
/// protocol level 4, the connect flags, the keep-alive interval, the client
/// identifier, then the will topic and will message where there is a will,
/// the user name and the password where they are given.
pub open spec fn connect_body(
    client_id: Seq<char>,
    will_topic: Option<Seq<char>>,
    will_content: Option<Seq<char>>,
    will_qos: Option<u8>,
    will_retain: Option<bool>,
    username: Option<Seq<char>>,
    password: Option<Seq<char>>,
    clean_session: bool,
    keep_alive: i16,
) -> Seq<u8> {
    let will = has_will(will_topic, will_content);
    let qos = match will_qos {
        Some(q) => q,
        None => 0u8,
    };
    let retain = match will_retain {
        Some(r) => r,
        None => false,
    };
    seq![
        0x00u8,
        0x04,
        0x4d,
        0x51,
        0x54,
        0x54,
        0x04,
        connect_flags(username is Some, password is Some, will, qos, retain, clean_session),
    ] + keep_alive_bytes(keep_alive) + text_field(client_id) + (if will {
        optional_text_field(will_topic) + optional_text_field(will_content)
    } else {
        Seq::<u8>::empty()
    }) + optional_text_field(username) + optional_text_field(password)
}

/// The body of a CONNECT, from its fields; empty for any other packet.
pub open spec fn connect_body_of(p: CtrlPacket) -> Seq<u8> {
    match p {
        CtrlPacket::CONNECT {
            client_id,
            topic,
            content,
            qos,
            retain,
            username,
            password,
            clean_session,
            keep_alive,
        } => connect_body(
            client_id@,
            opt_chars(topic),
            opt_chars(content),
            qos,
            retain,
            opt_chars(username),
            opt_chars(password),
            clean_session,
            keep_alive,
        ),
        _ => Seq::<u8>::empty(),
    }
}

/// The bytes of a packet on the wire. Only CONNECT has an encoding: packet
/// type 1, the remaining length of its body, then its body.
pub open spec fn packet_bytes(p: CtrlPacket) -> Seq<u8> {
    if p is CONNECT {
        seq![0x10u8] + remaining_length_bytes(connect_body_of(p).len()) + connect_body_of(p)
    } else {
        Seq::<u8>::empty()
    }
}

/// `p` is a PUBLISH with the given identifier, topic, payload and QoS, neither
/// a duplicate nor retained.
pub open spec fn is_publish(
    p: CtrlPacket,
    packet_id: Option<i16>,
    topic: Seq<char>,
    payload: Seq<u8>,
    qos: u8,
) -> bool {
    match p {
        CtrlPacket::PUBLISH { packet_id: id, topic: t, payload: b, duplicate_delivery, qos: q, retain } => {
            &&& id == packet_id
            &&& t@ == topic
            &&& b@ == payload
            &&& !duplicate_delivery
            &&& q == qos
            &&& !retain
        },
        _ => false,
    }
}

/// `p` is a SUBSCRIBE with the given identifier, topic filter and QoS.
pub open spec fn is_subscribe(p: CtrlPacket, packet_id: i16, topic: Seq<char>, qos: u8) -> bool {
    match p {
        CtrlPacket::SUBSCRIBE { packet_id: id, topic: t, qos: q } => id == packet_id && t@ == topic
            && q == qos,
        _ => false,
    }
}

/// `p` is an UNSUBSCRIBE with the given identifier and topic filter.
pub open spec fn is_unsubscribe(p: CtrlPacket, packet_id: i16, topic: Seq<char>) -> bool {
    match p {
        CtrlPacket::UNSUBSCRIBE { packet_id: id, topic: t } => id == packet_id && t@ == topic,
        _ => false,
    }
}

impl CtrlPacket {
    /// Parses a control packet from its textual form. No textual form is
    /// recognised: the result is always `None`.
    pub fn parse(ctrl_packet_as_string: &str) -> (result: Option<CtrlPacket>)
        ensures
            result is None,
    {
        None
    }

    /// A SUBSCRIBE for the topic filter `topic` at QoS `qos`.
    pub fn new_subscribe(topic: &str, qos: u8, packet_id: i16) -> (result: CtrlPacket)
        ensures
            is_subscribe(result, packet_id, topic@, qos),
    {
        CtrlPacket::SUBSCRIBE { packet_id: packet_id, topic: topic.to_owned(), qos: qos }
    }

    /// An UNSUBSCRIBE for the topic filter `topic`.
    pub fn new_unsubscribe(topic: &str, packet_id: i16) -> (result: CtrlPacket)
        ensures
            is_unsubscribe(result, packet_id, topic@),
    {
        CtrlPacket::UNSUBSCRIBE { packet_id: packet_id, topic: topic.to_owned() }
    }

    /// A QoS 1 or 2 PUBLISH of `payload` to `topic` with identifier `packet_id`.
    pub fn new_publish(topic: &str, payload: Vec<u8>, packet_id: i16, qos: u8) -> (result: CtrlPacket)
        ensures
            is_publish(result, Some(packet_id), topic@, payload@, qos),
    {
        CtrlPacket::PUBLISH {
            packet_id: Some(packet_id),
            topic: topic.to_owned(),
            payload: payload,
            duplicate_delivery: false,
            qos: qos,
            retain: false,
        }
    }

    /// A QoS 0 PUBLISH of `payload` to `topic`, without identifier.
    pub fn new_publish_qos0(topic: &str, payload: Vec<u8>) -> (result: CtrlPacket)
        ensures
            is_publish(result, None, topic@, payload@, 0),
    {
        CtrlPacket::PUBLISH {
            packet_id: None,
            topic: topic.to_owned(),
            payload: payload,
            duplicate_delivery: false,
            qos: 0,
            retain: false,
        }
    }

    /// The bytes of this packet on the wire. Only CONNECT has an encoding.
    pub fn as_bytes(&self) -> (result: Vec<u8>)
        requires
            *self is CONNECT,
        ensures
            result@ == packet_bytes(*self),
    {
        match self {
            CtrlPacket::CONNECT { .. } => self.connect_as_bytes(),
            _ => {
                proof {
                    assert(false);
                }
                Vec::new()
            },
        }
    }

    /// Appends the text field of `s` to `out`.
    fn push_text(out: &mut Vec<u8>, s: &String)
        ensures
            final(out)@ == old(out)@ + text_field(s@),
    {
        let mut field = CtrlPacket::encode_string(s.as_str());
        out.append(&mut field);
    }

    /// Appends the text field of `s` to `out` where `s` is given.
    fn push_optional_text(out: &mut Vec<u8>, s: &Option<String>)
        ensures
            final(out)@ == old(out)@ + optional_text_field(opt_chars(*s)),
    {
        match s {
            Some(text) => CtrlPacket::push_text(out, text),
            None => {
                assert(old(out)@ + Seq::<u8>::empty() == old(out)@);
            },
        }
    }

    /// The variable header of a CONNECT: protocol name, protocol level,
    /// connect flags and keep-alive.
    fn connect_variable_header(
        user: bool,
        password: bool,
        will: bool,
        will_qos: u8,
        will_retain: bool,
        clean_session: bool,
        keep_alive: i16,
    ) -> (result: Vec<u8>)
        ensures
            result@ == seq![
                0x00u8,
                0x04,
                0x4d,
                0x51,
                0x54,
                0x54,
                0x04,
                connect_flags(user, password, will, will_qos, will_retain, clean_session),
            ] + keep_alive_bytes(keep_alive),
    {
        let mut header: Vec<u8> = Vec::new();

        // Protocol Name "MQTT" as a length-prefixed string
        header.push(0x00);
        header.push(0x04);
        header.push(0x4d);
        header.push(0x51);
        header.push(0x54);
        header.push(0x54);

        // Protocol Level (MQTT 3.1.1 = 4)
        header.push(0x04);

        // Connect Flags
        let mut flags: u8 = 0;
        // User Name Flag
        if user {
            flags = flags + 0x80;
        }
        // Password Flag
        if password {
            flags = flags + 0x40;
        }
        if will {
            // Will Retain
            if will_retain {
                flags = flags + 0x20;
            }
            // Will QoS
            flags = flags + (will_qos % 4) * 8;
            // Will Flag
            flags = flags + 0x04;
        }
        // Clean Session
        if clean_session {
            flags = flags + 0x02;
        }
        header.push(flags);

        // Keep Alive, most significant byte first
        let ka: u16 = keep_alive as u16;
        header.push((ka / 256) as u8);
        header.push((ka % 256) as u8);
        header
    }

    fn connect_as_bytes(&self) -> (result: Vec<u8>)
        requires
            *self is CONNECT,
        ensures
            result@ == packet_bytes(*self),
    {
        match self {
            CtrlPacket::CONNECT {
                client_id,
                topic,
                content,
                qos,
                retain,
                username,
                password,
                clean_session,
                keep_alive,
            } => {
                let will: bool = topic.is_some() && content.is_some();
                let will_qos: u8 = match qos {
                    Some(q) => *q,
                    None => 0,
                };
                let will_retain: bool = match retain {
                    Some(r) => *r,
                    None => false,
                };
                let mut body = CtrlPacket::connect_variable_header(
                    username.is_some(),
                    password.is_some(),
                    will,
                    will_qos,
                    will_retain,
                    *clean_session,
                    *keep_alive,
                );
                let ghost header = body@;

                // Client Identifier
                CtrlPacket::push_text(&mut body, client_id);
                let ghost with_client = body@;

                // Will Topic and Will Message
                if will {
                    CtrlPacket::push_optional_text(&mut body, topic);
                    CtrlPacket::push_optional_text(&mut body, content);
                }
                let ghost will_part = if will {
                    optional_text_field(opt_chars(*topic)) + optional_text_field(opt_chars(*content))
                } else {
                    Seq::<u8>::empty()
                };
                assert(body@ == with_client + will_part);

                // User Name
                CtrlPacket::push_optional_text(&mut body, username);

                // Password
                CtrlPacket::push_optional_text(&mut body, password);

                assert(body@ == header + text_field(client_id@) + will_part + optional_text_field(
                    opt_chars(*username),
                ) + optional_text_field(opt_chars(*password)));
                assert(body@ == connect_body_of(*self));

                let mut result: Vec<u8> = Vec::new();
                // packet type 1, reserved flags 0
                result.push(0x10);
                // remaining length
                let mut length = CtrlPacket::encode_remaining_length(body.len());
                result.append(&mut length);
                result.append(&mut body);
                result
            },
            _ => {
                proof {
                    assert(false);
                }
                Vec::new()
            },
        }
    }

    /// Encodes a string as its length prefix followed by its UTF-8 bytes.
    pub fn encode_string(string_to_encode: &str) -> (result: Vec<u8>)
        ensures
            result@ == string_field(string_to_encode.spec_bytes()),
    {
        let string_length: usize = string_to_encode.len();
        let string_as_bytes = string_to_encode.as_bytes();
        assert(string_as_bytes@.len() == string_as_bytes.len());
        let mut result: Vec<u8> = Vec::new();

        let tmp: u16 = string_length as u16;

        // encode the length of the string
        result.push((tmp / 256) as u8);
        result.push((tmp % 256) as u8);

        // write the string to the result-array
        let ghost prefix = result@;
        assert(prefix == string_length_prefix(string_as_bytes@.len()));
        for i in 0..string_length
            invariant
                string_length == string_as_bytes@.len(),
                result@ == prefix + string_as_bytes@.take(i as int),
        {
            result.push(string_as_bytes[i]);
            assert(string_as_bytes@.take(i + 1) == string_as_bytes@.take(i as int).push(
                string_as_bytes@[i as int],
            ));
        }
        assert(string_as_bytes@.take(string_length as int) == string_as_bytes@);
        result
    }

    /// Encodes `input_length` in the MQTT "remaining length" format.
    pub fn encode_remaining_length(input_length: usize) -> (result: Vec<u8>)
        ensures
            result@ == remaining_length_bytes(input_length as nat),
    {
        let mut result: Vec<u8> = Vec::new();
        let mut length: usize = input_length;

        loop
            invariant_except_break
                result@ + remaining_length_bytes(length as nat) == remaining_length_bytes(
                    input_length as nat,
                ),
            ensures
                result@ == remaining_length_bytes(input_length as nat),
            decreases length,
        {
            let ghost before = length as nat;
            let mut tmp: u8 = (length % 0x80) as u8;
            length = length / 0x80;
            if length > 0 {
                assert(tmp < 128 ==> tmp | 0x80 == tmp + 128) by (bit_vector);
                tmp = tmp | 0x80;
            }
            let ghost prev = result@;
            result.push(tmp);
            proof {
                if before < 128 {
                    assert(remaining_length_bytes(before) == seq![tmp]);
                } else {
                    assert(remaining_length_bytes(before) == seq![tmp] + remaining_length_bytes(
                        length as nat,
                    ));
                    assert(result@ + remaining_length_bytes(length as nat) == prev
                        + remaining_length_bytes(before));
                }
            }
            if length == 0 {
                break;
            }
        }
        result
    }
}

/// The remaining-length encoding of `n` is never empty, has the continuation
/// bit set on every byte but the last, and reads back as `n`.
pub proof fn lemma_remaining_length_round_trip(n: nat)
    ensures
        remaining_length_bytes(n).len() >= 1,
        forall|i: int|
            0 <= i < remaining_length_bytes(n).len() - 1 ==> remaining_length_bytes(n)[i] >= 128,
        remaining_length_bytes(n).last() < 128,
        remaining_length_value(remaining_length_bytes(n)) == n,
    decreases n,
{
    if n >= 128 {
        lemma_remaining_length_round_trip(n / 128);
        let b = ((n % 128) + 128) as u8;
        assert(b == (n % 128) + 128);
        assert(b % 128 == n % 128);
        let head = seq![b];
        let tail = remaining_length_bytes(n / 128);
        assert((head + tail).drop_first() == tail);
        assert(remaining_length_value(head + tail) == (n % 128) + 128 * remaining_length_value(
            tail,
        ));
        assert(n == (n % 128) + 128 * (n / 128));
        assert forall|i: int| 0 <= i < (head + tail).len() - 1 implies (head + tail)[i] >= 128 by {
            if i > 0 {
                assert((head + tail)[i] == tail[i - 1]);
            }
        }
    } else {
        let single = seq![n as u8];
        assert(single.drop_first() == Seq::<u8>::empty());
        assert(remaining_length_value(Seq::<u8>::empty()) == 0);
        assert(single[0] == n);
        assert(remaining_length_value(single) == (single[0] % 128) as nat + 128
            * remaining_length_value(single.drop_first()));
    }
}

/// The encoding of a remaining length takes at most four bytes for every
/// value that MQTT allows (up to 268,435,455).
pub proof fn lemma_remaining_length_size(n: nat)
    requires
        n <= 268_435_455,
    ensures
        remaining_length_bytes(n).len() <= 4,
{
    let n1 = n / 128;
    let n2 = n1 / 128;
    let n3 = n2 / 128;
    assert(n3 < 128);
    assert(remaining_length_bytes(n3).len() == 1);
    assert(remaining_length_bytes(n2).len() <= 2);
    assert(remaining_length_bytes(n1).len() <= 3);
}

/// The connect flags carry the user name bit exactly when a user name is
/// given, and the password bit exactly when a password is given: without
/// credentials the client connects without authentication.
pub proof fn lemma_connect_flags_credentials(
    user: bool,
    password: bool,
    will: bool,
    will_qos: u8,
    will_retain: bool,
    clean_session: bool,
)
    ensures
        ({
            let f = connect_flags(user, password, will, will_qos, will_retain, clean_session);
            &&& (f / 128 == 1) == user
            &&& ((f / 64) % 2 == 1) == password
            &&& ((f / 4) % 2 == 1) == will
            &&& ((f / 2) % 2 == 1) == clean_session
            &&& f % 2 == 0
        }),
{
    let q = (will_qos % 4) as int;
    assert(0 <= q < 4);
}

/// A CONNECT is packet type 1, then the remaining-length encoding of the
/// number of bytes of its body, which reads back as that number, then the body.
pub proof fn lemma_connect_packet_remaining_length(p: CtrlPacket)
    requires
        p is CONNECT,
    ensures
        packet_bytes(p) == seq![0x10u8] + remaining_length_bytes(connect_body_of(p).len())
            + connect_body_of(p),
        remaining_length_value(remaining_length_bytes(connect_body_of(p).len()))
            == connect_body_of(p).len(),
{
    lemma_remaining_length_round_trip(connect_body_of(p).len());
}

/// The layout of a CONNECT with a will message and both credentials: packet
/// type 1, the remaining length, the protocol name "MQTT", level 4, the flags
/// (user name, password, will retain as given, will QoS, will, clean session as
/// given), the keep-alive most significant byte first, then the client
/// identifier, the will topic, the will message, the user name and the
/// password, in that order.
pub proof fn lemma_connect_layout_with_will_and_credentials(
    client_id: String,
    will_topic: String,
    will_content: String,
    will_qos: u8,
    will_retain: bool,
    username: String,
    password: String,
    clean_session: bool,
    keep_alive: i16,
)
    ensures
        ({
            let p = CtrlPacket::CONNECT {
                client_id,
                topic: Some(will_topic),
                content: Some(will_content),
                qos: Some(will_qos),
                retain: Some(will_retain),
                username: Some(username),
                password: Some(password),
                clean_session,
                keep_alive,
            };
            let flags = (0x80int + 0x40 + (if will_retain { 0x20int } else { 0 }) + (will_qos % 4)
                * 8 + 4 + (if clean_session { 2int } else { 0 })) as u8;
            let k = keep_alive as u16;
            let payload = text_field(client_id@) + text_field(will_topic@) + text_field(
                will_content@,
            ) + text_field(username@) + text_field(password@);
            let body = seq![0x00u8, 0x04, 0x4d, 0x51, 0x54, 0x54, 0x04, flags, (k / 256) as u8, (k
                % 256) as u8] + payload;
            &&& body.len() == 10 + 2 + encode_utf8(client_id@).len() + 2 + encode_utf8(
                will_topic@,
            ).len() + 2 + encode_utf8(will_content@).len() + 2 + encode_utf8(username@).len() + 2
                + encode_utf8(password@).len()
            &&& packet_bytes(p) == seq![0x10u8] + remaining_length_bytes(body.len()) + body
        }),
{
    let p = CtrlPacket::CONNECT {
        client_id,
        topic: Some(will_topic),
        content: Some(will_content),
        qos: Some(will_qos),
        retain: Some(will_retain),
        username: Some(username),
        password: Some(password),
        clean_session,
        keep_alive,
    };
    let flags = (0x80int + 0x40 + (if will_retain { 0x20int } else { 0 }) + (will_qos % 4) * 8 + 4
        + (if clean_session { 2int } else { 0 })) as u8;
    let k = keep_alive as u16;
    let head = seq![0x00u8, 0x04, 0x4d, 0x51, 0x54, 0x54, 0x04, flags];
    assert(connect_flags(true, true, true, will_qos, will_retain, clean_session) == flags);
    let payload = text_field(client_id@) + text_field(will_topic@) + text_field(will_content@)
        + text_field(username@) + text_field(password@);
    let body = seq![0x00u8, 0x04, 0x4d, 0x51, 0x54, 0x54, 0x04, flags, (k / 256) as u8, (k % 256)
        as u8] + payload;
    assert(connect_body_of(p) =~= body);
}

/// The layout of a CONNECT without a will message: the flags carry only the
/// user name, password and clean-session bits, and the client identifier is
/// followed directly by the user name and then the password, each where given.
pub proof fn lemma_connect_layout_without_will(p: CtrlPacket)
    requires
        p matches CtrlPacket::CONNECT { topic, content, .. } && (topic is None || content is None),
    ensures
        p matches CtrlPacket::CONNECT {
            client_id,
            username,
            password,
            clean_session,
            keep_alive,
            ..
        } && {
            let flags = ((if username is Some { 0x80int } else { 0 }) + (if password is Some {
                0x40int
            } else {
                0
            }) + (if clean_session { 2int } else { 0 })) as u8;
            let k = keep_alive as u16;
            let user_field = match username {
                Some(u) => text_field(u@),
                None => Seq::<u8>::empty(),
            };
            let password_field = match password {
                Some(pw) => text_field(pw@),
                None => Seq::<u8>::empty(),
            };
            let body = seq![0x00u8, 0x04, 0x4d, 0x51, 0x54, 0x54, 0x04, flags, (k / 256) as u8, (k
                % 256) as u8] + text_field(client_id@) + user_field + password_field;
            packet_bytes(p) == seq![0x10u8] + remaining_length_bytes(body.len()) + body
        },
{
    match p {
        CtrlPacket::CONNECT {
            client_id,
            topic,
            content,
            qos,
            retain,
            username,
            password,
            clean_session,
            keep_alive,
        } => {
            let flags = ((if username is Some { 0x80int } else { 0 }) + (if password is Some {
                0x40int
            } else {
                0
            }) + (if clean_session { 2int } else { 0 })) as u8;
            let k = keep_alive as u16;
            let user_field = match username {
                Some(u) => text_field(u@),
                None => Seq::<u8>::empty(),
            };
            let password_field = match password {
                Some(pw) => text_field(pw@),
                None => Seq::<u8>::empty(),
            };
            let body = seq![0x00u8, 0x04, 0x4d, 0x51, 0x54, 0x54, 0x04, flags, (k / 256) as u8, (k
                % 256) as u8] + text_field(client_id@) + user_field + password_field;
            assert(connect_body_of(p) =~= body);
        },
        _ => {},
    }
}

} // verus!
