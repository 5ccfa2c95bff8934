use rmqtt::mqtt::CtrlPacket;

#[test]
fn test_encode_string() {
    let result: Vec<u8> = CtrlPacket::encode_string("TEST");
    assert_eq!(0x00, result[0]);
    assert_eq!(0x04, result[1]);
    assert_eq!(0x54, result[2]);
    assert_eq!(0x45, result[3]);
    assert_eq!(0x53, result[4]);
    assert_eq!(0x54, result[5]);
}

#[test]
fn test_encode_remaining_length1() {
    let result: Vec<u8> = CtrlPacket::encode_remaining_length(20);
    assert_eq!(1, result.len());
    assert_eq!(0x14, result[0]);
}

#[test]
fn test_encode_remaining_length2() {
    let result: Vec<u8> = CtrlPacket::encode_remaining_length(1307);
    assert_eq!(2, result.len());
    assert_eq!(0x9b, result[0]);
    assert_eq!(0x0a, result[1]);
}

#[test]
fn test_encode_remaining_length3() {
    let result: Vec<u8> = CtrlPacket::encode_remaining_length(16387);
    assert_eq!(3, result.len());
    assert_eq!(0x83, result[0]);
    assert_eq!(0x80, result[1]);
    assert_eq!(0x01, result[2]);
}

#[test]
fn encode_string_empty() {
    assert_eq!(CtrlPacket::encode_string(""), vec![0x00, 0x00]);
}

#[test]
fn encode_string_length_prefix_is_big_endian() {
    let result = CtrlPacket::encode_string("abcdefghijklmnopqrst");
    assert_eq!(result.len(), 22);
    assert_eq!(result[0], 0);
    assert_eq!(result[1], 20);
    assert_eq!(&result[2..], "abcdefghijklmnopqrst".as_bytes());

    let long = "x".repeat(300);
    let result = CtrlPacket::encode_string(&long);
    assert_eq!(result.len(), 302);
    assert_eq!(result[0], 0x01);
    assert_eq!(result[1], 0x2c);
}

#[test]
fn encode_string_multibyte_utf8() {
    // "é" is two bytes in UTF-8
    let result = CtrlPacket::encode_string("é");
    assert_eq!(result, vec![0x00, 0x02, 0xc3, 0xa9]);
}

#[test]
fn encode_remaining_length_boundaries() {
    assert_eq!(CtrlPacket::encode_remaining_length(0), vec![0x00]);
    assert_eq!(CtrlPacket::encode_remaining_length(127), vec![0x7f]);
    assert_eq!(CtrlPacket::encode_remaining_length(128), vec![0x80, 0x01]);
    assert_eq!(CtrlPacket::encode_remaining_length(16383), vec![0xff, 0x7f]);
    assert_eq!(CtrlPacket::encode_remaining_length(16384), vec![0x80, 0x80, 0x01]);
    assert_eq!(CtrlPacket::encode_remaining_length(2_097_151), vec![0xff, 0xff, 0x7f]);
    assert_eq!(
        CtrlPacket::encode_remaining_length(268_435_455),
        vec![0xff, 0xff, 0xff, 0x7f]
    );
}

fn decode_remaining_length(bytes: &[u8]) -> usize {
    let mut value = 0usize;
    let mut multiplier = 1usize;
    for b in bytes {
        value += ((*b & 0x7f) as usize) * multiplier;
        multiplier *= 128;
    }
    value
}

#[test]
fn encode_remaining_length_reads_back() {
    for n in [0usize, 1, 20, 127, 128, 1307, 16387, 32767, 40000, 1_000_000, 268_435_455] {
        let bytes = CtrlPacket::encode_remaining_length(n);
        assert_eq!(decode_remaining_length(&bytes), n);
        for b in &bytes[..bytes.len() - 1] {
            assert!(*b >= 0x80);
        }
        assert!(*bytes.last().unwrap() < 0x80);
    }
}

#[test]
fn parse_recognises_nothing() {
    assert!(CtrlPacket::parse("CONNECT").is_none());
    assert!(CtrlPacket::parse("").is_none());
}

fn connect(
    client_id: &str,
    will: Option<(&str, &str, u8, bool)>,
    credentials: Option<(&str, &str)>,
    clean_session: bool,
    keep_alive: i16,
) -> CtrlPacket {
    CtrlPacket::CONNECT {
        client_id: client_id.to_string(),
        topic: will.map(|w| w.0.to_string()),
        content: will.map(|w| w.1.to_string()),
        qos: will.map(|w| w.2),
        retain: will.map(|w| w.3),
        username: credentials.map(|c| c.0.to_string()),
        password: credentials.map(|c| c.1.to_string()),
        clean_session,
        keep_alive,
    }
}

#[test]
fn connect_packet_bytes() {
    let bytes = connect(
        "testClientId",
        None,
        Some(("system", "manager")),
        true,
        10,
    )
    .as_bytes();
    let mut expected: Vec<u8> = vec![
        0x10, 0x29, 0x00, 0x04, b'M', b'Q', b'T', b'T', 0x04, 0xc2, 0x00, 0x0a,
    ];
    expected.extend_from_slice(&[0x00, 0x0c]);
    expected.extend_from_slice(b"testClientId");
    expected.extend_from_slice(&[0x00, 0x06]);
    expected.extend_from_slice(b"system");
    expected.extend_from_slice(&[0x00, 0x07]);
    expected.extend_from_slice(b"manager");
    assert_eq!(bytes, expected);
    assert_eq!(bytes.len(), 43);
    assert_eq!(CtrlPacket::encode_remaining_length(bytes.len() - 2), vec![bytes[1]]);
}

#[test]
fn connect_without_credentials_or_will() {
    let bytes = connect("abc", None, None, false, 0).as_bytes();
    assert_eq!(
        bytes,
        vec![0x10, 0x0f, 0x00, 0x04, b'M', b'Q', b'T', b'T', 0x04, 0x00, 0x00, 0x00, 0x00, 0x03, b'a', b'b', b'c']
    );
}

#[test]
fn connect_with_will_message() {
    let bytes = connect("c", Some(("w", "bye", 2, true)), None, false, 300).as_bytes();
    let mut expected: Vec<u8> = vec![0x10, 0x15, 0x00, 0x04, b'M', b'Q', b'T', b'T', 0x04];
    // will retain 0x20, will QoS 2 (0x10), will flag 0x04
    expected.push(0x34);
    // keep-alive 300 = 0x012c
    expected.extend_from_slice(&[0x01, 0x2c]);
    expected.extend_from_slice(&[0x00, 0x01, b'c']);
    expected.extend_from_slice(&[0x00, 0x01, b'w']);
    expected.extend_from_slice(&[0x00, 0x03, b'b', b'y', b'e']);
    assert_eq!(bytes, expected);
}

#[test]
fn connect_with_long_body_uses_two_length_bytes() {
    let client_id = "x".repeat(200);
    let bytes = connect(&client_id, None, None, false, 0).as_bytes();
    // body: 10 header bytes + 2 prefix bytes + 200 = 212 = 0x54 + 1 * 128
    assert_eq!(&bytes[..3], &[0x10, 0xd4, 0x01]);
    // the client identifier's length prefix
    assert_eq!(&bytes[13..15], &[0x00, 200]);
    assert_eq!(bytes.len(), 3 + 212);
}
