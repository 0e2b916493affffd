use sleepproxy::packets::{
    build_status_handshake, legacy_status, login_disconnect, login_name_bytes,
    login_plugin_request, parse_handshake, parse_login_username, parse_status_response,
    split_address, status_payload_bytes, status_request, status_response, StatusError,
};
use sleepproxy::varint::{
    check_packet_len, encode_varint, frame, take_varint, PacketError, PacketReader, PacketStep,
    VarintReader, VarintStep,
};

fn handshake(protocol: i32, host: &[u8], port: u16, next_state: u8) -> Vec<u8> {
    let mut body = vec![0u8];
    body.extend(encode_varint(protocol as u32));
    body.extend(frame(host));
    body.extend(port.to_be_bytes());
    body.push(next_state);
    body
}

#[test]
fn varints_have_their_known_bytes() {
    let known: Vec<(u32, Vec<u8>)> = vec![
        (0, vec![0x00]),
        (1, vec![0x01]),
        (127, vec![0x7f]),
        (128, vec![0x80, 0x01]),
        (255, vec![0xff, 0x01]),
        (25565, vec![0xdd, 0xc7, 0x01]),
        (2097151, vec![0xff, 0xff, 0x7f]),
        (2147483647, vec![0xff, 0xff, 0xff, 0xff, 0x07]),
        (0x8000_0000, vec![0x80, 0x80, 0x80, 0x80, 0x08]),
        (u32::MAX, vec![0xff, 0xff, 0xff, 0xff, 0x0f]),
    ];
    for (value, bytes) in known {
        assert_eq!(encode_varint(value), bytes);
        let mut followed = bytes.clone();
        followed.push(0xAA);
        let (read, rest) = take_varint(&followed).unwrap();
        assert_eq!(read, value as i32);
        assert_eq!(rest, &[0xAA][..]);
    }
}

#[test]
fn varints_that_are_cut_short_or_too_long_are_refused() {
    assert_eq!(take_varint(&[]), None);
    assert_eq!(take_varint(&[0x80]), None);
    assert_eq!(take_varint(&[0xff, 0xff, 0xff, 0xff]), None);
    assert_eq!(take_varint(&[0x80, 0x80, 0x80, 0x80, 0x80, 0x01]), None);
    assert_eq!(take_varint(&[0x80, 0x80, 0x80, 0x80, 0x80]), None);
}

#[test]
fn bits_above_the_32nd_fall_away() {
    let (value, rest) = take_varint(&[0xff, 0xff, 0xff, 0xff, 0x7f]).unwrap();
    assert_eq!(value, -1);
    assert!(rest.is_empty());
    let (value, _) = take_varint(&[0x80, 0x80, 0x80, 0x80, 0x10]).unwrap();
    assert_eq!(value, 0);
}

#[test]
fn an_overlong_varint_is_read_all_the_same() {
    assert_eq!(take_varint(&[0x80, 0x00, 0x07]), Some((0, &[0x07][..])));
}

#[test]
fn varint_reader_takes_one_byte_at_a_time() {
    let mut reader = VarintReader::new();
    assert_eq!(reader.push(0xdd), VarintStep::More);
    assert_eq!(reader.push(0xc7), VarintStep::More);
    assert_eq!(reader.push(0x01), VarintStep::Done(25565));
    let mut endless = VarintReader::new();
    for _ in 0..4 {
        assert_eq!(endless.push(0xff), VarintStep::More);
    }
    assert_eq!(endless.push(0x80), VarintStep::TooBig);
}

#[test]
fn frame_puts_the_length_in_front() {
    assert_eq!(frame(&[]), vec![0x00]);
    assert_eq!(frame(&[7, 8]), vec![0x02, 7, 8]);
    let long = vec![9u8; 300];
    let framed = frame(&long);
    assert_eq!(&framed[..2], &[0xac, 0x02][..]);
    assert_eq!(take_varint(&framed), Some((300, &long[..])));
}

#[test]
fn packet_reader_asks_for_exactly_the_body() {
    let packet = frame(&vec![1u8; 300]);
    let mut reader = PacketReader::new(65536);
    assert_eq!(reader.push(packet[0]), PacketStep::Byte);
    assert_eq!(reader.push(packet[1]), PacketStep::Body(300));
    let mut empty = PacketReader::new(65536);
    assert_eq!(empty.push(0), PacketStep::Body(0));
}

#[test]
fn packet_reader_bounds_the_body() {
    assert_eq!(check_packet_len(10, 10), PacketStep::Body(10));
    assert_eq!(check_packet_len(11, 10), PacketStep::Refused(PacketError::BadLength));
    assert_eq!(check_packet_len(-1, 10), PacketStep::Refused(PacketError::BadLength));
    let mut reader = PacketReader::new(65536);
    for byte in [0xff, 0xff, 0xff, 0xff] {
        assert_eq!(reader.push(byte), PacketStep::Byte);
    }
    assert_eq!(reader.push(0x0f), PacketStep::Refused(PacketError::BadLength));
    let mut endless = PacketReader::new(65536);
    for _ in 0..4 {
        assert_eq!(endless.push(0x80), PacketStep::Byte);
    }
    assert_eq!(endless.push(0x80), PacketStep::Refused(PacketError::VarintTooBig));
}

#[test]
fn handshakes_are_parsed() {
    assert_eq!(parse_handshake(&handshake(767, b"localhost", 25565, 2)), Some((767, 2)));
    assert_eq!(parse_handshake(&handshake(-1, b"", 0, 1)), Some((-1, 1)));
    assert_eq!(parse_handshake(&handshake(47, &[b'a'; 255], 1, 3)), Some((47, 3)));
    let mut followed = handshake(47, b"a", 1, 1);
    followed.push(0xff);
    assert_eq!(parse_handshake(&followed), Some((47, 1)));
}

#[test]
fn malformed_handshakes_are_refused() {
    let good = handshake(767, b"localhost", 25565, 2);
    for len in 0..good.len() {
        assert_eq!(parse_handshake(&good[..len]), None);
    }
    let mut other_id = good.clone();
    other_id[0] = 1;
    assert_eq!(parse_handshake(&other_id), None);
    assert_eq!(parse_handshake(&handshake(767, &[b'a'; 256], 1, 2)), None);
    let mut negative = vec![0u8, 47];
    negative.extend(encode_varint(-5i32 as u32));
    negative.extend([0u8; 20]);
    assert_eq!(parse_handshake(&negative), None);
}

#[test]
fn status_handshake_is_what_a_client_sends() {
    let body = build_status_handshake("mc.internal:25566", 765);
    let mut expected = vec![0x00, 0xfd, 0x05, 11];
    expected.extend(b"mc.internal");
    expected.extend([0x63, 0xde, 0x01]);
    assert_eq!(body, expected);
    assert_eq!(parse_handshake(&body), Some((765, 1)));
}

#[test]
fn status_handshake_keeps_a_negative_protocol() {
    let body = build_status_handshake("h", -1);
    assert_eq!(body, vec![0, 0xff, 0xff, 0xff, 0xff, 0x0f, 1, b'h', 0x63, 0xdd, 1]);
    assert_eq!(parse_handshake(&body), Some((-1, 1)));
}

#[test]
fn addresses_split_at_the_last_colon() {
    let cases = vec![
        ("host:1234", "host", 1234u16),
        ("host", "host", 25565),
        ("host:", "host", 25565),
        ("host:abc", "host", 25565),
        ("host:65535", "host", 65535),
        ("host:65536", "host", 25565),
        ("host:+80", "host", 80),
        ("host:-80", "host", 25565),
        ("[::1]:25570", "[::1]", 25570),
        (":", "", 25565),
        ("", "", 25565),
    ];
    for (address, host, port) in cases {
        assert_eq!(split_address(address), (host.to_string(), port));
    }
}

#[test]
fn usernames_are_found_in_any_login_start() {
    let mut login = vec![0u8];
    login.extend(frame(b"Steve"));
    assert_eq!(parse_login_username(&login), Some("Steve".to_string()));
    login.extend([1u8; 16]);
    assert_eq!(parse_login_username(&login), Some("Steve".to_string()));
    assert_eq!(login_name_bytes(&login), Some(&b"Steve"[..]));
    let mut accented = vec![0u8];
    accented.extend(frame("Zo\u{eb}".as_bytes()));
    assert_eq!(parse_login_username(&accented), Some("Zo\u{eb}".to_string()));
}

#[test]
fn invalid_utf8_in_a_username_is_replaced() {
    assert_eq!(parse_login_username(&[0, 3, b'a', 0xff, b'b']), Some("a\u{fffd}b".to_string()));
}

#[test]
fn what_is_no_username_is_refused() {
    let mut longest = vec![0u8];
    longest.extend(frame(&[b'x'; 48]));
    assert_eq!(parse_login_username(&longest), Some("x".repeat(48)));
    let mut longer = vec![0u8];
    longer.extend(frame(&[b'x'; 49]));
    assert_eq!(parse_login_username(&longer), None);
    assert_eq!(parse_login_username(&[0, 0]), None);
    assert_eq!(parse_login_username(&[1, 1, b'a']), None);
    assert_eq!(parse_login_username(&[0, 2, b'a']), None);
    assert_eq!(parse_login_username(&[0]), None);
    assert_eq!(parse_login_username(&[]), None);
    assert_eq!(parse_login_username(&[0, 0xff, 0xff, 0xff, 0xff, 0x0f, b'a']), None);
}

#[test]
fn packets_have_their_known_bytes() {
    assert_eq!(status_request(), vec![1, 0]);
    assert_eq!(status_response("{}"), vec![4, 0, 2, b'{', b'}']);
    assert_eq!(login_disconnect("\"no\""), vec![6, 0, 4, b'"', b'n', b'o', b'"']);
    let mut nudge = vec![18, 4, 1, 15];
    nudge.extend(b"sleepproxy:hold");
    assert_eq!(login_plugin_request(1), nudge);
    let late = login_plugin_request(300);
    assert_eq!(&late[..5], &[19, 4, 0xac, 0x02, 15][..]);
}

#[test]
fn a_status_survives_the_wire() {
    let json = "{\"description\":\"Gr\u{fc}\u{df}e \u{1F600}\"}";
    let packet = status_response(json);
    let (len, body) = take_varint(&packet).unwrap();
    assert_eq!(len as usize, body.len());
    assert_eq!(parse_status_response(body), Ok(json.to_string()));
}

#[test]
fn bad_statuses_are_told_apart() {
    assert_eq!(parse_status_response(&[]), Err(StatusError::BadResponse));
    assert_eq!(parse_status_response(&[1, 0]), Err(StatusError::UnexpectedPacket));
    assert_eq!(parse_status_response(&[0]), Err(StatusError::BadString));
    assert_eq!(parse_status_response(&[0, 3, b'a']), Err(StatusError::Truncated));
    assert_eq!(
        parse_status_response(&[0, 0xff, 0xff, 0xff, 0xff, 0x0f]),
        Err(StatusError::Truncated)
    );
    assert_eq!(parse_status_response(&[0, 0]), Ok(String::new()));
    assert_eq!(status_payload_bytes(&[0, 1, b'a', b'b']), Ok(&b"a"[..]));
    assert_eq!(parse_status_response(&[0, 1, 0xfe]), Ok("\u{fffd}".to_string()));
}

#[test]
fn legacy_answers_are_null_separated_utf16() {
    let packet = legacy_status("Hi", 3, 20);
    let text = "\u{a7}1\0127\0\0Hi\03\020";
    let mut expected = vec![0xff, 0x00, 15];
    for unit in text.encode_utf16() {
        expected.extend(unit.to_be_bytes());
    }
    assert_eq!(packet, expected);
}

#[test]
fn legacy_answers_count_code_units() {
    let packet = legacy_status("\u{1F600}", 0, 0);
    assert_eq!(&packet[..3], &[0xff, 0x00, 14][..]);
    assert_eq!(&packet[3 + 16..3 + 20], &[0xd8, 0x3d, 0xde, 0x00][..]);
}

#[test]
fn legacy_separators_stand_between_the_fields_only() {
    let packet = legacy_status("A MOTD", 12, 345);
    let units: Vec<u16> =
        packet[3..].chunks(2).map(|pair| u16::from_be_bytes([pair[0], pair[1]])).collect();
    let nulls: Vec<usize> = (0..units.len()).filter(|i| units[*i] == 0).collect();
    assert_eq!(nulls, vec![2, 6, 7, 14, 17]);
}
