//! The packets of the handshake, status and login phases.
use crate::text::{encode_utf16, push_decimal};
use crate::varint::{encode_varint, frame, take_varint};
use vstd::prelude::*;

verus! {

/// Channel of the Login Plugin Requests that keep a held client waiting. No mod
/// and no client implements it, so the answer is a plain "unknown channel".
pub const HOLD_CHANNEL: &'static str = "sleepproxy:hold";

/// The port of a server whose address names none.
pub const DEFAULT_PORT: u16 = 25565;

/// Longest username that is believed, in bytes.
pub const MAX_NAME_BYTES: usize = 48;

/// The text that `String::from_utf8_lossy` makes of some bytes.
pub uninterp spec fn utf8_lossy(bytes: Seq<u8>) -> Seq<char>;

/// `String::from_utf8_lossy`, made owned: the text is determined by the bytes,
/// and valid UTF-8 is decoded as it stands. How invalid bytes are replaced is
/// left unsaid.
#[verifier::external_body]
fn decode_lossy(bytes: &[u8]) -> (text: String)
    ensures
        text@ == utf8_lossy(bytes@),
        vstd::utf8::valid_utf8(bytes@) ==> text@ == vstd::utf8::decode_utf8(bytes@),
{
    String::from_utf8_lossy(bytes).into_owned()
}

/// The bytes of a string field (its length, then as many bytes) at the start of
/// `body`, and what follows it.
pub open spec fn string_field(body: Seq<u8>) -> Option<(Seq<u8>, Seq<u8>)> {
    match crate::varint::leading_varint(body) {
        Some((len, rest)) => if 0 <= len <= rest.len() {
            Some((rest.take(len as int), rest.skip(len as int)))
        } else {
            None
        },
        None => None,
    }
}

/// What follows the packet id in `body`, if the id is `id`.
pub open spec fn packet_data(body: Seq<u8>, id: i32) -> Option<Seq<u8>> {
    match crate::varint::leading_varint(body) {
        Some((found, rest)) => if found == id {
            Some(rest)
        } else {
            None
        },
        None => None,
    }
}

/// The protocol version and the next state that a handshake asks for. The
/// server address between them takes at most 255 bytes and a two-byte port
/// follows it.
pub open spec fn handshake_fields(body: Seq<u8>) -> Option<(i32, i32)> {
    match packet_data(body, 0) {
        Some(data) => match crate::varint::leading_varint(data) {
            Some((protocol, rest)) => match string_field(rest) {
                Some((address, rest)) => if address.len() <= 255 && rest.len() >= 2 {
                    match crate::varint::leading_varint(rest.skip(2)) {
                        Some((next_state, _)) => Some((protocol, next_state)),
                        None => None,
                    }
                } else {
                    None
                },
                None => None,
            },
            None => None,
        },
        None => None,
    }
}

/// Parses the handshake body, returning (protocol version, next state).
pub fn parse_handshake(body: &[u8]) -> (fields: Option<(i32, i32)>)
    ensures
        fields == handshake_fields(body@),
{
    let (packet_id, rest) = match take_varint(body) {
        Some(taken) => taken,
        None => return None,
    };
    if packet_id != 0x00 {
        return None;
    }
    let (protocol, rest) = match take_varint(rest) {
        Some(taken) => taken,
        None => return None,
    };
    let (addr_len, rest) = match take_varint(rest) {
        Some(taken) => taken,
        None => return None,
    };
    if addr_len < 0 || addr_len > 255 {
        return None;
    }
    let addr_len: usize = addr_len as usize;
    if rest.len() < addr_len + 2 {
        return None;
    }
    let tail = vstd::slice::slice_subrange(rest, addr_len + 2, rest.len());
    assert(tail@ =~= rest@.skip(addr_len as int).skip(2));
    match take_varint(tail) {
        Some((next_state, _)) => Some((protocol, next_state)),
        None => None,
    }
}

/// The bytes of the username in a Login Start packet. It is the packet's first
/// field across protocol versions, is not empty and takes at most 48 bytes.
pub open spec fn login_name(body: Seq<u8>) -> Option<Seq<u8>> {
    match packet_data(body, 0) {
        Some(data) => match string_field(data) {
            Some((name, _)) => if 0 < name.len() <= MAX_NAME_BYTES {
                Some(name)
            } else {
                None
            },
            None => None,
        },
        None => None,
    }
}

/// Finds the username in a Login Start packet.
pub fn login_name_bytes(login_start: &[u8]) -> (name: Option<&[u8]>)
    ensures
        match name {
            Some(bytes) => login_name(login_start@) == Some(bytes@),
            None => login_name(login_start@) is None,
        },
{
    let (packet_id, rest) = match take_varint(login_start) {
        Some(taken) => taken,
        None => return None,
    };
    if packet_id != 0x00 {
        return None;
    }
    let (len, rest) = match take_varint(rest) {
        Some(taken) => taken,
        None => return None,
    };
    if len <= 0 || len > 48 || rest.len() < len as usize {
        return None;
    }
    Some(vstd::slice::slice_subrange(rest, 0, len as usize))
}

/// Parses the username out of a Login Start packet. Returns `None` if it does
/// not look like one.
pub fn parse_login_username(login_start: &[u8]) -> (name: Option<String>)
    ensures
        match name {
            Some(text) => login_name(login_start@) matches Some(bytes) && text@ == utf8_lossy(bytes)
                && (vstd::utf8::valid_utf8(bytes) ==> text@ == vstd::utf8::decode_utf8(bytes)),
            None => login_name(login_start@) is None,
        },
{
    match login_name_bytes(login_start) {
        Some(bytes) => Some(decode_lossy(bytes)),
        None => None,
    }
}

/// The last colon in `text`.
pub open spec fn last_colon(text: Seq<char>) -> Option<int>
    decreases text.len(),
{
    if text.len() == 0 {
        None
    } else if text.last() == ':' {
        Some(text.len() - 1)
    } else {
        last_colon(text.drop_last())
    }
}

/// The port that `text` spells, or the default one if it spells none.
pub open spec fn port_number(text: Seq<char>) -> u16 {
    match crate::text::unsigned_text(text) {
        Some(n) => if n <= u16::MAX {
            n as u16
        } else {
            DEFAULT_PORT
        },
        None => DEFAULT_PORT,
    }
}

/// The host and the port of an address "host:port". The port is what follows
/// the last colon; without a colon it is the default one.
pub open spec fn address_parts(address: Seq<char>) -> (Seq<char>, u16) {
    match last_colon(address) {
        Some(i) => (address.take(i), port_number(address.skip(i + 1))),
        None => (address, DEFAULT_PORT),
    }
}

/// A number as two bytes, high byte first.
pub open spec fn big_endian_16(n: u16) -> Seq<u8> {
    seq![(n / 256) as u8, (n % 256) as u8]
}

/// The body of a handshake.
pub open spec fn handshake_body(protocol: i32, host: Seq<u8>, port: u16, next_state: u8) -> Seq<u8> {
    seq![0u8] + crate::varint::varint_bytes(crate::varint::unsigned_32(protocol) as nat)
        + crate::varint::framed(host) + big_endian_16(port) + seq![next_state]
}

/// Splits an address "host:port" at its last colon.
pub fn split_address(address: &str) -> (parts: (String, u16))
    ensures
        (parts.0@, parts.1) == address_parts(address@),
{
    let chars: Vec<char> = crate::text::chars_of(address);
    let mut i: usize = chars.len();
    assert(chars@.take(i as int) =~= chars@);
    while i > 0
        invariant
            i <= chars.len(),
            chars@ == address@,
            last_colon(chars@) == last_colon(chars@.take(i as int)),
        decreases i,
    {
        if chars[i - 1] == ':' {
            let host = crate::text::string_of(
                vstd::slice::slice_subrange(chars.as_slice(), 0, i - 1),
            );
            let port = crate::text::string_of(
                vstd::slice::slice_subrange(chars.as_slice(), i, chars.len()),
            );
            assert(host@ =~= address@.take(i - 1));
            assert(port@ =~= address@.skip(i as int));
            let port: u16 = match crate::text::parse_unsigned(port.as_str(), 65535) {
                Some(n) => n as u16,
                None => DEFAULT_PORT,
            };
            return (host, port);
        }
        i -= 1;
        assert(chars@.take(i + 1).drop_last() =~= chars@.take(i as int));
    }
    (address.to_owned(), DEFAULT_PORT)
}

/// Appends `n`, high byte first.
fn push_big_endian_16(out: &mut Vec<u8>, n: u16)
    ensures
        final(out)@ == old(out)@ + big_endian_16(n),
{
    assert(n >> 8 == n / 256) by (bit_vector);
    assert(n & 0xFF == n % 256) by (bit_vector);
    out.push((n >> 8) as u8);
    out.push((n & 0xFF) as u8);
    assert(out@ =~= old(out)@ + big_endian_16(n));
}

/// Builds a status handshake body addressed to `address` ("host:port"), as a
/// client pinging that server would send it.
pub fn build_status_handshake(address: &str, protocol: i32) -> (body: Vec<u8>)
    ensures
        body@ == ({
            let (host, port) = address_parts(address@);
            handshake_body(protocol, vstd::utf8::encode_utf8(host), port, 1)
        }),
{
    let (host, port) = split_address(address);
    proof {
        crate::varint::lemma_unsigned_cast(protocol);
    }
    let mut body: Vec<u8> = Vec::new();
    body.push(0x00);
    let version = encode_varint(protocol as u32);
    body.extend_from_slice(version.as_slice());
    let host = frame(host.as_str().as_bytes());
    body.extend_from_slice(host.as_slice());
    push_big_endian_16(&mut body, port);
    body.push(0x01);
    assert(body@ =~= handshake_body(
        protocol,
        vstd::utf8::encode_utf8(address_parts(address@).0),
        port,
        1,
    ));
    body
}

/// A packet body of an id and one string.
pub open spec fn string_packet(id: u8, text: Seq<u8>) -> Seq<u8> {
    seq![id] + crate::varint::framed(text)
}

/// Frames a packet of an id and one string.
fn frame_string_packet(id: u8, text: &[u8]) -> (packet: Vec<u8>)
    ensures
        packet@ == crate::varint::framed(string_packet(id, text@)),
{
    let mut payload: Vec<u8> = Vec::new();
    payload.push(id);
    let field = frame(text);
    payload.extend_from_slice(field.as_slice());
    assert(payload@ =~= string_packet(id, text@));
    frame(payload.as_slice())
}

/// A whole Status Response packet.
pub fn status_response(json: &str) -> (packet: Vec<u8>)
    ensures
        packet@ == crate::varint::framed(string_packet(0, vstd::utf8::encode_utf8(json@))),
{
    frame_string_packet(0x00, json.as_bytes())
}

/// A whole Login Disconnect packet whose reason is a chat component.
pub fn login_disconnect(reason_json: &str) -> (packet: Vec<u8>)
    ensures
        packet@ == crate::varint::framed(string_packet(0, vstd::utf8::encode_utf8(reason_json@))),
{
    frame_string_packet(0x00, reason_json.as_bytes())
}

/// A whole Login Plugin Request packet on the hold channel, without data.
pub fn login_plugin_request(message_id: u32) -> (packet: Vec<u8>)
    ensures
        packet@ == crate::varint::framed(
            seq![4u8] + crate::varint::varint_bytes(message_id as nat) + crate::varint::framed(
                vstd::utf8::encode_utf8(HOLD_CHANNEL@),
            ),
        ),
{
    let mut payload: Vec<u8> = Vec::new();
    payload.push(0x04);
    let id = encode_varint(message_id);
    payload.extend_from_slice(id.as_slice());
    let channel = frame(HOLD_CHANNEL.as_bytes());
    payload.extend_from_slice(channel.as_slice());
    assert(payload@ =~= seq![4u8] + crate::varint::varint_bytes(message_id as nat)
        + crate::varint::framed(vstd::utf8::encode_utf8(HOLD_CHANNEL@)));
    frame(payload.as_slice())
}

/// A whole Status Request packet, which has no data.
pub fn status_request() -> (packet: Vec<u8>)
    ensures
        packet@ == crate::varint::framed(seq![0u8]),
{
    let mut payload: Vec<u8> = Vec::new();
    payload.push(0x00);
    assert(payload@ =~= seq![0u8]);
    frame(payload.as_slice())
}

/// Why a backend's answer to a status request is no status.
#[derive(Clone, Copy, Debug, PartialEq, Eq, Structural)]
pub enum StatusError {
    /// It has no packet id.
    BadResponse,
    /// It has another packet id.
    UnexpectedPacket,
    /// Its string has no length.
    BadString,
    /// Its string is cut short.
    Truncated,
}

/// The bytes of the JSON in a Status Response body.
pub open spec fn status_payload(body: Seq<u8>) -> Result<Seq<u8>, StatusError> {
    match crate::varint::leading_varint(body) {
        None => Err(StatusError::BadResponse),
        Some((id, data)) => if id != 0 {
            Err(StatusError::UnexpectedPacket)
        } else {
            match crate::varint::leading_varint(data) {
                None => Err(StatusError::BadString),
                Some((len, rest)) => if 0 <= len <= rest.len() {
                    Ok(rest.take(len as int))
                } else {
                    Err(StatusError::Truncated)
                },
            }
        },
    }
}

/// Finds the JSON in a Status Response body.
pub fn status_payload_bytes(body: &[u8]) -> (payload: Result<&[u8], StatusError>)
    ensures
        match payload {
            Ok(bytes) => status_payload(body@) == Ok::<Seq<u8>, StatusError>(bytes@),
            Err(e) => status_payload(body@) == Err::<Seq<u8>, StatusError>(e),
        },
{
    let (packet_id, rest) = match take_varint(body) {
        Some(taken) => taken,
        None => return Err(StatusError::BadResponse),
    };
    if packet_id != 0x00 {
        return Err(StatusError::UnexpectedPacket);
    }
    let (len, rest) = match take_varint(rest) {
        Some(taken) => taken,
        None => return Err(StatusError::BadString),
    };
    if len < 0 || rest.len() < len as usize {
        return Err(StatusError::Truncated);
    }
    Ok(vstd::slice::slice_subrange(rest, 0, len as usize))
}

/// Reads the status JSON out of a backend's Status Response body.
pub fn parse_status_response(body: &[u8]) -> (json: Result<String, StatusError>)
    ensures
        match json {
            Ok(text) => status_payload(body@) matches Ok(bytes) && text@ == utf8_lossy(bytes) && (
            vstd::utf8::valid_utf8(bytes) ==> text@ == vstd::utf8::decode_utf8(bytes)),
            Err(e) => status_payload(body@) == Err::<Seq<u8>, StatusError>(e),
        },
{
    match status_payload_bytes(body) {
        Ok(bytes) => Ok(decode_lossy(bytes)),
        Err(e) => Err(e),
    }
}

/// The text of a legacy status answer: null-separated fields. Version 127 marks
/// a modern server, so old clients see the MOTD but cannot join.
pub open spec fn legacy_fields(text: Seq<char>, online: nat, max: nat) -> Seq<char> {
    seq!['\u{A7}', '1', '\0', '1', '2', '7', '\0', '\0'] + text + seq!['\0'] + crate::text::decimal(
        online,
    ) + seq!['\0'] + crate::text::decimal(max)
}

/// UTF-16 code units as bytes, high byte first.
pub open spec fn big_endian_units(units: Seq<u16>) -> Seq<u8>
    decreases units.len(),
{
    if units.len() == 0 {
        Seq::empty()
    } else {
        big_endian_units(units.drop_last()) + big_endian_16(units.last())
    }
}

/// A whole legacy status answer: its id, its length in code units and its text.
pub open spec fn legacy_packet(fields: Seq<char>) -> Seq<u8> {
    let units = crate::text::utf16(fields);
    seq![0xFFu8] + big_endian_16((units.len() % 0x1_0000) as u16) + big_endian_units(units)
}

/// Answers a legacy (first byte 0xFE) server-list ping. `text` is the MOTD as
/// plain text.
pub fn legacy_status(text: &str, online: usize, max: u64) -> (packet: Vec<u8>)
    ensures
        packet@ == legacy_packet(legacy_fields(text@, online as nat, max as nat)),
{
    let mut fields = String::new();
    fields.push('\u{A7}');
    fields.push('1');
    fields.push('\0');
    fields.push('1');
    fields.push('2');
    fields.push('7');
    fields.push('\0');
    fields.push('\0');
    fields.append(text);
    fields.push('\0');
    push_decimal(&mut fields, online as u64);
    fields.push('\0');
    push_decimal(&mut fields, max);
    assert(fields@ =~= legacy_fields(text@, online as nat, max as nat));
    let units: Vec<u16> = encode_utf16(fields.as_str());
    let mut out: Vec<u8> = Vec::new();
    out.push(0xFF);
    let count: u64 = units.len() as u64;
    assert(count as u16 == count % 0x1_0000) by (bit_vector);
    push_big_endian_16(&mut out, count as u16);
    let ghost head = out@;
    let mut i: usize = 0;
    assert(units@.take(0) =~= Seq::<u16>::empty());
    while i < units.len()
        invariant
            i <= units.len(),
            out@ == head + big_endian_units(units@.take(i as int)),
        decreases units.len() - i,
    {
        let ghost before = big_endian_units(units@.take(i as int));
        push_big_endian_16(&mut out, units[i]);
        i += 1;
        assert(units@.take(i as int).drop_last() =~= units@.take(i - 1));
        assert(out@ =~= head + (before + big_endian_16(units@[i - 1])));
    }
    assert(units@.take(i as int) =~= units@);
    out
}

/// A MOTD without null characters cannot disturb a legacy answer: separators
/// stand only in the five places between its fields.
pub proof fn law_legacy_fields_stay_apart(text: Seq<char>, online: nat, max: nat, i: int)
    requires
        !text.contains('\0'),
        0 <= i < legacy_fields(text, online, max).len(),
    ensures
        legacy_fields(text, online, max)[i] == '\0' <==> (i == 2 || i == 6 || i == 7 || i == 8
            + text.len() || i == 9 + text.len() + crate::text::decimal(online).len()),
{
    crate::text::lemma_decimal_digits(online);
    crate::text::lemma_decimal_digits(max);
    let digits = crate::text::decimal(online);
    let cap = crate::text::decimal(max);
    let after = 9 + text.len();
    let all = legacy_fields(text, online, max);
    if 8 <= i < 8 + text.len() {
        assert(all[i] == text[i - 8]);
        assert(text.contains(text[i - 8]));
    } else if after <= i < after + digits.len() {
        assert(all[i] == digits[i - after]);
    } else if i > after + digits.len() {
        assert(all[i] == cap[i - after - digits.len() - 1]);
    }
}

/// A field that was written is read back, with what follows it left over.
proof fn lemma_string_field(text: Seq<u8>, rest: Seq<u8>)
    requires
        text.len() <= i32::MAX,
    ensures
        crate::varint::leading_varint(crate::varint::framed(text) + rest) == Some(
            (text.len() as i32, text + rest),
        ),
        (text + rest).take(text.len() as int) == text,
        (text + rest).skip(text.len() as int) == rest,
{
    crate::varint::law_frame_round_trip(text, rest);
    assert((text + rest).take(text.len() as int) =~= text);
    assert((text + rest).skip(text.len() as int) =~= rest);
}

/// One byte below 128 is a VarInt of its own.
proof fn lemma_small_varint(id: u8, rest: Seq<u8>)
    requires
        id < 128,
    ensures
        crate::varint::leading_varint(seq![id] + rest) == Some((id as i32, rest)),
{
    assert(crate::varint::varint_bytes(id as nat) =~= seq![id]);
    crate::varint::law_varint_round_trip(id as u32, rest);
}

/// Parsing a handshake undoes building it: the protocol version and the next
/// state come back, whatever the address and the port.
pub proof fn law_handshake_round_trip(protocol: i32, host: Seq<u8>, port: u16, next_state: u8)
    requires
        host.len() <= 255,
        next_state < 128,
    ensures
        handshake_fields(handshake_body(protocol, host, port, next_state)) == Some(
            (protocol, next_state as i32),
        ),
{
    let end = big_endian_16(port) + seq![next_state];
    let address = crate::varint::framed(host) + end;
    let version = crate::varint::varint_bytes(crate::varint::unsigned_32(protocol) as nat);
    let body = handshake_body(protocol, host, port, next_state);
    assert(body =~= seq![0u8] + (version + address));
    lemma_small_varint(0, version + address);
    crate::varint::law_varint_round_trip(crate::varint::unsigned_32(protocol), address);
    crate::varint::law_signed_round_trip(protocol);
    lemma_string_field(host, end);
    assert(end.skip(2) =~= seq![next_state] + Seq::<u8>::empty());
    lemma_small_varint(next_state, Seq::empty());
}

/// The status JSON that one side sends is the one that the other side reads.
pub proof fn law_status_round_trip(json: Seq<char>)
    requires
        vstd::utf8::encode_utf8(json).len() <= i32::MAX,
    ensures
        status_payload(string_packet(0, vstd::utf8::encode_utf8(json))) == Ok::<
            Seq<u8>,
            StatusError,
        >(vstd::utf8::encode_utf8(json)),
        vstd::utf8::valid_utf8(vstd::utf8::encode_utf8(json)),
        vstd::utf8::decode_utf8(vstd::utf8::encode_utf8(json)) == json,
{
    let bytes = vstd::utf8::encode_utf8(json);
    vstd::utf8::encode_utf8_valid_utf8(json);
    vstd::utf8::encode_utf8_decode_utf8(json);
    lemma_small_varint(0, crate::varint::framed(bytes));
    lemma_string_field(bytes, Seq::empty());
    assert(crate::varint::framed(bytes) =~= crate::varint::framed(bytes) + Seq::<u8>::empty());
    assert(bytes + Seq::<u8>::empty() =~= bytes);
}

/// A Login Start that begins with a name of one to 48 bytes yields that name,
/// whatever later protocol versions append to it.
pub proof fn law_login_name_found(name: Seq<u8>, rest: Seq<u8>)
    requires
        0 < name.len() <= MAX_NAME_BYTES,
    ensures
        login_name(string_packet(0, name) + rest) == Some(name),
{
    assert(string_packet(0, name) + rest =~= seq![0u8] + (crate::varint::framed(name) + rest));
    lemma_small_varint(0, crate::varint::framed(name) + rest);
    lemma_string_field(name, rest);
}

/// A handshake is understood exactly if it has the id 0, a protocol version, an
/// address of at most 255 bytes, a port and a next state, in this order.
pub proof fn law_handshake_is_read_field_by_field(body: Seq<u8>)
    ensures
        handshake_fields(body) == (match crate::varint::leading_varint(body) {
            Some((id, a)) if id == 0 => match crate::varint::leading_varint(a) {
                Some((protocol, b)) => match crate::varint::leading_varint(b) {
                    Some((len, c)) if 0 <= len <= 255 && len + 2 <= c.len() =>
                        match crate::varint::leading_varint(c.skip(len + 2)) {
                            Some((next_state, _)) => Some((protocol, next_state)),
                            None => None,
                        },
                    _ => None,
                },
                None => None,
            },
            _ => None,
        }),
{
    if let Some((id, a)) = crate::varint::leading_varint(body) {
        if let Some((protocol, b)) = crate::varint::leading_varint(a) {
            if let Some((len, c)) = crate::varint::leading_varint(b) {
                if 0 <= len <= 255 && len + 2 <= c.len() {
                    assert(c.skip(len as int).skip(2) =~= c.skip(len + 2));
                }
            }
        }
    }
}

/// A username is found exactly if the packet has the id 0 and then a string of
/// one to 48 bytes; what follows the string does not matter.
pub proof fn law_login_name_is_the_first_string(body: Seq<u8>)
    ensures
        login_name(body) == (match crate::varint::leading_varint(body) {
            Some((id, a)) if id == 0 => match crate::varint::leading_varint(a) {
                Some((len, c)) if 1 <= len <= 48 && len <= c.len() => Some(c.take(len as int)),
                _ => None,
            },
            _ => None,
        }),
{
}

/// A username is given exactly if the packet names one.
pub proof fn law_username_is_the_name(login_start: &[u8], name: Option<String>)
    requires
        call_ensures(parse_login_username, (login_start,), name),
    ensures
        name is Some <==> login_name(login_start@) is Some,
        name matches Some(text) ==> text@ == utf8_lossy(login_name(login_start@)->0),
        name matches Some(text) ==> (vstd::utf8::valid_utf8(login_name(login_start@)->0) ==> text@
            == vstd::utf8::decode_utf8(login_name(login_start@)->0)),
{
}

/// Splitting undoes joining: a host and a port that are joined by a colon come
/// apart again, and without a colon the port is the usual one.
pub proof fn law_address_comes_apart(host: Seq<char>, port: Seq<char>)
    requires
        !port.contains(':'),
    ensures
        address_parts(host + seq![':'] + port) == (host, port_number(port)),
        !host.contains(':') ==> address_parts(host) == (host, 25565u16),
{
    let all = host + seq![':'] + port;
    lemma_last_colon(host, port);
    assert(all.take(host.len() as int) =~= host);
    assert(all.skip(host.len() as int + 1) =~= port);
    if !host.contains(':') {
        lemma_no_colon(host);
    }
}

proof fn lemma_no_colon(text: Seq<char>)
    requires
        !text.contains(':'),
    ensures
        last_colon(text) is None,
    decreases text.len(),
{
    if text.len() > 0 {
        assert(text.contains(text.last()));
        assert forall|c: char| text.drop_last().contains(c) implies text.contains(c) by {
            let i = choose|i: int| 0 <= i < text.len() - 1 && text.drop_last()[i] == c;
            assert(text[i] == c);
        }
        lemma_no_colon(text.drop_last());
    }
}

proof fn lemma_last_colon(host: Seq<char>, port: Seq<char>)
    requires
        !port.contains(':'),
    ensures
        last_colon(host + seq![':'] + port) == Some(host.len() as int),
    decreases port.len(),
{
    let all = host + seq![':'] + port;
    if port.len() == 0 {
        assert(all.last() == ':');
    } else {
        assert(port.contains(port.last()));
        assert(all.last() == port.last());
        let shorter = port.drop_last();
        assert forall|c: char| shorter.contains(c) implies port.contains(c) by {
            let i = choose|i: int| 0 <= i < shorter.len() && shorter[i] == c;
            assert(port[i] == c);
        }
        lemma_last_colon(host, shorter);
        assert(all.drop_last() =~= host + seq![':'] + shorter);
    }
}

/// A port is the number that is spelled, if it fits, and else the usual one.
pub proof fn law_port_is_the_number_spelled(text: Seq<char>, n: u16)
    ensures
        port_number(crate::text::decimal(n as nat)) == n,
        crate::text::unsigned_text(text) is None ==> port_number(text) == 25565,
        crate::text::unsigned_text(text) matches Some(m) ==> (m <= 65535 ==> port_number(text) == m)
            && (m > 65535 ==> port_number(text) == 25565),
{
    crate::text::law_decimal_reads_back(n as nat);
}

/// A handshake names the protocol, the host, the port (high byte first) and the
/// next state, and ends there.
pub proof fn law_handshake_layout(protocol: i32, host: Seq<u8>, port: u16, next_state: u8)
    requires
        host.len() <= i32::MAX,
    ensures
        ({
            let body = handshake_body(protocol, host, port, next_state);
            let n = host.len() as int;
            &&& crate::varint::leading_varint(body) matches Some((id, a))
            &&& id == 0
            &&& crate::varint::leading_varint(a) matches Some((version, b))
            &&& version == protocol
            &&& crate::varint::leading_varint(b) matches Some((len, c))
            &&& len == n
            &&& c.len() == n + 3
            &&& c.take(n) == host
            &&& c[n] * 256 + c[n + 1] == port
            &&& c[n + 2] == next_state
        }),
{
    let end = seq![(port / 256) as u8, (port % 256) as u8, next_state];
    lemma_handshake_chain(protocol, host, port, next_state);
    let n = host.len() as int;
    let c = host + end;
    assert(c.take(n) =~= host);
    assert(c[n] == end[0] && c[n + 1] == end[1] && c[n + 2] == end[2]);
    assert((port / 256) * 256 + port % 256 == port);
}

/// The fields of a handshake, one after the other.
proof fn lemma_handshake_chain(protocol: i32, host: Seq<u8>, port: u16, next_state: u8)
    requires
        host.len() <= i32::MAX,
    ensures
        ({
            let end = seq![(port / 256) as u8, (port % 256) as u8, next_state];
            let address = crate::varint::framed(host) + end;
            let data = crate::varint::varint_bytes(crate::varint::unsigned_32(protocol) as nat)
                + address;
            let body = handshake_body(protocol, host, port, next_state);
            &&& crate::varint::leading_varint(body) == Some((0i32, data))
            &&& crate::varint::leading_varint(data) == Some((protocol, address))
            &&& crate::varint::leading_varint(address) == Some((host.len() as i32, host + end))
        }),
{
    let end = seq![(port / 256) as u8, (port % 256) as u8, next_state];
    let address = crate::varint::framed(host) + end;
    let version = crate::varint::varint_bytes(crate::varint::unsigned_32(protocol) as nat);
    let body = handshake_body(protocol, host, port, next_state);
    assert(body =~= seq![0u8] + (version + address));
    lemma_small_varint(0, version + address);
    crate::varint::law_varint_round_trip(crate::varint::unsigned_32(protocol), address);
    crate::varint::law_signed_round_trip(protocol);
    crate::varint::law_frame_round_trip(host, end);
}

/// A status handshake that is built for an address is one for that host and
/// port, with that protocol, that asks for the status.
pub proof fn law_built_handshake_asks_for_the_status(
    address: &str,
    protocol: i32,
    body: Vec<u8>,
)
    requires
        call_ensures(build_status_handshake, (address, protocol), body),
    ensures
        ({
            let (host, port) = address_parts(address@);
            let bytes = vstd::utf8::encode_utf8(host);
            &&& body@ == handshake_body(protocol, bytes, port, 1)
            &&& bytes.len() <= 255 ==> handshake_fields(body@) == Some((protocol, 1i32))
        }),
{
    let (host, port) = address_parts(address@);
    let bytes = vstd::utf8::encode_utf8(host);
    if bytes.len() <= 255 {
        law_handshake_round_trip(protocol, bytes, port, 1);
    }
}

/// A status answer is understood exactly if it has the id 0 and then a whole
/// string; each way to fail has its own error.
pub proof fn law_status_answer_is_read(body: Seq<u8>)
    ensures
        status_payload(body) == (match crate::varint::leading_varint(body) {
            None => Err::<Seq<u8>, StatusError>(StatusError::BadResponse),
            Some((id, a)) if id != 0 => Err(StatusError::UnexpectedPacket),
            Some((_, a)) => match crate::varint::leading_varint(a) {
                None => Err(StatusError::BadString),
                Some((len, c)) if len < 0 || len > c.len() => Err(StatusError::Truncated),
                Some((len, c)) => Ok(c.take(len as int)),
            },
        }),
{
}

/// The status that is read is the text of the answer's string, and an error is
/// the answer's.
pub proof fn law_status_text_is_the_payload(body: &[u8], json: Result<String, StatusError>)
    requires
        call_ensures(parse_status_response, (body,), json),
    ensures
        match status_payload(body@) {
            Ok(bytes) => json matches Ok(text) && text@ == utf8_lossy(bytes),
            Err(e) => json matches Err(found) && found == e,
        },
{
}

/// A packet of one string is read as its id and that string.
pub proof fn law_string_packet_layout(id: u8, text: Seq<u8>)
    requires
        id < 128,
        text.len() <= i32::MAX,
    ensures
        ({
            &&& crate::varint::leading_varint(string_packet(id, text)) matches Some((found, data))
            &&& found == id
            &&& string_field(data) matches Some((bytes, rest))
            &&& bytes == text
            &&& rest.len() == 0
        }),
{
    lemma_small_varint(id, crate::varint::framed(text));
    lemma_string_field(text, Seq::empty());
    assert(crate::varint::framed(text) =~= crate::varint::framed(text) + Seq::<u8>::empty());
    assert(string_packet(id, text) =~= seq![id] + crate::varint::framed(text));
}

/// A Login Plugin Request is framed, has the id 4, its own number and the hold
/// channel, and no data.
pub proof fn law_plugin_request_layout(message_id: u32, packet: Vec<u8>)
    requires
        call_ensures(login_plugin_request, (message_id,), packet),
    ensures
        ({
            &&& crate::varint::leading_varint(packet@) matches Some((len, body))
            &&& len == body.len()
            &&& crate::varint::leading_varint(body) matches Some((id, a))
            &&& id == 4
            &&& crate::varint::leading_varint(a) matches Some((number, b))
            &&& number == crate::varint::signed_32(message_id as nat)
            &&& string_field(b) matches Some((channel, rest))
            &&& channel == vstd::utf8::encode_utf8("sleepproxy:hold"@)
            &&& rest.len() == 0
        }),
{
    reveal_strlit("sleepproxy:hold");
    assert(vstd::utf8::is_ascii_chars("sleepproxy:hold"@));
    vstd::utf8::is_ascii_chars_encode_utf8("sleepproxy:hold"@);
    let channel = vstd::utf8::encode_utf8("sleepproxy:hold"@);
    let field = crate::varint::framed(channel);
    let number = crate::varint::varint_bytes(message_id as nat);
    let body = seq![4u8] + number + field;
    crate::varint::law_varint_length(message_id);
    crate::varint::law_varint_length(channel.len() as u32);
    crate::varint::law_frame_is_length_and_payload(channel);
    crate::varint::law_frame_round_trip(body, Seq::empty());
    assert(crate::varint::framed(body) + Seq::<u8>::empty() =~= crate::varint::framed(body));
    assert(body + Seq::<u8>::empty() =~= body);
    assert(body =~= seq![4u8] + (number + field));
    lemma_small_varint(4, number + field);
    crate::varint::law_varint_round_trip(message_id, field);
    lemma_string_field(channel, Seq::empty());
    assert(field + Seq::<u8>::empty() =~= field);
}

/// A number of two bytes can be computed from them.
pub proof fn law_two_bytes_spell_a_number(n: u16)
    ensures
        big_endian_16(n).len() == 2,
        big_endian_16(n)[0] * 256 + big_endian_16(n)[1] == n,
{
}

/// Code units are written one after the other, two bytes each.
pub proof fn law_units_are_written_in_order(units: Seq<u16>, i: int)
    ensures
        big_endian_units(units).len() == 2 * units.len(),
        0 <= i < units.len() ==> big_endian_units(units)[2 * i] * 256 + big_endian_units(units)[2
            * i + 1] == units[i],
    decreases units.len(),
{
    if units.len() > 0 {
        law_units_are_written_in_order(units.drop_last(), i);
        if i < units.len() - 1 {
            assert(0 <= i ==> units.drop_last()[i] == units[i]);
        }
    }
}

/// A legacy answer shows a modern server's version, the MOTD, the number of
/// players and the slot cap, each in its field.
pub proof fn law_legacy_fields_hold_their_values(text: Seq<char>, online: nat, max: nat)
    ensures
        ({
            let all = legacy_fields(text, online, max);
            let count = 9 + text.len() as int;
            let cap = count + crate::text::decimal(online).len() + 1;
            &&& all.take(8) == seq!['\u{A7}', '1', '\0', '1', '2', '7', '\0', '\0']
            &&& all.subrange(8, count - 1) == text
            &&& all[count - 1] == '\0'
            &&& all.subrange(count, cap - 1) == crate::text::decimal(online)
            &&& all[cap - 1] == '\0'
            &&& all.skip(cap) == crate::text::decimal(max)
        }),
{
    let all = legacy_fields(text, online, max);
    let count = 9 + text.len() as int;
    let cap = count + crate::text::decimal(online).len() + 1;
    assert(all.take(8) =~= seq!['\u{A7}', '1', '\0', '1', '2', '7', '\0', '\0']);
    assert(all.subrange(8, count - 1) =~= text);
    assert(all.subrange(count, cap - 1) =~= crate::text::decimal(online));
    assert(all.skip(cap) =~= crate::text::decimal(max));
}

/// A legacy answer is its id, the number of its code units and these.
pub proof fn law_legacy_packet_layout(fields: Seq<char>)
    ensures
        ({
            let packet = legacy_packet(fields);
            let units = crate::text::utf16(fields);
            &&& packet.len() == 3 + 2 * units.len()
            &&& packet[0] == 0xFF
            &&& units.len() <= 65535 ==> packet[1] * 256 + packet[2] == units.len()
            &&& packet.skip(3) == big_endian_units(units)
        }),
{
    let units = crate::text::utf16(fields);
    law_units_are_written_in_order(units, 0);
    assert(legacy_packet(fields).skip(3) =~= big_endian_units(units));
}

} // verus!
