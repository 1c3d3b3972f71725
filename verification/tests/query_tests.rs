use rsquery::handshake::{decode_challenge, encode_handshake};
use rsquery::model::{PayloadFault, QueryError};
use rsquery::stat::{decode_basic_stat, encode_stat_request};

fn basic_stat_response() -> Vec<u8> {
    // Type byte, four session-echo bytes, five null-terminated fields, the
    // port little-endian, and the null-terminated host ip.
    let mut resp: Vec<u8> = vec![0x00, 0x01, 0x02, 0x03, 0x04];
    resp.extend_from_slice(b"A Minecraft Server\0SMP\0world\02\020\0");
    // Port 0x0102 = 258, stored little-endian: a big-endian misread would
    // yield 0x0201 = 513.
    resp.extend_from_slice(&[0x02, 0x01]);
    resp.extend_from_slice(b"127.0.0.1\0");
    resp
}

#[test]
fn encode_handshake_layout() {
    let r = encode_handshake(0x12345678);
    // 0x12345678 & 0x0F0F0F0F == 0x02040608.
    assert_eq!(r, vec![0xfe, 0xfd, 0x09, 0x02, 0x04, 0x06, 0x08]);
}

#[test]
fn encode_handshake_masks_negative_session_id() {
    let r = encode_handshake(-1);
    assert_eq!(r, vec![0xfe, 0xfd, 0x09, 0x0f, 0x0f, 0x0f, 0x0f]);
}

#[test]
fn decode_challenge_scenario() {
    // Handshake response bytes [0x09, 0,0,0,0, '4','2', 0x00] carry token 42.
    let resp = [0x09u8, 0, 0, 0, 0, b'4', b'2', 0x00];
    assert_eq!(decode_challenge(&resp), Ok(42));
}

#[test]
fn challenge_round_trip() {
    let session_id = 0x00070301;
    let request = encode_handshake(session_id);
    assert_eq!(request.len(), 7);
    let token = 9513i32;
    let mut resp: Vec<u8> = vec![0x09, 0, 0, 0, 0];
    resp.extend_from_slice(token.to_string().as_bytes());
    resp.push(0x00);
    assert_eq!(decode_challenge(&resp), Ok(token));
}

#[test]
fn decode_challenge_negative_token() {
    let resp = [0x09u8, 0, 0, 0, 0, b'-', b'4', b'2', 0x00];
    assert_eq!(decode_challenge(&resp), Ok(-42));
}

#[test]
fn decode_challenge_wrong_type_is_mismatch() {
    let resp = [0x00u8, 0, 0, 0, 0, b'4', b'2', 0x00];
    assert_eq!(
        decode_challenge(&resp),
        Err(QueryError::ProtocolMismatch { expected: 0x09, received: 0x00 })
    );
}

#[test]
fn decode_challenge_non_numeric_is_numeric_error() {
    let resp = [0x09u8, 0, 0, 0, 0, b'x', b'y', 0x00];
    assert_eq!(decode_challenge(&resp), Err(QueryError::NumericDecodeError));
}

#[test]
fn decode_challenge_truncated_is_malformed() {
    let resp = [0x09u8, 0, 0];
    assert_eq!(
        decode_challenge(&resp),
        Err(QueryError::MalformedPayload(PayloadFault::Shape))
    );
}

#[test]
fn encode_stat_request_short_layout() {
    let r = encode_stat_request(0x12345678, 0x0a0b0c0d, false);
    assert_eq!(
        r,
        vec![0xfe, 0xfd, 0x00, 0x02, 0x04, 0x06, 0x08, 0x0a, 0x0b, 0x0c, 0x0d]
    );
}

#[test]
fn encode_stat_request_long_appends_padding() {
    let r = encode_stat_request(0x12345678, 0x0a0b0c0d, true);
    assert_eq!(
        r,
        vec![0xfe, 0xfd, 0x00, 0x02, 0x04, 0x06, 0x08, 0x0a, 0x0b, 0x0c, 0x0d, 0, 0, 0, 0]
    );
}

#[test]
fn encode_stat_request_negative_token() {
    let r = encode_stat_request(0, -1, false);
    // Two's complement: the token bytes are all 0xFF.
    assert_eq!(&r[7..11], &[0xff, 0xff, 0xff, 0xff]);
}

#[test]
fn decode_basic_stat_recovers_every_field() {
    let resp = basic_stat_response();
    let r = decode_basic_stat(&resp).unwrap();
    assert_eq!(r.motd, "A Minecraft Server");
    assert_eq!(r.gametype, "SMP");
    assert_eq!(r.map, "world");
    assert_eq!(r.players, 2);
    assert_eq!(r.max_players, 20);
    assert_eq!(r.host_port, 258);
    assert_eq!(r.host_ip, "127.0.0.1");
}

#[test]
fn decode_basic_stat_wrong_type_is_mismatch() {
    // A stat response with leading byte 0x09 raises a protocol mismatch and
    // no field is ever parsed.
    let mut resp = basic_stat_response();
    resp[0] = 0x09;
    assert_eq!(
        decode_basic_stat(&resp),
        Err(QueryError::ProtocolMismatch { expected: 0x00, received: 0x09 })
    );
}

#[test]
fn decode_basic_stat_missing_terminator_is_malformed() {
    let mut resp: Vec<u8> = vec![0x00, 0, 0, 0, 0];
    resp.extend_from_slice(b"A Minecraft Server");
    assert_eq!(
        decode_basic_stat(&resp),
        Err(QueryError::MalformedPayload(PayloadFault::Shape))
    );
}

#[test]
fn decode_basic_stat_non_numeric_players_is_numeric_error() {
    let mut resp: Vec<u8> = vec![0x00, 0, 0, 0, 0];
    resp.extend_from_slice(b"motd\0SMP\0world\0two\020\0");
    resp.extend_from_slice(&[0x02, 0x01]);
    resp.extend_from_slice(b"127.0.0.1\0");
    assert_eq!(decode_basic_stat(&resp), Err(QueryError::NumericDecodeError));
}

#[test]
fn decode_basic_stat_reads_invalid_utf8_lossily() {
    let mut resp: Vec<u8> = vec![0x00, 0, 0, 0, 0];
    resp.extend_from_slice(&[0xff, 0x00]);
    resp.extend_from_slice(b"SMP\0world\02\020\0");
    resp.extend_from_slice(&[0x02, 0x01]);
    resp.extend_from_slice(b"127.0.0.1\0");
    let r = decode_basic_stat(&resp).unwrap();
    assert_eq!(r.motd, "\u{FFFD}");
}

#[test]
fn decode_basic_stat_twice_is_idempotent() {
    let resp = basic_stat_response();
    assert_eq!(decode_basic_stat(&resp), decode_basic_stat(&resp));
}
