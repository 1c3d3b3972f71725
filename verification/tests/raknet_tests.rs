use rsquery::model::{PayloadFault, QueryError};
use rsquery::raknet::{decode_pong, encode_ping};

fn pong_with(fields: &str) -> Vec<u8> {
    // 35 prefix bytes: id, server time, server guid, magic, string length.
    let mut payload = vec![0u8; 35];
    payload.extend_from_slice(fields.as_bytes());
    payload
}

#[test]
fn encode_ping_layout() {
    let r = encode_ping(0x0102030405060708, 0x1112131415161718);
    let mut expected: Vec<u8> = vec![0x01];
    expected.extend_from_slice(&[0x11, 0x12, 0x13, 0x14, 0x15, 0x16, 0x17, 0x18]);
    expected.extend_from_slice(&[
        0x00, 0xff, 0xff, 0x00, 0xfe, 0xfe, 0xfe, 0xfe, 0xfd, 0xfd, 0xfd, 0xfd, 0x12, 0x34, 0x56,
        0x78,
    ]);
    expected.extend_from_slice(&[0x01, 0x02, 0x03, 0x04, 0x05, 0x06, 0x07, 0x08]);
    assert_eq!(r, expected);
    assert_eq!(r.len(), 33);
}

#[test]
fn encode_ping_negative_timestamp() {
    let r = encode_ping(0, -1);
    // Two's complement: all timestamp bytes are 0xFF.
    assert_eq!(&r[1..9], &[0xff; 8]);
}

#[test]
fn decode_pong_scenario() {
    let payload = pong_with("MCPE;My Server;422;1.18;5;20;1234567890;Survival;1;19132;19133");
    let r = decode_pong(&payload).unwrap();
    assert_eq!(r.game_edition, "MCPE");
    assert_eq!(r.player_count, 5);
    assert_eq!(r.max_player_count, 20);
    assert_eq!(r.protocol_version, 422);
    assert_eq!(r.game_version, "1.18");
    assert_eq!(r.server_uid, "1234567890");
    // Field 7 is the second motd line, field 8 the game mode.
    assert_eq!(r.motd, vec!["My Server".to_string(), "Survival".to_string()]);
    assert_eq!(r.game_mode, Some("1".to_string()));
    assert_eq!(r.game_mode_integer, None);
    assert_eq!(r.port, None);
    assert_eq!(r.port_v6, None);
}

#[test]
fn decode_pong_seven_fields_has_no_game_mode() {
    let payload = pong_with("MCPE;Lobby;422;1.18;0;10;42");
    let r = decode_pong(&payload).unwrap();
    assert_eq!(r.motd, vec!["Lobby".to_string()]);
    assert_eq!(r.game_mode, None);
}

#[test]
fn decode_pong_nine_fields_has_game_mode() {
    let payload = pong_with("MCPE;Lobby;422;1.18;0;10;42;Second line;Creative");
    let r = decode_pong(&payload).unwrap();
    assert_eq!(r.motd, vec!["Lobby".to_string(), "Second line".to_string()]);
    assert_eq!(r.game_mode, Some("Creative".to_string()));
}

#[test]
fn decode_pong_too_few_fields_is_malformed() {
    let payload = pong_with("MCPE;Lobby;422");
    assert_eq!(
        decode_pong(&payload),
        Err(QueryError::MalformedPayload(PayloadFault::Shape))
    );
}

#[test]
fn decode_pong_short_datagram_is_malformed() {
    let payload = vec![0u8; 20];
    assert_eq!(
        decode_pong(&payload),
        Err(QueryError::MalformedPayload(PayloadFault::Shape))
    );
}

#[test]
fn decode_pong_non_numeric_count_is_numeric_error() {
    let payload = pong_with("MCPE;Lobby;422;1.18;many;10;42");
    assert_eq!(decode_pong(&payload), Err(QueryError::NumericDecodeError));
}

#[test]
fn decode_pong_twice_is_idempotent() {
    let payload = pong_with("MCPE;Lobby;422;1.18;3;10;42;Line two;Survival");
    let first = decode_pong(&payload);
    let second = decode_pong(&payload);
    assert_eq!(first, second);
}
