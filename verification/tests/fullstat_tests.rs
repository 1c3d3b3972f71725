use rsquery::fullstat::decode_full_stat;
use rsquery::model::{PayloadFault, QueryError, RequiredKey};

fn response_from(kv: &[(&str, &str)], players: Option<&[&str]>) -> Vec<u8> {
    // Type byte, four session-echo bytes, eleven padding bytes.
    let mut resp: Vec<u8> = vec![0x00, 0x01, 0x02, 0x03, 0x04];
    resp.extend_from_slice(b"splitnum\0\x80\0");
    for (k, v) in kv {
        resp.extend_from_slice(k.as_bytes());
        resp.push(0);
        resp.extend_from_slice(v.as_bytes());
        resp.push(0);
    }
    if let Some(names) = players {
        // The player-section marker, then the names, then the three-byte
        // section terminator.
        resp.extend_from_slice(&[0x00, 0x01]);
        resp.extend_from_slice(b"player_");
        resp.extend_from_slice(&[0x00, 0x00]);
        for n in names {
            resp.extend_from_slice(n.as_bytes());
            resp.push(0);
        }
        resp.extend_from_slice(&[0x00, 0x00, 0x00]);
    }
    resp
}

fn all_keys() -> Vec<(&'static str, &'static str)> {
    vec![
        ("hostname", "A Server"),
        ("gametype", "SMP"),
        ("game_id", "MINECRAFT"),
        ("version", "1.18"),
        ("plugins", ""),
        ("map", "world"),
        ("numplayers", "2"),
        ("maxplayers", "20"),
        ("hostport", "19132"),
        ("hostip", "127.0.0.1"),
        ("server_engine", "Vanilla"),
        ("whitelist", "off"),
    ]
}

#[test]
fn decode_full_stat_recovers_fields_and_players() {
    let resp = response_from(&all_keys(), Some(&["Alice", "Bob"]));
    let r = decode_full_stat(&resp).unwrap();
    assert_eq!(r.host_name, "A Server");
    assert_eq!(r.game_mode, "SMP");
    assert_eq!(r.game_name, "MINECRAFT");
    assert_eq!(r.version, "1.18");
    assert_eq!(r.plugins, "");
    assert_eq!(r.map_name, "world");
    assert_eq!(r.player_count, 2);
    assert_eq!(r.max_players, 20);
    assert_eq!(r.host_port, 19132);
    assert_eq!(r.host_ip, "127.0.0.1");
    assert_eq!(r.server_software, "Vanilla");
    assert_eq!(r.whitelist, "off");
    // No cross-contamination at the marker boundary: the player list holds
    // exactly the names, no key or value; the fields hold no player name.
    assert_eq!(r.players, vec!["Alice".to_string(), "Bob".to_string()]);
}

#[test]
fn decode_full_stat_without_marker_has_empty_player_list() {
    let resp = response_from(&all_keys(), None);
    let r = decode_full_stat(&resp).unwrap();
    assert_eq!(r.players, Vec::<String>::new());
    assert_eq!(r.host_name, "A Server");
}

#[test]
fn decode_full_stat_with_marker_but_no_names_has_empty_player_list() {
    let resp = response_from(&all_keys(), Some(&[]));
    let r = decode_full_stat(&resp).unwrap();
    assert_eq!(r.players, Vec::<String>::new());
}

#[test]
fn odd_token_count_drops_last_token_and_does_not_error() {
    let mut resp = response_from(&all_keys(), None);
    // A dangling key with no value and no terminator: the token count of the
    // key/value region becomes odd, and exactly this token is dropped.
    resp.extend_from_slice(b"dangling");
    let r = decode_full_stat(&resp).unwrap();
    assert_eq!(r.host_name, "A Server");
    assert_eq!(r.max_players, 20);
}

#[test]
fn missing_required_key_names_the_key() {
    let kv: Vec<(&str, &str)> = all_keys()
        .into_iter()
        .filter(|(k, _)| *k != "version")
        .collect();
    let resp = response_from(&kv, Some(&["Alice"]));
    assert_eq!(
        decode_full_stat(&resp),
        Err(QueryError::MalformedPayload(PayloadFault::MissingKey(
            RequiredKey::Version
        )))
    );
}

#[test]
fn duplicate_key_last_write_wins() {
    let mut kv = all_keys();
    kv.push(("map", "nether"));
    let resp = response_from(&kv, None);
    let r = decode_full_stat(&resp).unwrap();
    assert_eq!(r.map_name, "nether");
}

#[test]
fn stat_response_with_handshake_type_is_mismatch() {
    // A stat response whose leading byte is 0x09 instead of 0x00 raises a
    // protocol mismatch; no field is ever parsed.
    let mut resp = response_from(&all_keys(), Some(&["Alice"]));
    resp[0] = 0x09;
    assert_eq!(
        decode_full_stat(&resp),
        Err(QueryError::ProtocolMismatch { expected: 0x00, received: 0x09 })
    );
}

#[test]
fn non_numeric_player_count_is_numeric_error() {
    let kv: Vec<(&str, &str)> = all_keys()
        .into_iter()
        .map(|(k, v)| if k == "numplayers" { (k, "two") } else { (k, v) })
        .collect();
    let resp = response_from(&kv, None);
    assert_eq!(decode_full_stat(&resp), Err(QueryError::NumericDecodeError));
}

#[test]
fn out_of_range_port_is_numeric_error() {
    let kv: Vec<(&str, &str)> = all_keys()
        .into_iter()
        .map(|(k, v)| if k == "hostport" { (k, "70000") } else { (k, v) })
        .collect();
    let resp = response_from(&kv, None);
    assert_eq!(decode_full_stat(&resp), Err(QueryError::NumericDecodeError));
}

#[test]
fn overflowing_player_count_is_numeric_error() {
    let kv: Vec<(&str, &str)> = all_keys()
        .into_iter()
        .map(|(k, v)| {
            if k == "numplayers" {
                (k, "18446744073709551616")
            } else {
                (k, v)
            }
        })
        .collect();
    let resp = response_from(&kv, None);
    assert_eq!(decode_full_stat(&resp), Err(QueryError::NumericDecodeError));
}

#[test]
fn truncated_header_is_malformed() {
    let resp = vec![0x00u8, 0x01, 0x02];
    assert_eq!(
        decode_full_stat(&resp),
        Err(QueryError::MalformedPayload(PayloadFault::Shape))
    );
}

#[test]
fn decode_full_stat_twice_is_idempotent() {
    let resp = response_from(&all_keys(), Some(&["Alice", "Bob"]));
    assert_eq!(decode_full_stat(&resp), decode_full_stat(&resp));
}
