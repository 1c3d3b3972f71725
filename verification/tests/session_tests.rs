use rsquery::handshake::encode_handshake;
use rsquery::model::QueryError;
use rsquery::raknet::encode_ping;
use rsquery::session::{DiscoverySession, StatSession};
use rsquery::stat::encode_stat_request;

fn basic_stat_response() -> Vec<u8> {
    let mut resp: Vec<u8> = vec![0x00, 0, 0, 0, 0];
    resp.extend_from_slice(b"motd\0SMP\0world\03\08\0");
    resp.extend_from_slice(&[0x9d, 0x4a]);
    resp.extend_from_slice(b"127.0.0.1\0");
    resp
}

#[test]
fn discovery_session_runs_one_exchange() {
    let mut session = DiscoverySession::new();
    let request = session.ping_request(7, 1000);
    assert_eq!(request, encode_ping(7, 1000));
    let mut pong = vec![0u8; 35];
    pong.extend_from_slice(b"MCPE;Lobby;422;1.18;0;10;42");
    let r = session.finish(&pong).unwrap();
    assert_eq!(r.game_edition, "MCPE");
}

#[test]
fn stat_session_runs_handshake_then_stat() {
    let session_id = 0x01020304;
    let mut session = StatSession::new(session_id, false);
    let handshake = session.handshake_request();
    assert_eq!(handshake, encode_handshake(session_id));
    let challenge = [0x09u8, 0, 0, 0, 0, b'4', b'2', 0x00];
    let stat_request = session.stat_request(&challenge).unwrap();
    assert_eq!(stat_request, encode_stat_request(session_id, 42, false));
    let r = session.finish_short(&basic_stat_response()).unwrap();
    assert_eq!(r.players, 3);
    assert_eq!(r.max_players, 8);
    assert_eq!(r.host_port, 0x4a9d);
}

#[test]
fn stat_session_aborts_on_handshake_failure() {
    let mut session = StatSession::new(5, true);
    let _ = session.handshake_request();
    // A response that is not a handshake packet aborts the query before any
    // stat request exists.
    let wrong = [0x00u8, 0, 0, 0, 0, b'4', b'2', 0x00];
    assert_eq!(
        session.stat_request(&wrong),
        Err(QueryError::ProtocolMismatch { expected: 0x09, received: 0x00 })
    );
}
