//! Query Stat codec, short form: builds Basic-Stat and Full-Stat requests and
//! decodes the Basic-Stat response.
//!
//! A Basic-Stat response carries, after the type byte and four session-echo
//! bytes, five null-terminated ASCII fields in fixed order (motd, game type,
//! map, players, max players), then the host port as a 16-bit little-endian
//! integer — the only little-endian field in the protocol — and finally the
//! null-terminated host ip.

use vstd::prelude::*;
use crate::decimal::{parse_unsigned, parse_usize};
use crate::endian::{i32_be, push_i32_be, push_u16_be, u16_be, u16_from_le, u16_le, read_u16_le};
use crate::handshake::{mask_session, masked_session};
use crate::model::{PayloadFault, QueryError, ShortQuery};
use crate::packet;
use crate::text::{bytes_to_string, lossy_of};
use crate::utils::{copy_range, find_byte, find_byte_from, lemma_find_byte, lemma_find_byte_exact};

verus! {

/// The bytes of a Stat request: the query magic, the stat packet type, the
/// masked session id and the challenge token in big-endian, and — only for
/// the long (Full-Stat) form — four zero padding bytes.
pub open spec fn stat_request_bytes(sid: i32, challenge_token: i32, long: bool) -> Seq<u8> {
    u16_be(packet::MAGIC) + seq![packet::STAT] + i32_be(masked_session(sid)) + i32_be(
        challenge_token,
    ) + if long {
        seq![0u8, 0u8, 0u8, 0u8]
    } else {
        Seq::<u8>::empty()
    }
}

/// Builds a Stat request for the given session id and challenge token. The
/// four zero padding bytes appended when `long` is set select the Full-Stat
/// response format.
pub fn encode_stat_request(session_id: i32, challenge_token: i32, long: bool) -> (r: Vec<u8>)
    ensures
        r@ == stat_request_bytes(session_id, challenge_token, long),
        r@.len() == if long { 15int } else { 11int },
{
    let mut r: Vec<u8> = Vec::new();
    push_u16_be(&mut r, packet::MAGIC);
    r.push(packet::STAT);
    push_i32_be(&mut r, mask_session(session_id));
    push_i32_be(&mut r, challenge_token);
    if long {
        r.push(0u8);
        r.push(0u8);
        r.push(0u8);
        r.push(0u8);
    }
    proof {
        assert(r@ =~= stat_request_bytes(session_id, challenge_token, long));
    }
    r
}

/// The null-terminated token starting at `pos`: its bytes and the position
/// just past its terminator, or `None` when no null byte follows `pos`.
pub open spec fn token_at(s: Seq<u8>, pos: int) -> Option<(Seq<u8>, int)> {
    match find_byte(s.skip(pos), 0) {
        Some(i) => Some((s.subrange(pos, pos + i), pos + i + 1)),
        None => None,
    }
}

/// Reads the null-terminated token starting at `pos`.
pub fn take_token(s: &[u8], pos: usize) -> (r: Option<(Vec<u8>, usize)>)
    requires
        pos <= s@.len(),
    ensures
        match token_at(s@, pos as int) {
            Some((t, np)) => {
                &&& r matches Some(p)
                &&& (r->Some_0).0@ == t
                &&& (r->Some_0).1 == np
                &&& np <= s@.len()
            },
            None => r is None,
        },
{
    let n = s.len();
    proof {
        lemma_find_byte(s@.skip(pos as int), 0);
    }
    match find_byte_from(s, 0, pos) {
        Some(i) => {
            assert(pos <= i < n);
            let t = copy_range(s, pos, i);
            Some((t, i + 1))
        },
        None => None,
    }
}

/// The byte-level fields of a Basic-Stat response, before text conversion.
pub struct BasicFields {
    pub motd: Seq<u8>,
    pub gametype: Seq<u8>,
    pub map_name: Seq<u8>,
    pub players: usize,
    pub max_players: usize,
    pub host_port: u16,
    pub host_ip: Seq<u8>,
}

/// How a Basic-Stat response parses, field by field in reading order: a wrong
/// leading byte is a protocol mismatch; a missing token or missing port bytes
/// are a shape fault; a player-count field that is not a decimal number is a
/// numeric fault.
pub open spec fn basic_fields_of(resp: Seq<u8>) -> Result<BasicFields, QueryError> {
    if resp.len() == 0 {
        Err(QueryError::MalformedPayload(PayloadFault::Shape))
    } else if resp[0] != packet::STAT {
        Err(QueryError::ProtocolMismatch { expected: packet::STAT, received: resp[0] })
    } else if resp.len() < 5 {
        Err(QueryError::MalformedPayload(PayloadFault::Shape))
    } else {
        match token_at(resp, 5) {
            None => Err(QueryError::MalformedPayload(PayloadFault::Shape)),
            Some((motd, p1)) => match token_at(resp, p1) {
                None => Err(QueryError::MalformedPayload(PayloadFault::Shape)),
                Some((gametype, p2)) => match token_at(resp, p2) {
                    None => Err(QueryError::MalformedPayload(PayloadFault::Shape)),
                    Some((map_name, p3)) => match token_at(resp, p3) {
                        None => Err(QueryError::MalformedPayload(PayloadFault::Shape)),
                        Some((players_t, p4)) => match parse_unsigned(players_t) {
                            None => Err(QueryError::NumericDecodeError),
                            Some(players) => match token_at(resp, p4) {
                                None => Err(QueryError::MalformedPayload(PayloadFault::Shape)),
                                Some((max_players_t, p5)) => match parse_unsigned(max_players_t) {
                                    None => Err(QueryError::NumericDecodeError),
                                    Some(max_players) => if p5 + 2 > resp.len() {
                                        Err(QueryError::MalformedPayload(PayloadFault::Shape))
                                    } else {
                                        match token_at(resp, p5 + 2) {
                                            None => Err(
                                                QueryError::MalformedPayload(PayloadFault::Shape),
                                            ),
                                            Some((host_ip, _)) => Ok(
                                                BasicFields {
                                                    motd,
                                                    gametype,
                                                    map_name,
                                                    players,
                                                    max_players,
                                                    host_port: u16_from_le(resp[p5], resp[p5 + 1]),
                                                    host_ip,
                                                },
                                            ),
                                        }
                                    },
                                },
                            },
                        },
                    },
                },
            },
        }
    }
}

/// How a Basic-Stat response decodes: the outcome `basic_fields_of` gives,
/// with every text field read lossily from its byte token.
pub open spec fn basic_decode_matches(resp: Seq<u8>, r: Result<ShortQuery, QueryError>) -> bool {
    match basic_fields_of(resp) {
        Err(e) => r == Err::<ShortQuery, QueryError>(e),
        Ok(f) => {
            &&& r is Ok
            &&& (r->Ok_0).motd@ == lossy_of(f.motd)
            &&& (r->Ok_0).gametype@ == lossy_of(f.gametype)
            &&& (r->Ok_0).map@ == lossy_of(f.map_name)
            &&& (r->Ok_0).players == f.players
            &&& (r->Ok_0).max_players == f.max_players
            &&& (r->Ok_0).host_port == f.host_port
            &&& (r->Ok_0).host_ip@ == lossy_of(f.host_ip)
        },
    }
}

/// Decodes a Basic-Stat response.
pub fn decode_basic_stat(resp: &[u8]) -> (r: Result<ShortQuery, QueryError>)
    ensures
        basic_decode_matches(resp@, r),
{
    if resp.len() == 0 {
        return Err(QueryError::MalformedPayload(PayloadFault::Shape));
    }
    if resp[0] != packet::STAT {
        return Err(QueryError::ProtocolMismatch { expected: packet::STAT, received: resp[0] });
    }
    if resp.len() < 5 {
        return Err(QueryError::MalformedPayload(PayloadFault::Shape));
    }
    let (motd_b, p1) = match take_token(resp, 5) {
        Some(p) => p,
        None => {
            return Err(QueryError::MalformedPayload(PayloadFault::Shape));
        },
    };
    let (gametype_b, p2) = match take_token(resp, p1) {
        Some(p) => p,
        None => {
            return Err(QueryError::MalformedPayload(PayloadFault::Shape));
        },
    };
    let (map_b, p3) = match take_token(resp, p2) {
        Some(p) => p,
        None => {
            return Err(QueryError::MalformedPayload(PayloadFault::Shape));
        },
    };
    let (players_b, p4) = match take_token(resp, p3) {
        Some(p) => p,
        None => {
            return Err(QueryError::MalformedPayload(PayloadFault::Shape));
        },
    };
    let players = match parse_usize(players_b.as_slice()) {
        Some(v) => v,
        None => {
            return Err(QueryError::NumericDecodeError);
        },
    };
    let (max_players_b, p5) = match take_token(resp, p4) {
        Some(p) => p,
        None => {
            return Err(QueryError::MalformedPayload(PayloadFault::Shape));
        },
    };
    let max_players = match parse_usize(max_players_b.as_slice()) {
        Some(v) => v,
        None => {
            return Err(QueryError::NumericDecodeError);
        },
    };
    if p5 > resp.len() - 2 {
        return Err(QueryError::MalformedPayload(PayloadFault::Shape));
    }
    let host_port = read_u16_le(resp[p5], resp[p5 + 1]);
    let (ip_b, _p6) = match take_token(resp, p5 + 2) {
        Some(p) => p,
        None => {
            return Err(QueryError::MalformedPayload(PayloadFault::Shape));
        },
    };
    Ok(
        ShortQuery {
            motd: bytes_to_string(motd_b.as_slice()),
            gametype: bytes_to_string(gametype_b.as_slice()),
            map: bytes_to_string(map_b.as_slice()),
            players,
            max_players,
            host_port,
            host_ip: bytes_to_string(ip_b.as_slice()),
        },
    )
}

/// Whether two Basic-Stat records agree in every observable field.
pub open spec fn short_view_eq(a: ShortQuery, b: ShortQuery) -> bool {
    &&& a.motd@ == b.motd@
    &&& a.gametype@ == b.gametype@
    &&& a.map@ == b.map@
    &&& a.players == b.players
    &&& a.max_players == b.max_players
    &&& a.host_port == b.host_port
    &&& a.host_ip@ == b.host_ip@
}

/// Decoding a Basic-Stat response is deterministic: two decodes of the same
/// immutable buffer agree — equal errors, or records that agree in every
/// field.
pub proof fn lemma_basic_deterministic(
    resp: Seq<u8>,
    r1: Result<ShortQuery, QueryError>,
    r2: Result<ShortQuery, QueryError>,
)
    requires
        basic_decode_matches(resp, r1),
        basic_decode_matches(resp, r2),
    ensures
        r1 is Ok <==> r2 is Ok,
        r1 is Err ==> r1 == r2,
        r1 is Ok ==> short_view_eq(r1->Ok_0, r2->Ok_0),
{
}

/// Whether `t` starts at `pos` in `s` and is followed there by a null byte,
/// with no null byte inside `t` itself.
pub open spec fn null_terminated_at(s: Seq<u8>, pos: int, t: Seq<u8>) -> bool {
    &&& 0 <= pos
    &&& pos + t.len() + 1 <= s.len()
    &&& forall|j: int| 0 <= j < t.len() ==> s[pos + j] == t[j]
    &&& forall|j: int| 0 <= j < t.len() ==> t[j] != 0
    &&& s[pos + t.len()] == 0
}

/// Reading the token at `pos` recovers exactly a null-free token laid down at
/// `pos` and terminated by a null byte.
pub proof fn lemma_token_at_exact(s: Seq<u8>, pos: int, t: Seq<u8>)
    requires
        null_terminated_at(s, pos, t),
    ensures
        token_at(s, pos) == Some((t, pos + t.len() + 1)),
{
    let tail = s.skip(pos);
    assert(tail[t.len() as int] == 0);
    assert forall|j: int| 0 <= j < t.len() implies tail[j] != 0 by {
        assert(tail[j] == s[pos + j]);
        assert(s[pos + j] == t[j]);
    }
    lemma_find_byte_exact(tail, 0, t.len() as int);
    assert(s.subrange(pos, pos + t.len() as int) =~= t);
}

/// The bytes of a well-formed Basic-Stat response: the stat type byte, four
/// session-echo bytes, the five null-terminated fields in order, the port in
/// little-endian, and the null-terminated host ip.
pub open spec fn basic_stat_wire(
    echo: Seq<u8>,
    motd: Seq<u8>,
    gametype: Seq<u8>,
    map_name: Seq<u8>,
    players_digits: Seq<u8>,
    max_players_digits: Seq<u8>,
    port: u16,
    ip: Seq<u8>,
) -> Seq<u8> {
    seq![packet::STAT] + echo + motd + seq![0u8] + gametype + seq![0u8] + map_name + seq![0u8]
        + players_digits + seq![0u8] + max_players_digits + seq![0u8] + u16_le(port) + ip
        + seq![0u8]
}

/// Whether no byte of `s` is null.
pub open spec fn null_free(s: Seq<u8>) -> bool {
    forall|j: int| 0 <= j < s.len() ==> s[j] != 0
}

/// Round trip: parsing a well-formed Basic-Stat response recovers every field
/// byte-exactly — including the little-endian port.
pub proof fn lemma_basic_stat_round_trip(
    echo: Seq<u8>,
    motd: Seq<u8>,
    gametype: Seq<u8>,
    map_name: Seq<u8>,
    players_digits: Seq<u8>,
    max_players_digits: Seq<u8>,
    port: u16,
    ip: Seq<u8>,
)
    requires
        echo.len() == 4,
        null_free(motd),
        null_free(gametype),
        null_free(map_name),
        null_free(ip),
        parse_unsigned(players_digits) is Some,
        parse_unsigned(max_players_digits) is Some,
    ensures
        ({
            let wire = basic_stat_wire(
                echo,
                motd,
                gametype,
                map_name,
                players_digits,
                max_players_digits,
                port,
                ip,
            );
            basic_fields_of(wire) matches Ok(f) && f.motd == motd && f.gametype == gametype
                && f.map_name == map_name && Some(f.players) == parse_unsigned(players_digits)
                && Some(f.max_players) == parse_unsigned(max_players_digits) && f.host_port == port
                && f.host_ip == ip
        }),
{
    let wire = basic_stat_wire(
        echo,
        motd,
        gametype,
        map_name,
        players_digits,
        max_players_digits,
        port,
        ip,
    );
    crate::decimal::lemma_digits_null_free(players_digits);
    crate::decimal::lemma_digits_null_free(max_players_digits);
    let p0: int = 5;
    let p1 = p0 + motd.len() + 1;
    let p2 = p1 + gametype.len() + 1;
    let p3 = p2 + map_name.len() + 1;
    let p4 = p3 + players_digits.len() + 1;
    let p5 = p4 + max_players_digits.len() + 1;
    let p6 = p5 + 2;
    assert(wire.len() == p6 + ip.len() + 1);
    assert(wire[0] == packet::STAT);
    assert(null_terminated_at(wire, p0, motd));
    lemma_token_at_exact(wire, p0, motd);
    assert(null_terminated_at(wire, p1, gametype));
    lemma_token_at_exact(wire, p1, gametype);
    assert(null_terminated_at(wire, p2, map_name));
    lemma_token_at_exact(wire, p2, map_name);
    assert(null_terminated_at(wire, p3, players_digits));
    lemma_token_at_exact(wire, p3, players_digits);
    assert(null_terminated_at(wire, p4, max_players_digits));
    lemma_token_at_exact(wire, p4, max_players_digits);
    assert(wire[p5] == u16_le(port)[0]);
    assert(wire[p5 + 1] == u16_le(port)[1]);
    assert(u16_from_le(u16_le(port)[0], u16_le(port)[1]) == port);
    assert(null_terminated_at(wire, p6, ip));
    lemma_token_at_exact(wire, p6, ip);
}

} // verus!
