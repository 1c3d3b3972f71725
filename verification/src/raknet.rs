//! RakNet discovery codec: builds an unconnected-ping request and decodes the
//! unconnected-pong payload into a [`RakNetPong`] record.
//!
//! The pong payload carries a semicolon-separated ASCII section starting at a
//! fixed offset of 35 bytes (packet id, server time, server guid, magic, and a
//! 2-byte string-length prefix). Seven fields are mandatory; a ninth and later
//! fields are an extension some server builds omit.

use vstd::prelude::*;
use crate::decimal::{parse_unsigned, parse_usize};
use crate::endian::{i64_be, u64_be, push_i64_be, push_u64_be};
use crate::model::{PayloadFault, QueryError, RakNetPong};
use crate::packet;
use crate::text::{bytes_to_string, lossy_of};
use crate::utils::{split_bytes_from, split_on, views_of};

verus! {

/// The bytes of a RakNet unconnected-ping request: packet id `0x01`, the
/// timestamp in big-endian, the fixed offline-message id, and the client id
/// in big-endian.
pub open spec fn ping_bytes(client_id: u64, timestamp_ms: i64) -> Seq<u8> {
    seq![packet::UNCONNECTED_PING] + i64_be(timestamp_ms) + packet::offline_message_id()
        + u64_be(client_id)
}

/// Builds a RakNet unconnected-ping request for the given client id and
/// timestamp.
pub fn encode_ping(client_id: u64, timestamp_ms: i64) -> (r: Vec<u8>)
    ensures
        r@ == ping_bytes(client_id, timestamp_ms),
        r@.len() == 33,
{
    let mut r: Vec<u8> = Vec::new();
    r.push(packet::UNCONNECTED_PING);
    push_i64_be(&mut r, timestamp_ms);
    packet::push_offline_message_id(&mut r);
    push_u64_be(&mut r, client_id);
    proof {
        assert(r@ =~= ping_bytes(client_id, timestamp_ms));
    }
    r
}

/// The semicolon-separated fields of a pong payload's structured section,
/// which begins at byte 35.
pub open spec fn pong_fields(payload: Seq<u8>) -> Seq<Seq<u8>> {
    split_on(payload.skip(35), 0x3b)
}

/// Whether the three numeric pong fields (protocol version, player count,
/// maximum player count) all parse as unsigned decimal numbers.
pub open spec fn pong_numbers_parse(f: Seq<Seq<u8>>) -> bool {
    &&& parse_unsigned(f[2]) is Some
    &&& parse_unsigned(f[4]) is Some
    &&& parse_unsigned(f[5]) is Some
}

/// How a pong payload decodes. A payload with no structured section or fewer
/// than seven fields is malformed; a numeric field that does not parse is a
/// numeric decode failure; otherwise every field of the record is pinned to
/// its token, with the motd's second line and the game mode present exactly
/// when the payload has nine or more fields.
pub open spec fn pong_decode_matches(payload: Seq<u8>, r: Result<RakNetPong, QueryError>) -> bool {
    if payload.len() <= 35 {
        r == Err::<RakNetPong, QueryError>(QueryError::MalformedPayload(PayloadFault::Shape))
    } else {
        let f = pong_fields(payload);
        if f.len() < 7 {
            r == Err::<RakNetPong, QueryError>(QueryError::MalformedPayload(PayloadFault::Shape))
        } else if !pong_numbers_parse(f) {
            r == Err::<RakNetPong, QueryError>(QueryError::NumericDecodeError)
        } else {
            &&& r is Ok
            &&& (r->Ok_0).game_edition@ == lossy_of(f[0])
            &&& (r->Ok_0).protocol_version == parse_unsigned(f[2])->Some_0
            &&& (r->Ok_0).game_version@ == lossy_of(f[3])
            &&& (r->Ok_0).player_count == parse_unsigned(f[4])->Some_0
            &&& (r->Ok_0).max_player_count == parse_unsigned(f[5])->Some_0
            &&& (r->Ok_0).server_uid@ == lossy_of(f[6])
            &&& if f.len() >= 9 {
                &&& (r->Ok_0).motd@.len() == 2
                &&& (r->Ok_0).motd@[0]@ == lossy_of(f[1])
                &&& (r->Ok_0).motd@[1]@ == lossy_of(f[7])
                &&& (r->Ok_0).game_mode matches Some(g) && g@ == lossy_of(f[8])
            } else {
                &&& (r->Ok_0).motd@.len() == 1
                &&& (r->Ok_0).motd@[0]@ == lossy_of(f[1])
                &&& (r->Ok_0).game_mode is None
            }
            &&& (r->Ok_0).game_mode_integer is None
            &&& (r->Ok_0).port is None
            &&& (r->Ok_0).port_v6 is None
        }
    }
}

/// Decodes a RakNet unconnected-pong payload.
pub fn decode_pong(payload: &[u8]) -> (r: Result<RakNetPong, QueryError>)
    ensures
        pong_decode_matches(payload@, r),
{
    if payload.len() < 36 {
        return Err(QueryError::MalformedPayload(PayloadFault::Shape));
    }
    let fields = split_bytes_from(payload, 0x3b, 35);
    let ghost f = pong_fields(payload@);
    proof {
        assert(views_of(fields@) == f);
    }
    if fields.len() < 7 {
        return Err(QueryError::MalformedPayload(PayloadFault::Shape));
    }
    let protocol_version = match parse_usize(fields[2].as_slice()) {
        Some(v) => v,
        None => {
            return Err(QueryError::NumericDecodeError);
        },
    };
    let player_count = match parse_usize(fields[4].as_slice()) {
        Some(v) => v,
        None => {
            return Err(QueryError::NumericDecodeError);
        },
    };
    let max_player_count = match parse_usize(fields[5].as_slice()) {
        Some(v) => v,
        None => {
            return Err(QueryError::NumericDecodeError);
        },
    };
    let game_edition = bytes_to_string(fields[0].as_slice());
    let game_version = bytes_to_string(fields[3].as_slice());
    let server_uid = bytes_to_string(fields[6].as_slice());
    let mut motd: Vec<String> = Vec::new();
    motd.push(bytes_to_string(fields[1].as_slice()));
    let mut game_mode: Option<String> = None;
    if fields.len() >= 9 {
        motd.push(bytes_to_string(fields[7].as_slice()));
        game_mode = Some(bytes_to_string(fields[8].as_slice()));
    }
    Ok(
        RakNetPong {
            game_edition,
            motd,
            protocol_version,
            game_version,
            player_count,
            max_player_count,
            server_uid,
            game_mode,
            game_mode_integer: None,
            port: None,
            port_v6: None,
        },
    )
}

/// A pong payload with fewer than nine fields decodes with a single motd line
/// and no game mode; one with nine or more yields the ninth field as the game
/// mode and the eighth as a second motd line.
pub proof fn lemma_pong_field_count(payload: Seq<u8>, r: Result<RakNetPong, QueryError>)
    requires
        pong_decode_matches(payload, r),
        r is Ok,
    ensures
        pong_fields(payload).len() >= 7,
        pong_fields(payload).len() < 9 ==> (r->Ok_0).game_mode is None && (r->Ok_0).motd@.len()
            == 1,
        pong_fields(payload).len() >= 9 ==> ((r->Ok_0).game_mode matches Some(g) && g@ == lossy_of(
            pong_fields(payload)[8],
        )) && (r->Ok_0).motd@.len() == 2 && (r->Ok_0).motd@[1]@ == lossy_of(
            pong_fields(payload)[7],
        ),
{
}

/// Whether two pong records agree in every observable field.
pub open spec fn pong_view_eq(a: RakNetPong, b: RakNetPong) -> bool {
    &&& a.game_edition@ == b.game_edition@
    &&& a.motd@.len() == b.motd@.len()
    &&& forall|i: int| 0 <= i < a.motd@.len() ==> a.motd@[i]@ == b.motd@[i]@
    &&& a.protocol_version == b.protocol_version
    &&& a.game_version@ == b.game_version@
    &&& a.player_count == b.player_count
    &&& a.max_player_count == b.max_player_count
    &&& a.server_uid@ == b.server_uid@
    &&& a.game_mode is Some <==> b.game_mode is Some
    &&& a.game_mode matches Some(g) ==> b.game_mode matches Some(h) && g@ == h@
    &&& a.game_mode_integer == b.game_mode_integer
    &&& a.port == b.port
    &&& a.port_v6 == b.port_v6
}

/// Decoding a pong payload is deterministic: the same immutable payload can
/// only decode to one outcome, so two decodes agree — equal errors, or
/// records that agree in every field.
pub proof fn lemma_pong_deterministic(
    payload: Seq<u8>,
    r1: Result<RakNetPong, QueryError>,
    r2: Result<RakNetPong, QueryError>,
)
    requires
        pong_decode_matches(payload, r1),
        pong_decode_matches(payload, r2),
    ensures
        r1 is Ok <==> r2 is Ok,
        r1 is Err ==> r1 == r2,
        r1 is Ok ==> pong_view_eq(r1->Ok_0, r2->Ok_0),
{
    if r1 is Ok {
        let f = pong_fields(payload);
        if f.len() >= 9 {
            assert((r1->Ok_0).motd@[0]@ == (r2->Ok_0).motd@[0]@);
            assert((r1->Ok_0).motd@[1]@ == (r2->Ok_0).motd@[1]@);
        }
    }
}

} // verus!
