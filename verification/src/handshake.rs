//! Query handshake codec: builds the Handshake request for a session and
//! decodes the server's challenge token out of the response.
//!
//! The session id is masked with `0x0F0F0F0F` at encode time (the GS4
//! convention keeping every byte ASCII-safe); the unmasked value remains the
//! logical session identifier. The challenge token arrives as an
//! ASCII-decimal, null-terminated string starting at byte 5 of the response.

use vstd::prelude::*;
use crate::decimal::{parse_i32, parse_signed32};
use crate::endian::{i32_be, push_i32_be, push_u16_be, u16_be};
use crate::model::{PayloadFault, QueryError};
use crate::packet;
use crate::utils::copy_range;

verus! {

/// The session id as transmitted: masked to ASCII-safe nibble values.
pub open spec fn masked_session(sid: i32) -> i32 {
    sid & 0x0F0F0F0F
}

/// Masks a session id for transmission.
pub fn mask_session(sid: i32) -> (r: i32)
    ensures
        r == masked_session(sid),
        0 <= r <= 0x0F0F0F0F,
{
    let m = sid & 0x0F0F0F0F;
    proof {
        assert(sid & 0x0F0F0F0F >= 0 && sid & 0x0F0F0F0F <= 0x0F0F0F0F) by (bit_vector);
    }
    m
}

/// The bytes of a Handshake request: the query magic, the handshake packet
/// type, and the masked session id in big-endian.
pub open spec fn handshake_bytes(sid: i32) -> Seq<u8> {
    u16_be(packet::MAGIC) + seq![packet::HANDSHAKE] + i32_be(masked_session(sid))
}

/// Builds a Handshake request for the given session id.
pub fn encode_handshake(session_id: i32) -> (r: Vec<u8>)
    ensures
        r@ == handshake_bytes(session_id),
        r@.len() == 7,
{
    let mut r: Vec<u8> = Vec::new();
    push_u16_be(&mut r, packet::MAGIC);
    r.push(packet::HANDSHAKE);
    push_i32_be(&mut r, mask_session(session_id));
    proof {
        assert(r@ =~= handshake_bytes(session_id));
    }
    r
}

/// How a handshake response decodes. The leading byte must be the handshake
/// packet type; bytes 5 up to (but excluding) the final byte — the null
/// terminator — must hold an ASCII-decimal 32-bit integer, the challenge
/// token.
pub open spec fn challenge_outcome(resp: Seq<u8>) -> Result<i32, QueryError> {
    if resp.len() == 0 {
        Err(QueryError::MalformedPayload(PayloadFault::Shape))
    } else if resp[0] != packet::HANDSHAKE {
        Err(QueryError::ProtocolMismatch { expected: packet::HANDSHAKE, received: resp[0] })
    } else if resp.len() < 6 {
        Err(QueryError::MalformedPayload(PayloadFault::Shape))
    } else {
        match parse_signed32(resp.subrange(5, resp.len() - 1)) {
            Some(t) => Ok(t),
            None => Err(QueryError::NumericDecodeError),
        }
    }
}

/// Decodes the challenge token out of a handshake response.
pub fn decode_challenge(resp: &[u8]) -> (r: Result<i32, QueryError>)
    ensures
        r == challenge_outcome(resp@),
{
    if resp.len() == 0 {
        return Err(QueryError::MalformedPayload(PayloadFault::Shape));
    }
    if resp[0] != packet::HANDSHAKE {
        return Err(QueryError::ProtocolMismatch { expected: packet::HANDSHAKE, received: resp[0] });
    }
    if resp.len() < 6 {
        return Err(QueryError::MalformedPayload(PayloadFault::Shape));
    }
    let token = copy_range(resp, 5, resp.len() - 1);
    match parse_i32(token.as_slice()) {
        Some(t) => Ok(t),
        None => Err(QueryError::NumericDecodeError),
    }
}

/// Round trip: a handshake response made of the handshake type byte, four
/// session-echo bytes, an ASCII-decimal token, and a null terminator decodes
/// to exactly the token's value — whatever the session id the matching
/// request carried.
pub proof fn lemma_challenge_round_trip(digits: Seq<u8>, t: i32, session_id: i32)
    requires
        parse_signed32(digits) == Some(t),
    ensures
        handshake_bytes(session_id).len() == 7,
        challenge_outcome(
            seq![packet::HANDSHAKE, 0u8, 0u8, 0u8, 0u8] + digits + seq![0u8],
        ) == Ok::<i32, QueryError>(t),
{
    let resp = seq![packet::HANDSHAKE, 0u8, 0u8, 0u8, 0u8] + digits + seq![0u8];
    assert(parse_signed32(digits) is Some ==> digits.len() > 0);
    assert(resp.subrange(5, resp.len() - 1) =~= digits);
}

} // verus!
