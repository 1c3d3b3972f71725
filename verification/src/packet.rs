//! Fixed protocol constants: packet-type bytes, the query magic, the RakNet
//! offline-message id, and the marker that opens the player section of a
//! Full-Stat response.

use vstd::prelude::*;

verus! {

/// The 2-byte magic that begins every query-protocol request.
pub const MAGIC: u16 = 0xFEFD;

/// Packet type of the challenge handshake.
pub const HANDSHAKE: u8 = 0x09;

/// Packet type of the Basic-Stat and Full-Stat exchanges.
pub const STAT: u8 = 0x00;

/// Packet id of a RakNet unconnected ping.
pub const UNCONNECTED_PING: u8 = 0x01;

/// The fixed 16-byte offline-message data id every RakNet unconnected ping
/// carries.
pub open spec fn offline_message_id() -> Seq<u8> {
    seq![
        0x00u8, 0xff, 0xff, 0x00, 0xfe, 0xfe, 0xfe, 0xfe, 0xfd, 0xfd, 0xfd, 0xfd, 0x12, 0x34,
        0x56, 0x78,
    ]
}

/// Appends the RakNet offline-message data id to `out`.
pub fn push_offline_message_id(out: &mut Vec<u8>)
    ensures
        final(out)@ == old(out)@ + offline_message_id(),
{
    out.push(0x00);
    out.push(0xff);
    out.push(0xff);
    out.push(0x00);
    out.push(0xfe);
    out.push(0xfe);
    out.push(0xfe);
    out.push(0xfe);
    out.push(0xfd);
    out.push(0xfd);
    out.push(0xfd);
    out.push(0xfd);
    out.push(0x12);
    out.push(0x34);
    out.push(0x56);
    out.push(0x78);
    assert(out@ =~= old(out)@ + offline_message_id());
}

/// The marker that separates the key/value section of a Full-Stat response
/// from the player-name section that follows it.
pub open spec fn player_key() -> Seq<u8> {
    seq![0x00u8, 0x01, 0x70, 0x6c, 0x61, 0x79, 0x65, 0x72, 0x5f, 0x00, 0x00]
}

/// The player-section marker, as bytes.
pub fn player_key_bytes() -> (r: Vec<u8>)
    ensures
        r@ == player_key(),
{
    let r: Vec<u8> = vec![0x00u8, 0x01, 0x70, 0x6c, 0x61, 0x79, 0x65, 0x72, 0x5f, 0x00, 0x00];
    proof {
        assert(r@ =~= player_key());
    }
    r
}

} // verus!
