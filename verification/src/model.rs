//! The records a query yields, and the errors a decode can raise.
//!
//! All result records are plain value types: they hold no reference to the
//! session, the socket, or the raw response buffer.

use vstd::prelude::*;

verus! {

/// The record decoded from a RakNet unconnected-pong payload.
///
/// `game_mode` is present only in the extended response dialect (nine or more
/// semicolon-separated fields), in which case `motd` also carries a second
/// line. `game_mode_integer`, `port` and `port_v6` are reserved for dialects
/// this decoder does not populate and are always absent.
#[derive(Debug, Clone, PartialEq, Eq)]
pub struct RakNetPong {
    pub game_edition: String,
    pub motd: Vec<String>,
    pub protocol_version: usize,
    pub game_version: String,
    pub player_count: usize,
    pub max_player_count: usize,
    pub server_uid: String,
    pub game_mode: Option<String>,
    pub game_mode_integer: Option<usize>,
    pub port: Option<u16>,
    pub port_v6: Option<u16>,
}

/// The record decoded from a Basic-Stat response. All fields are mandatory
/// and appear on the wire in fixed order.
#[derive(Debug, Clone, PartialEq, Eq)]
pub struct ShortQuery {
    pub motd: String,
    pub gametype: String,
    pub map: String,
    /// How many players are online at the time of the query.
    pub players: usize,
    pub max_players: usize,
    /// The port the server itself reports; stored little-endian on the wire.
    pub host_port: u16,
    pub host_ip: String,
}

/// The record decoded from a Full-Stat response: the values of the required
/// keys of the key/value section, plus the ordered list of connected player
/// names (possibly empty).
#[derive(Debug, Clone, PartialEq, Eq)]
pub struct LongQuery {
    pub server_software: String,
    pub plugins: String,
    pub version: String,
    pub whitelist: String,
    pub players: Vec<String>,
    pub player_count: usize,
    pub max_players: usize,
    pub game_name: String,
    pub game_mode: String,
    pub map_name: String,
    pub host_name: String,
    pub host_ip: String,
    pub host_port: u16,
}

/// A key the Full-Stat key/value section must contain.
#[derive(Debug, Clone, Copy, PartialEq, Eq, Structural)]
pub enum RequiredKey {
    ServerEngine,
    Plugins,
    Version,
    Whitelist,
    NumPlayers,
    MaxPlayers,
    GameId,
    GameType,
    MapName,
    Hostname,
    HostIp,
    HostPort,
}

/// What is wrong with a payload that fails to decode.
#[derive(Debug, Clone, Copy, PartialEq, Eq, Structural)]
pub enum PayloadFault {
    /// Field counts, delimiters, or the overall shape of the payload are wrong.
    Shape,
    /// A required key of the Full-Stat key/value section is absent.
    MissingKey(RequiredKey),
}

/// Why a decode failed. Transport failures are not represented here: they are
/// surfaced by the caller that owns the socket, before any decoder runs.
#[derive(Debug, Clone, Copy, PartialEq, Eq, Structural)]
pub enum QueryError {
    /// The leading packet-type byte is not the one the current exchange
    /// expects.
    ProtocolMismatch { expected: u8, received: u8 },
    /// The payload violates the field-count, delimiter, or required-key shape
    /// of its format.
    MalformedPayload(PayloadFault),
    /// A field that should hold a decimal integer does not parse as one.
    NumericDecodeError,
}

/// The wire name of a required Full-Stat key, in ASCII bytes.
pub open spec fn key_name(k: RequiredKey) -> Seq<u8> {
    match k {
        RequiredKey::ServerEngine => seq![
            0x73u8, 0x65, 0x72, 0x76, 0x65, 0x72, 0x5f, 0x65, 0x6e, 0x67, 0x69, 0x6e, 0x65,
        ],
        RequiredKey::Plugins => seq![0x70u8, 0x6c, 0x75, 0x67, 0x69, 0x6e, 0x73],
        RequiredKey::Version => seq![0x76u8, 0x65, 0x72, 0x73, 0x69, 0x6f, 0x6e],
        RequiredKey::Whitelist => seq![0x77u8, 0x68, 0x69, 0x74, 0x65, 0x6c, 0x69, 0x73, 0x74],
        RequiredKey::NumPlayers => seq![
            0x6eu8, 0x75, 0x6d, 0x70, 0x6c, 0x61, 0x79, 0x65, 0x72, 0x73,
        ],
        RequiredKey::MaxPlayers => seq![
            0x6du8, 0x61, 0x78, 0x70, 0x6c, 0x61, 0x79, 0x65, 0x72, 0x73,
        ],
        RequiredKey::GameId => seq![0x67u8, 0x61, 0x6d, 0x65, 0x5f, 0x69, 0x64],
        RequiredKey::GameType => seq![0x67u8, 0x61, 0x6d, 0x65, 0x74, 0x79, 0x70, 0x65],
        RequiredKey::MapName => seq![0x6du8, 0x61, 0x70],
        RequiredKey::Hostname => seq![0x68u8, 0x6f, 0x73, 0x74, 0x6e, 0x61, 0x6d, 0x65],
        RequiredKey::HostIp => seq![0x68u8, 0x6f, 0x73, 0x74, 0x69, 0x70],
        RequiredKey::HostPort => seq![0x68u8, 0x6f, 0x73, 0x74, 0x70, 0x6f, 0x72, 0x74],
    }
}

/// The wire name of a required Full-Stat key, as bytes.
pub fn key_bytes(k: RequiredKey) -> (r: Vec<u8>)
    ensures
        r@ == key_name(k),
{
    let r: Vec<u8> = match k {
        RequiredKey::ServerEngine => vec![
            0x73u8, 0x65, 0x72, 0x76, 0x65, 0x72, 0x5f, 0x65, 0x6e, 0x67, 0x69, 0x6e, 0x65,
        ],
        RequiredKey::Plugins => vec![0x70u8, 0x6c, 0x75, 0x67, 0x69, 0x6e, 0x73],
        RequiredKey::Version => vec![0x76u8, 0x65, 0x72, 0x73, 0x69, 0x6f, 0x6e],
        RequiredKey::Whitelist => vec![0x77u8, 0x68, 0x69, 0x74, 0x65, 0x6c, 0x69, 0x73, 0x74],
        RequiredKey::NumPlayers => vec![
            0x6eu8, 0x75, 0x6d, 0x70, 0x6c, 0x61, 0x79, 0x65, 0x72, 0x73,
        ],
        RequiredKey::MaxPlayers => vec![
            0x6du8, 0x61, 0x78, 0x70, 0x6c, 0x61, 0x79, 0x65, 0x72, 0x73,
        ],
        RequiredKey::GameId => vec![0x67u8, 0x61, 0x6d, 0x65, 0x5f, 0x69, 0x64],
        RequiredKey::GameType => vec![0x67u8, 0x61, 0x6d, 0x65, 0x74, 0x79, 0x70, 0x65],
        RequiredKey::MapName => vec![0x6du8, 0x61, 0x70],
        RequiredKey::Hostname => vec![0x68u8, 0x6f, 0x73, 0x74, 0x6e, 0x61, 0x6d, 0x65],
        RequiredKey::HostIp => vec![0x68u8, 0x6f, 0x73, 0x74, 0x69, 0x70],
        RequiredKey::HostPort => vec![0x68u8, 0x6f, 0x73, 0x74, 0x70, 0x6f, 0x72, 0x74],
    };
    proof {
        assert(r@ =~= key_name(k));
    }
    r
}

} // verus!
