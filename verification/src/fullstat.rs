//! Query Stat codec, long form: decodes the Full-Stat response.
//!
//! The payload after the 16-byte header splits in two at the player-section
//! marker: a key/value region of null-separated tokens alternating key and
//! value (an odd trailing token is dropped, a later pair wins over an earlier
//! one), and a player region of null-separated player names. When the marker
//! is absent the whole payload is the key/value region and the player list is
//! empty. The two parses are independent: each reads only its own region of
//! the shared immutable buffer.

use vstd::prelude::*;
use crate::decimal::{parse_unsigned, parse_unsigned16, parse_usize, parse_u16};
use crate::model::{key_name, key_bytes, LongQuery, PayloadFault, QueryError, RequiredKey};
use crate::packet;
use crate::text::{bytes_to_string, lossy_of, tokens_to_strings};
use crate::utils::{bytes_eq, find_sub, slice_index, split_bytes_from, split_on, views_of};

verus! {

/// The Full-Stat payload: everything after the type byte, the session echo,
/// and the padding header — 16 bytes in all.
pub open spec fn full_payload(resp: Seq<u8>) -> Seq<u8> {
    resp.skip(16)
}

/// Where the player-section marker first occurs in the payload, if anywhere.
pub open spec fn marker_pos(payload: Seq<u8>) -> Option<int> {
    find_sub(payload, packet::player_key())
}

/// The key/value region: the payload up to and including the first byte of
/// the marker, or the whole payload when the marker is absent.
pub open spec fn kv_region(payload: Seq<u8>) -> Seq<u8> {
    match marker_pos(payload) {
        Some(p) => payload.subrange(0, p + 1),
        None => payload,
    }
}

/// The player region: the bytes after the marker up to the last three bytes
/// of the payload (the section terminator); empty when the marker is absent
/// or the payload ends within three bytes of the marker.
pub open spec fn player_region(payload: Seq<u8>) -> Seq<u8> {
    match marker_pos(payload) {
        Some(p) => {
            if p + packet::player_key().len() <= payload.len() - 3 {
                payload.subrange(p + packet::player_key().len() as int, payload.len() - 3)
            } else {
                Seq::<u8>::empty()
            }
        },
        None => Seq::<u8>::empty(),
    }
}

/// The key/value tokens of a region: its null-separated tokens, with the
/// final token dropped when the count is odd, so that tokens pair up as key,
/// value, key, value.
pub open spec fn kv_tokens(region: Seq<u8>) -> Seq<Seq<u8>> {
    let ts = split_on(region, 0);
    if ts.len() % 2 == 1 {
        ts.drop_last()
    } else {
        ts
    }
}

/// The value paired with `key` in an even-length token list, the last pair
/// winning over earlier ones.
pub open spec fn kv_lookup(tokens: Seq<Seq<u8>>, key: Seq<u8>) -> Option<Seq<u8>>
    decreases tokens.len(),
{
    if tokens.len() < 2 {
        None
    } else if tokens[tokens.len() - 2] == key {
        Some(tokens[tokens.len() - 1])
    } else {
        kv_lookup(tokens.take(tokens.len() - 2), key)
    }
}

/// The player names of a region: its null-separated tokens with empty tokens
/// dropped, in the order the server sent them.
pub open spec fn player_names(region: Seq<u8>) -> Seq<Seq<u8>> {
    split_on(region, 0).filter(|t: Seq<u8>| t.len() > 0)
}

/// The value of a required key in the token list.
pub open spec fn kv_value(toks: Seq<Seq<u8>>, k: RequiredKey) -> Seq<u8> {
    kv_lookup(toks, key_name(k))->Some_0
}

/// The error a Full-Stat key/value section produces, if any, checking keys in
/// reading order: each required key must be present, and the three numeric
/// values (player count, max players, host port) must parse.
pub open spec fn full_error_of(toks: Seq<Seq<u8>>) -> Option<QueryError> {
    if kv_lookup(toks, key_name(RequiredKey::ServerEngine)) is None {
        Some(QueryError::MalformedPayload(PayloadFault::MissingKey(RequiredKey::ServerEngine)))
    } else if kv_lookup(toks, key_name(RequiredKey::Plugins)) is None {
        Some(QueryError::MalformedPayload(PayloadFault::MissingKey(RequiredKey::Plugins)))
    } else if kv_lookup(toks, key_name(RequiredKey::Version)) is None {
        Some(QueryError::MalformedPayload(PayloadFault::MissingKey(RequiredKey::Version)))
    } else if kv_lookup(toks, key_name(RequiredKey::Whitelist)) is None {
        Some(QueryError::MalformedPayload(PayloadFault::MissingKey(RequiredKey::Whitelist)))
    } else if kv_lookup(toks, key_name(RequiredKey::NumPlayers)) is None {
        Some(QueryError::MalformedPayload(PayloadFault::MissingKey(RequiredKey::NumPlayers)))
    } else if parse_unsigned(kv_value(toks, RequiredKey::NumPlayers)) is None {
        Some(QueryError::NumericDecodeError)
    } else if kv_lookup(toks, key_name(RequiredKey::MaxPlayers)) is None {
        Some(QueryError::MalformedPayload(PayloadFault::MissingKey(RequiredKey::MaxPlayers)))
    } else if parse_unsigned(kv_value(toks, RequiredKey::MaxPlayers)) is None {
        Some(QueryError::NumericDecodeError)
    } else if kv_lookup(toks, key_name(RequiredKey::GameId)) is None {
        Some(QueryError::MalformedPayload(PayloadFault::MissingKey(RequiredKey::GameId)))
    } else if kv_lookup(toks, key_name(RequiredKey::GameType)) is None {
        Some(QueryError::MalformedPayload(PayloadFault::MissingKey(RequiredKey::GameType)))
    } else if kv_lookup(toks, key_name(RequiredKey::MapName)) is None {
        Some(QueryError::MalformedPayload(PayloadFault::MissingKey(RequiredKey::MapName)))
    } else if kv_lookup(toks, key_name(RequiredKey::Hostname)) is None {
        Some(QueryError::MalformedPayload(PayloadFault::MissingKey(RequiredKey::Hostname)))
    } else if kv_lookup(toks, key_name(RequiredKey::HostIp)) is None {
        Some(QueryError::MalformedPayload(PayloadFault::MissingKey(RequiredKey::HostIp)))
    } else if kv_lookup(toks, key_name(RequiredKey::HostPort)) is None {
        Some(QueryError::MalformedPayload(PayloadFault::MissingKey(RequiredKey::HostPort)))
    } else if parse_unsigned16(kv_value(toks, RequiredKey::HostPort)) is None {
        Some(QueryError::NumericDecodeError)
    } else {
        None
    }
}

/// How a Full-Stat response decodes. The leading byte must be the stat packet
/// type and the response must reach past its 16-byte header; the key/value
/// section must hold every required key with its numeric values parsing; then
/// every field of the record is pinned to its token, and the player list to
/// the names of the player region.
pub open spec fn full_decode_matches(resp: Seq<u8>, r: Result<LongQuery, QueryError>) -> bool {
    if resp.len() == 0 {
        r == Err::<LongQuery, QueryError>(QueryError::MalformedPayload(PayloadFault::Shape))
    } else if resp[0] != packet::STAT {
        r == Err::<LongQuery, QueryError>(
            QueryError::ProtocolMismatch { expected: packet::STAT, received: resp[0] },
        )
    } else if resp.len() < 16 {
        r == Err::<LongQuery, QueryError>(QueryError::MalformedPayload(PayloadFault::Shape))
    } else {
        let payload = full_payload(resp);
        let toks = kv_tokens(kv_region(payload));
        let names = player_names(player_region(payload));
        match full_error_of(toks) {
            Some(e) => r == Err::<LongQuery, QueryError>(e),
            None => {
                &&& r is Ok
                &&& (r->Ok_0).server_software@ == lossy_of(kv_value(toks, RequiredKey::ServerEngine))
                &&& (r->Ok_0).plugins@ == lossy_of(kv_value(toks, RequiredKey::Plugins))
                &&& (r->Ok_0).version@ == lossy_of(kv_value(toks, RequiredKey::Version))
                &&& (r->Ok_0).whitelist@ == lossy_of(kv_value(toks, RequiredKey::Whitelist))
                &&& Some((r->Ok_0).player_count) == parse_unsigned(
                    kv_value(toks, RequiredKey::NumPlayers),
                )
                &&& Some((r->Ok_0).max_players) == parse_unsigned(
                    kv_value(toks, RequiredKey::MaxPlayers),
                )
                &&& (r->Ok_0).game_name@ == lossy_of(kv_value(toks, RequiredKey::GameId))
                &&& (r->Ok_0).game_mode@ == lossy_of(kv_value(toks, RequiredKey::GameType))
                &&& (r->Ok_0).map_name@ == lossy_of(kv_value(toks, RequiredKey::MapName))
                &&& (r->Ok_0).host_name@ == lossy_of(kv_value(toks, RequiredKey::Hostname))
                &&& (r->Ok_0).host_ip@ == lossy_of(kv_value(toks, RequiredKey::HostIp))
                &&& Some((r->Ok_0).host_port) == parse_unsigned16(
                    kv_value(toks, RequiredKey::HostPort),
                )
                &&& (r->Ok_0).players@.len() == names.len()
                &&& forall|i: int|
                    0 <= i < names.len() ==> #[trigger] (r->Ok_0).players@[i]@ == lossy_of(names[i])
            },
        }
    }
}

/// An odd token count drops exactly the final token and is not an error of
/// its own: the key/value tokens are the region's tokens without the last,
/// every lookup is a lookup among those pairs, and the section's outcome is
/// whatever outcome those pairs give.
pub proof fn lemma_odd_token_count(region: Seq<u8>, key: Seq<u8>)
    requires
        split_on(region, 0).len() % 2 == 1,
    ensures
        kv_tokens(region) == split_on(region, 0).drop_last(),
        kv_lookup(kv_tokens(region), key) == kv_lookup(split_on(region, 0).drop_last(), key),
        full_error_of(kv_tokens(region)) == full_error_of(split_on(region, 0).drop_last()),
{
}

/// No cross-contamination at the marker boundary. The key/value tokens come
/// from the bytes up to and including the marker's first byte alone, and the
/// player names from the bytes after the marker alone: two payloads of equal
/// length carrying the marker at the same position yield the same key/value
/// tokens whenever they agree up to the marker — whatever their player
/// sections hold — and the same player names whenever they agree after it.
pub proof fn lemma_marker_separates(a: Seq<u8>, b: Seq<u8>)
    requires
        marker_pos(a) is Some,
        marker_pos(a) == marker_pos(b),
        a.len() == b.len(),
    ensures
        a.subrange(0, marker_pos(a)->Some_0 + 1) == b.subrange(0, marker_pos(b)->Some_0 + 1)
            ==> kv_tokens(kv_region(a)) == kv_tokens(kv_region(b)),
        a.subrange(marker_pos(a)->Some_0 + 1, a.len() as int) == b.subrange(
            marker_pos(b)->Some_0 + 1,
            b.len() as int,
        ) ==> player_names(player_region(a)) == player_names(player_region(b)),
{
    let p = marker_pos(a)->Some_0;
    let k = packet::player_key().len() as int;
    crate::utils::lemma_find_sub(a, packet::player_key());
    assert(0 <= p && p + k <= a.len());
    if a.subrange(p + 1, a.len() as int) == b.subrange(p + 1, b.len() as int) {
        if p + k <= a.len() - 3 {
            assert forall|j: int| 0 <= j < player_region(a).len() implies #[trigger] player_region(
                a,
            )[j] == player_region(b)[j] by {
                assert(player_region(a)[j] == a[p + k + j]);
                assert(player_region(b)[j] == b[p + k + j]);
                assert(a.subrange(p + 1, a.len() as int)[p + k + j - (p + 1)] == a[p + k + j]);
                assert(b.subrange(p + 1, b.len() as int)[p + k + j - (p + 1)] == b[p + k + j]);
            }
            assert(player_region(a) =~= player_region(b));
        }
    }
}

/// Whether two Full-Stat records agree in every observable field.
pub open spec fn long_view_eq(a: LongQuery, b: LongQuery) -> bool {
    &&& a.server_software@ == b.server_software@
    &&& a.plugins@ == b.plugins@
    &&& a.version@ == b.version@
    &&& a.whitelist@ == b.whitelist@
    &&& a.players@.len() == b.players@.len()
    &&& forall|i: int| 0 <= i < a.players@.len() ==> a.players@[i]@ == b.players@[i]@
    &&& a.player_count == b.player_count
    &&& a.max_players == b.max_players
    &&& a.game_name@ == b.game_name@
    &&& a.game_mode@ == b.game_mode@
    &&& a.map_name@ == b.map_name@
    &&& a.host_name@ == b.host_name@
    &&& a.host_ip@ == b.host_ip@
    &&& a.host_port == b.host_port
}

/// Decoding a Full-Stat response is deterministic: two decodes of the same
/// immutable buffer agree — equal errors, or records that agree in every
/// field. The key/value parse and the player parse may therefore run
/// independently over the shared buffer and be combined afterwards.
pub proof fn lemma_full_deterministic(
    resp: Seq<u8>,
    r1: Result<LongQuery, QueryError>,
    r2: Result<LongQuery, QueryError>,
)
    requires
        full_decode_matches(resp, r1),
        full_decode_matches(resp, r2),
    ensures
        r1 is Ok <==> r2 is Ok,
        r1 is Err ==> r1 == r2,
        r1 is Ok ==> long_view_eq(r1->Ok_0, r2->Ok_0),
{
}

/// The player list of an empty region is empty.
proof fn lemma_player_names_empty()
    ensures
        player_names(Seq::<u8>::empty()) == Seq::<Seq<u8>>::empty(),
{
    reveal_with_fuel(Seq::<_>::filter, 3);
    let ts = split_on(Seq::<u8>::empty(), 0);
    assert(ts =~= seq![Seq::<u8>::empty()]);
    assert(ts.drop_last() =~= Seq::<Seq<u8>>::empty());
    assert(player_names(Seq::<u8>::empty()) =~= Seq::<Seq<u8>>::empty());
}

/// Looks a key up in the token list, scanning pairs from the end so that a
/// later pair wins.
fn lookup_key(tokens: &Vec<Vec<u8>>, key: &[u8]) -> (r: Option<Vec<u8>>)
    requires
        tokens@.len() % 2 == 0,
    ensures
        match kv_lookup(views_of(tokens@), key@) {
            Some(v) => r matches Some(x) && x@ == v,
            None => r is None,
        },
{
    let mut i: usize = tokens.len();
    proof {
        assert(views_of(tokens@).take(tokens@.len() as int) =~= views_of(tokens@));
    }
    while i >= 2
        invariant
            i <= tokens@.len(),
            i % 2 == 0,
            kv_lookup(views_of(tokens@), key@) == kv_lookup(
                views_of(tokens@).take(i as int),
                key@,
            ),
        decreases i,
    {
        if bytes_eq(tokens[i - 2].as_slice(), key) {
            let v = vstd::slice::slice_to_vec(tokens[i - 1].as_slice());
            proof {
                let ts = views_of(tokens@).take(i as int);
                assert(ts[ts.len() - 2] == key@);
                assert(kv_lookup(ts, key@) == Some(ts[ts.len() - 1]));
                assert(ts[ts.len() - 1] == tokens@[i - 1]@);
            }
            return Some(v);
        }
        proof {
            let ts = views_of(tokens@).take(i as int);
            assert(ts[ts.len() - 2] == tokens@[i - 2]@);
            assert(ts[ts.len() - 2] != key@);
            assert(kv_lookup(ts, key@) == kv_lookup(ts.take(ts.len() - 2), key@));
            assert(ts.take(ts.len() - 2) =~= views_of(tokens@).take(i - 2));
        }
        i -= 2;
    }
    proof {
        assert(kv_lookup(views_of(tokens@).take(i as int), key@) is None);
    }
    None
}

/// Splits a region into null-separated tokens and drops a trailing unpaired
/// token, as `kv_tokens` describes.
fn split_kv(region: &[u8]) -> (r: Vec<Vec<u8>>)
    ensures
        views_of(r@) == kv_tokens(region@),
        r@.len() % 2 == 0,
{
    let mut tokens = split_bytes_from(region, 0, 0);
    proof {
        assert(region@.skip(0) =~= region@);
        crate::utils::lemma_split_on_len(region@, 0);
    }
    if tokens.len() % 2 == 1 {
        tokens.pop();
        proof {
            assert(views_of(tokens@) =~= split_on(region@, 0).drop_last());
        }
    }
    tokens
}

/// Splits a player region into names: null-separated tokens with empty
/// tokens dropped, order preserved.
fn split_players(region: &[u8]) -> (r: Vec<Vec<u8>>)
    ensures
        views_of(r@) == player_names(region@),
{
    let tokens = split_bytes_from(region, 0, 0);
    proof {
        assert(region@.skip(0) =~= region@);
    }
    let ghost ts = split_on(region@, 0);
    let n = tokens.len();
    let mut r: Vec<Vec<u8>> = Vec::new();
    let mut i: usize = 0;
    proof {
        reveal(Seq::filter);
        assert(ts.take(0) =~= Seq::<Seq<u8>>::empty());
    }
    while i < n
        invariant
            n == tokens@.len(),
            i <= n,
            views_of(tokens@) == ts,
            views_of(r@) == ts.take(i as int).filter(|t: Seq<u8>| t.len() > 0),
        decreases n - i,
    {
        proof {
            reveal(Seq::filter);
            assert(ts.take(i + 1).drop_last() =~= ts.take(i as int));
            assert(ts.take(i + 1).last() == ts[i as int]);
        }
        if tokens[i].len() > 0 {
            let t = vstd::slice::slice_to_vec(tokens[i].as_slice());
            r.push(t);
            proof {
                assert(views_of(r@) =~= ts.take(i + 1).filter(|t: Seq<u8>| t.len() > 0));
            }
        } else {
            proof {
                assert(views_of(r@) =~= ts.take(i + 1).filter(|t: Seq<u8>| t.len() > 0));
            }
        }
        i += 1;
    }
    proof {
        assert(ts.take(n as int) =~= ts);
    }
    r
}

/// Decodes a Full-Stat response.
pub fn decode_full_stat(resp: &[u8]) -> (r: Result<LongQuery, QueryError>)
    ensures
        full_decode_matches(resp@, r),
{
    if resp.len() == 0 {
        return Err(QueryError::MalformedPayload(PayloadFault::Shape));
    }
    if resp[0] != packet::STAT {
        return Err(QueryError::ProtocolMismatch { expected: packet::STAT, received: resp[0] });
    }
    if resp.len() < 16 {
        return Err(QueryError::MalformedPayload(PayloadFault::Shape));
    }
    let payload = vstd::slice::slice_subrange(resp, 16, resp.len());
    proof {
        assert(payload@ =~= full_payload(resp@));
    }
    let marker = packet::player_key_bytes();
    let marker_at = slice_index(payload, marker.as_slice());

    // Key/value section.
    let kv_slice: &[u8] = match marker_at {
        Some(p) => vstd::slice::slice_subrange(payload, 0, p + 1),
        None => payload,
    };
    proof {
        assert(kv_slice@ == kv_region(payload@));
    }
    let tokens = split_kv(kv_slice);

    // Player section: decoded from its own region of the same buffer,
    // independently of the key/value parse.
    let players_b: Vec<Vec<u8>> = match marker_at {
        Some(p) => {
            if p + marker.len() <= payload.len() - 3 {
                let region = vstd::slice::slice_subrange(payload, p + marker.len(), payload.len() - 3);
                proof {
                    assert(region@ == player_region(payload@));
                }
                split_players(region)
            } else {
                proof {
                    assert(player_region(payload@) =~= Seq::<u8>::empty());
                    lemma_player_names_empty();
                }
                Vec::new()
            }
        },
        None => {
            proof {
                assert(player_region(payload@) =~= Seq::<u8>::empty());
                lemma_player_names_empty();
            }
            Vec::new()
        },
    };
    let players = tokens_to_strings(&players_b);

    let ghost toks = kv_tokens(kv_region(full_payload(resp@)));
    let server_software_b = match lookup_key(&tokens, key_bytes(RequiredKey::ServerEngine).as_slice()) {
        Some(v) => v,
        None => {
            return Err(QueryError::MalformedPayload(PayloadFault::MissingKey(RequiredKey::ServerEngine)));
        },
    };
    let plugins_b = match lookup_key(&tokens, key_bytes(RequiredKey::Plugins).as_slice()) {
        Some(v) => v,
        None => {
            return Err(QueryError::MalformedPayload(PayloadFault::MissingKey(RequiredKey::Plugins)));
        },
    };
    let version_b = match lookup_key(&tokens, key_bytes(RequiredKey::Version).as_slice()) {
        Some(v) => v,
        None => {
            return Err(QueryError::MalformedPayload(PayloadFault::MissingKey(RequiredKey::Version)));
        },
    };
    let whitelist_b = match lookup_key(&tokens, key_bytes(RequiredKey::Whitelist).as_slice()) {
        Some(v) => v,
        None => {
            return Err(QueryError::MalformedPayload(PayloadFault::MissingKey(RequiredKey::Whitelist)));
        },
    };
    let num_players_b = match lookup_key(&tokens, key_bytes(RequiredKey::NumPlayers).as_slice()) {
        Some(v) => v,
        None => {
            return Err(QueryError::MalformedPayload(PayloadFault::MissingKey(RequiredKey::NumPlayers)));
        },
    };
    let player_count = match parse_usize(num_players_b.as_slice()) {
        Some(v) => v,
        None => {
            return Err(QueryError::NumericDecodeError);
        },
    };
    let max_players_b = match lookup_key(&tokens, key_bytes(RequiredKey::MaxPlayers).as_slice()) {
        Some(v) => v,
        None => {
            return Err(QueryError::MalformedPayload(PayloadFault::MissingKey(RequiredKey::MaxPlayers)));
        },
    };
    let max_players = match parse_usize(max_players_b.as_slice()) {
        Some(v) => v,
        None => {
            return Err(QueryError::NumericDecodeError);
        },
    };
    let game_name_b = match lookup_key(&tokens, key_bytes(RequiredKey::GameId).as_slice()) {
        Some(v) => v,
        None => {
            return Err(QueryError::MalformedPayload(PayloadFault::MissingKey(RequiredKey::GameId)));
        },
    };
    let game_mode_b = match lookup_key(&tokens, key_bytes(RequiredKey::GameType).as_slice()) {
        Some(v) => v,
        None => {
            return Err(QueryError::MalformedPayload(PayloadFault::MissingKey(RequiredKey::GameType)));
        },
    };
    let map_name_b = match lookup_key(&tokens, key_bytes(RequiredKey::MapName).as_slice()) {
        Some(v) => v,
        None => {
            return Err(QueryError::MalformedPayload(PayloadFault::MissingKey(RequiredKey::MapName)));
        },
    };
    let host_name_b = match lookup_key(&tokens, key_bytes(RequiredKey::Hostname).as_slice()) {
        Some(v) => v,
        None => {
            return Err(QueryError::MalformedPayload(PayloadFault::MissingKey(RequiredKey::Hostname)));
        },
    };
    let host_ip_b = match lookup_key(&tokens, key_bytes(RequiredKey::HostIp).as_slice()) {
        Some(v) => v,
        None => {
            return Err(QueryError::MalformedPayload(PayloadFault::MissingKey(RequiredKey::HostIp)));
        },
    };
    let host_port_b = match lookup_key(&tokens, key_bytes(RequiredKey::HostPort).as_slice()) {
        Some(v) => v,
        None => {
            return Err(QueryError::MalformedPayload(PayloadFault::MissingKey(RequiredKey::HostPort)));
        },
    };
    let host_port = match parse_u16(host_port_b.as_slice()) {
        Some(v) => v,
        None => {
            return Err(QueryError::NumericDecodeError);
        },
    };
    Ok(
        LongQuery {
            server_software: bytes_to_string(server_software_b.as_slice()),
            plugins: bytes_to_string(plugins_b.as_slice()),
            version: bytes_to_string(version_b.as_slice()),
            whitelist: bytes_to_string(whitelist_b.as_slice()),
            players,
            player_count,
            max_players,
            game_name: bytes_to_string(game_name_b.as_slice()),
            game_mode: bytes_to_string(game_mode_b.as_slice()),
            map_name: bytes_to_string(map_name_b.as_slice()),
            host_name: bytes_to_string(host_name_b.as_slice()),
            host_ip: bytes_to_string(host_ip_b.as_slice()),
            host_port,
        },
    )
}

} // verus!
