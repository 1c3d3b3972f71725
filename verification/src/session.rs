//! Client orchestration, as state machines over the codecs. The caller owns
//! the transport: each method here consumes a received datagram and yields the
//! next datagram to send, or the decoded result. A discovery query is one
//! send and one receive; a stat query is a handshake exchange followed by a
//! stat exchange, aborted before the stat request whenever the handshake
//! fails. Neither machine retries: a failed query is reported whole, and the
//! caller may start over with a fresh session id.

use vstd::prelude::*;
use crate::fullstat::{decode_full_stat, full_decode_matches};
use crate::handshake::{challenge_outcome, decode_challenge, encode_handshake, handshake_bytes};
use crate::model::{LongQuery, QueryError, RakNetPong, ShortQuery};
use crate::raknet::{decode_pong, encode_ping, ping_bytes, pong_decode_matches};
use crate::stat::{basic_decode_matches, decode_basic_stat, encode_stat_request, stat_request_bytes};

verus! {

/// Where an exchange stands. Terminal states are `Done` and `Failed`; there
/// is no automatic retry or re-handshake.
#[derive(Debug, Clone, Copy, PartialEq, Eq, Structural)]
pub enum SessionState {
    /// Nothing sent yet.
    Idle,
    /// The ping is out; the pong is awaited.
    PingSent,
    /// The handshake request is out; the challenge is awaited.
    HandshakeSent,
    /// The stat request is out; the stat response is awaited.
    StatSent,
    /// The exchange yielded a record.
    Done,
    /// The exchange failed; the error was handed to the caller.
    Failed,
}

/// A discovery query: one RakNet ping, one pong.
#[derive(Debug)]
pub struct DiscoverySession {
    state: SessionState,
}

impl DiscoverySession {
    /// Where this exchange stands.
    pub closed spec fn spec_state(&self) -> SessionState {
        self.state
    }

    /// Begins a discovery query.
    pub fn new() -> (s: Self)
        ensures
            s.spec_state() == SessionState::Idle,
    {
        DiscoverySession { state: SessionState::Idle }
    }

    /// The ping to send, for the caller's client id and clock reading.
    pub fn ping_request(&mut self, client_id: u64, timestamp_ms: i64) -> (r: Vec<u8>)
        requires
            old(self).spec_state() == SessionState::Idle,
        ensures
            final(self).spec_state() == SessionState::PingSent,
            r@ == ping_bytes(client_id, timestamp_ms),
    {
        self.state = SessionState::PingSent;
        encode_ping(client_id, timestamp_ms)
    }

    /// Consumes the pong and finishes the exchange.
    pub fn finish(&mut self, resp: &[u8]) -> (r: Result<RakNetPong, QueryError>)
        requires
            old(self).spec_state() == SessionState::PingSent,
        ensures
            pong_decode_matches(resp@, r),
            r is Ok ==> final(self).spec_state() == SessionState::Done,
            r is Err ==> final(self).spec_state() == SessionState::Failed,
    {
        let r = decode_pong(resp);
        self.state = if r.is_ok() {
            SessionState::Done
        } else {
            SessionState::Failed
        };
        r
    }
}

/// A stat query, short or long: a handshake exchange, then a stat exchange,
/// correlated by one session id. The session id is masked only at encode
/// time; the unmasked value is the logical identifier.
#[derive(Debug)]
pub struct StatSession {
    session_id: i32,
    long: bool,
    state: SessionState,
}

impl StatSession {
    /// The session id this exchange correlates on.
    pub closed spec fn spec_session_id(&self) -> i32 {
        self.session_id
    }

    /// Whether this exchange asks for the Full-Stat form.
    pub closed spec fn spec_long(&self) -> bool {
        self.long
    }

    /// Where this exchange stands.
    pub closed spec fn spec_state(&self) -> SessionState {
        self.state
    }

    /// Begins a stat query under a fresh session id; `long` selects the
    /// Full-Stat form.
    pub fn new(session_id: i32, long: bool) -> (s: Self)
        ensures
            s.spec_state() == SessionState::Idle,
            s.spec_session_id() == session_id,
            s.spec_long() == long,
    {
        StatSession { session_id, long, state: SessionState::Idle }
    }

    /// The first step: the handshake request to send.
    pub fn handshake_request(&mut self) -> (r: Vec<u8>)
        requires
            old(self).spec_state() == SessionState::Idle,
        ensures
            final(self).spec_state() == SessionState::HandshakeSent,
            final(self).spec_session_id() == old(self).spec_session_id(),
            final(self).spec_long() == old(self).spec_long(),
            r@ == handshake_bytes(old(self).spec_session_id()),
    {
        self.state = SessionState::HandshakeSent;
        encode_handshake(self.session_id)
    }

    /// The second step: consumes the handshake response. On success the stat
    /// request to send comes back and the stat response is awaited; a
    /// handshake that fails aborts the query before any stat request exists.
    pub fn stat_request(&mut self, resp: &[u8]) -> (r: Result<Vec<u8>, QueryError>)
        requires
            old(self).spec_state() == SessionState::HandshakeSent,
        ensures
            final(self).spec_session_id() == old(self).spec_session_id(),
            final(self).spec_long() == old(self).spec_long(),
            match challenge_outcome(resp@) {
                Ok(t) => r matches Ok(req) && req@ == stat_request_bytes(
                    old(self).spec_session_id(),
                    t,
                    old(self).spec_long(),
                ) && final(self).spec_state() == SessionState::StatSent,
                Err(e) => r == Err::<Vec<u8>, QueryError>(e) && final(self).spec_state()
                    == SessionState::Failed,
            },
    {
        match decode_challenge(resp) {
            Ok(token) => {
                self.state = SessionState::StatSent;
                Ok(encode_stat_request(self.session_id, token, self.long))
            },
            Err(e) => {
                self.state = SessionState::Failed;
                Err(e)
            },
        }
    }

    /// The last step of the short form: consumes the Basic-Stat response.
    pub fn finish_short(&mut self, resp: &[u8]) -> (r: Result<ShortQuery, QueryError>)
        requires
            old(self).spec_state() == SessionState::StatSent,
            !old(self).spec_long(),
        ensures
            final(self).spec_session_id() == old(self).spec_session_id(),
            final(self).spec_long() == old(self).spec_long(),
            basic_decode_matches(resp@, r),
            r is Ok ==> final(self).spec_state() == SessionState::Done,
            r is Err ==> final(self).spec_state() == SessionState::Failed,
    {
        let r = decode_basic_stat(resp);
        self.state = if r.is_ok() {
            SessionState::Done
        } else {
            SessionState::Failed
        };
        r
    }

    /// The last step of the long form: consumes the Full-Stat response.
    pub fn finish_long(&mut self, resp: &[u8]) -> (r: Result<LongQuery, QueryError>)
        requires
            old(self).spec_state() == SessionState::StatSent,
            old(self).spec_long(),
        ensures
            final(self).spec_session_id() == old(self).spec_session_id(),
            final(self).spec_long() == old(self).spec_long(),
            full_decode_matches(resp@, r),
            r is Ok ==> final(self).spec_state() == SessionState::Done,
            r is Err ==> final(self).spec_state() == SessionState::Failed,
    {
        let r = decode_full_stat(resp);
        self.state = if r.is_ok() {
            SessionState::Done
        } else {
            SessionState::Failed
        };
        r
    }
}

} // verus!
