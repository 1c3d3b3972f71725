//! Codec and orchestration logic for querying running game servers over UDP:
//! RakNet unconnected ping/pong discovery, and the GS4/UT3 "query" protocol
//! (challenge handshake, Basic-Stat and Full-Stat exchanges).
//!
//! The library is pure: it builds request datagrams and decodes response
//! datagrams handed in as byte slices. Sending and receiving is left to the
//! caller.

pub mod decimal;
pub mod endian;
pub mod fullstat;
pub mod handshake;
pub mod model;
pub mod packet;
pub mod raknet;
pub mod session;
pub mod stat;
pub mod text;
pub mod utils;
