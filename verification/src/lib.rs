//! A leech-only BitTorrent download engine.
//!
//! The crate covers the peer wire protocol (handshake, framed message codec,
//! per-peer session state) and the piece work distribution and
//! integrity-verification pipeline.  Networking and file I/O live outside the
//! library; every function here is a pure computation over plain values with a
//! verified contract.

pub mod bitfield;
pub mod block;
pub mod client;
pub mod counting;
pub mod download;
pub mod error;
pub mod handshake;
pub mod hashing;
pub mod message;
pub mod peer;
pub mod piece;
pub mod piece_picker;
pub mod session;
pub mod torrent;
pub mod tracker;
pub mod types;
