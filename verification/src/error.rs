//! Error kinds of the download engine.

use vstd::prelude::*;

verus! {

/// A violation of the peer wire protocol.  Any of these is terminal for the
/// session that observed it.
#[derive(Clone, Copy, Debug, PartialEq, Eq, Structural)]
pub enum ProtocolError {
    /// A framed message carried an id outside 0..=8.
    InvalidMessageId(u8),
    /// A framed message's length prefix does not fit its id's payload layout.
    LengthMismatch,
    /// A handshake frame started with a protocol string length other than 19.
    BadPstrLen(u8),
    /// A handshake frame carried an info hash other than the torrent's.
    InfoHashMismatch,
    /// A bitfield message arrived after the initial message exchange.
    UnexpectedBitfield,
    /// A have message named a piece index outside the torrent.
    PieceIndexOutOfRange,
}

/// A failure outside the wire protocol itself.
#[derive(Clone, Copy, Debug, PartialEq, Eq, Structural)]
pub enum ClientError {
    /// The metainfo's piece length is zero.
    BadPieceLength,
    /// The metainfo's info hash is not 20 bytes.
    MalformedInfoHash,
    /// The metainfo's concatenated piece hashes are not a multiple of 20 bytes.
    MalformedPieces,
    /// The number of piece hashes does not cover the torrent's total length.
    PieceCountMismatch,
    /// A piece, or the whole torrent, is too large for this machine.
    LengthTooLarge,
    /// The tracker's compact peer list is not a multiple of 6 bytes.
    MalformedPeers,
    /// A downloaded piece's SHA-1 digest differs from the expected hash.
    IntegrityMismatch,
}

} // verus!
