//! The torrent's metainfo, as the download engine consumes it: piece
//! geometry, piece hashes, the announce URL and the info hash.
//!
//! Parsing the bencoded file itself happens outside the library; this module
//! validates the plain values that parsing yields and fixes the piece
//! layout: piece `i` occupies `[i * piece_length, i * piece_length +
//! piece_size(i))` of the output, the last piece possibly shorter.

use crate::error::ClientError;
use crate::types::{copy_range, InfoHash, PieceHashes};
use vstd::arithmetic::div_mod::{lemma_fundamental_div_mod, lemma_mod_division_less_than_divisor};
use vstd::prelude::*;

verus! {

/// The fields of the metainfo's info dictionary that the engine reads.
#[derive(Debug)]
pub struct Info {
    /// The advertised name of the content.
    pub name: String,
    /// The nominal length of every piece but possibly the last.
    pub piece_length: usize,
    /// The concatenated 20-byte SHA-1 digests of all pieces.
    pub pieces: Vec<u8>,
    /// The total length of the content in bytes.
    pub length: usize,
    /// The SHA-1 digest of the bencoded info dictionary.
    pub info_hash: InfoHash,
}

/// The validated metainfo of one torrent.
#[derive(Debug)]
pub struct TorrentFile {
    pub info: Info,
    /// The tracker's announce URL.
    pub announce: String,
    /// The pieces' hashes, split out of `info.pieces`, in piece order.
    pub piece_hashes: PieceHashes,
    /// The number of pieces.
    pub piece_count: usize,
}

/// How many pieces cover `length` bytes at `piece_length` bytes a piece:
/// the quotient, plus one for a shorter final piece.
pub open spec fn spec_num_pieces(length: int, piece_length: int) -> int {
    length / piece_length + if length % piece_length != 0 {
        1int
    } else {
        0int
    }
}

/// The byte length of piece `i` of `length` bytes of content cut into
/// `piece_length`-byte pieces: the nominal piece length, except that the
/// last piece only reaches the end of the content.
pub open spec fn spec_piece_size_of(length: int, piece_length: int, i: int) -> int {
    if i * piece_length + piece_length > length {
        length - i * piece_length
    } else {
        piece_length
    }
}

/// The byte length of piece `i` of the torrent.
pub open spec fn spec_piece_size(t: TorrentFile, i: int) -> int {
    spec_piece_size_of(t.info.length as int, t.info.piece_length as int, i)
}

/// The piece count covers the content: `num_pieces` pieces reach at least
/// `length` bytes, and one piece fewer does not.
pub proof fn lemma_num_pieces_bounds(length: int, piece_length: int)
    requires
        piece_length >= 1,
        length >= 0,
    ensures
        spec_num_pieces(length, piece_length) >= 0,
        spec_num_pieces(length, piece_length) * piece_length >= length,
        length > 0 ==> (spec_num_pieces(length, piece_length) - 1) * piece_length < length,
        length == 0 ==> spec_num_pieces(length, piece_length) == 0,
        length > 0 ==> spec_num_pieces(length, piece_length) >= 1,
{
    let q = length / piece_length;
    let r = length % piece_length;
    let c = spec_num_pieces(length, piece_length);
    lemma_fundamental_div_mod(length, piece_length);
    lemma_mod_division_less_than_divisor(length, piece_length);
    assert(length == piece_length * q + r);
    assert(0 <= r < piece_length);
    assert(piece_length * q >= 0 && q >= 0) by (nonlinear_arith)
        requires
            piece_length >= 1,
            piece_length * q == length - r,
            length - r >= 0,
    ;
    if r != 0 {
        assert(c == q + 1);
        assert((q + 1) * piece_length == piece_length * q + piece_length) by (nonlinear_arith);
        assert(q * piece_length == piece_length * q) by (nonlinear_arith);
    } else {
        assert(c == q);
        assert(q * piece_length == piece_length * q) by (nonlinear_arith);
        if length > 0 {
            assert(q >= 1) by (nonlinear_arith)
                requires
                    piece_length * q == length,
                    length > 0,
                    q >= 0,
            ;
            assert((q - 1) * piece_length == piece_length * q - piece_length) by (nonlinear_arith);
        }
    }
}

/// Splits the concatenated piece hashes into one 20-byte hash per piece.
/// Succeeds exactly when the input is a whole number of 20-byte digests.
pub fn split_piece_hashes(pieces: &Vec<u8>) -> (r: Result<PieceHashes, ClientError>)
    ensures
        r is Ok <==> pieces@.len() % 20 == 0,
        r is Err ==> r == Err::<PieceHashes, ClientError>(ClientError::MalformedPieces),
        r matches Ok(hs) ==> hs@.len() == pieces@.len() / 20 && forall|i: int|
            0 <= i < hs@.len() ==> hs@[i]@ =~= pieces@.subrange(20 * i, 20 * i + 20),
{
    let n = pieces.len();
    if n % 20 != 0 {
        return Err(ClientError::MalformedPieces);
    }
    let count = n / 20;
    let mut hs: PieceHashes = Vec::new();
    let mut k: usize = 0;
    proof {
        lemma_fundamental_div_mod(n as int, 20);
    }
    while k < count
        invariant
            k <= count,
            count == pieces@.len() / 20,
            n == pieces@.len(),
            n == 20 * count,
            hs@.len() == k,
            forall|i: int| 0 <= i < k ==> hs@[i]@ =~= pieces@.subrange(20 * i, 20 * i + 20),
        decreases count - k,
    {
        proof {
            assert(20 * (k + 1) <= 20 * count) by (nonlinear_arith)
                requires
                    k < count,
            ;
        }
        let start = 20 * k;
        let h = copy_range(pieces, start, start + 20);
        hs.push(h);
        k = k + 1;
    }
    Ok(hs)
}

impl TorrentFile {
    /// A validated torrent: piece geometry consistent, hashes split, and
    /// every quantity small enough for the machine and the wire.
    pub open spec fn wf(self) -> bool {
        &&& self.info.piece_length >= 1
        &&& self.info.piece_length <= u32::MAX
        &&& self.info.length + self.info.piece_length <= usize::MAX
        &&& self.info.info_hash@.len() == 20
        &&& self.piece_count == spec_num_pieces(
            self.info.length as int,
            self.info.piece_length as int,
        )
        &&& self.piece_count <= u32::MAX
        &&& self.piece_hashes@.len() == self.piece_count
        &&& forall|i: int| 0 <= i < self.piece_hashes@.len() ==> self.piece_hashes@[i]@.len() == 20
        &&& self.info.pieces@.len() == 20 * self.piece_count
        &&& forall|i: int|
            0 <= i < self.piece_hashes@.len() ==> self.piece_hashes@[i]@
                == self.info.pieces@.subrange(20 * i, 20 * i + 20)
    }

    /// Validates plain metainfo values and assembles the torrent, with the
    /// first failing check naming the error:
    /// a zero piece length, hashes that are not whole 20-byte digests, an
    /// info hash that is not 20 bytes, an oversized piece length or total
    /// length, and a piece count that does not cover the total length are
    /// each rejected.
    pub fn from_parts(
        name: String,
        announce: String,
        piece_length: usize,
        pieces: Vec<u8>,
        length: usize,
        info_hash: InfoHash,
    ) -> (r: Result<TorrentFile, ClientError>)
        ensures
            r is Ok <==> spec_parts_error(
                piece_length as int,
                pieces@.len() as int,
                length as int,
                info_hash@.len() as int,
            ) is None,
            r matches Err(e) ==> Some(e) == spec_parts_error(
                piece_length as int,
                pieces@.len() as int,
                length as int,
                info_hash@.len() as int,
            ),
            r matches Ok(t) ==> t.wf() && t.announce == announce && t.info.piece_length
                == piece_length && t.info.length == length && t.info.info_hash == info_hash
                && t.info.pieces == pieces && t.piece_count == spec_num_pieces(
                length as int,
                piece_length as int,
            ),
    {
        if piece_length < 1 {
            return Err(ClientError::BadPieceLength);
        }
        let piece_hashes = match split_piece_hashes(&pieces) {
            Ok(hs) => hs,
            Err(e) => {
                return Err(e);
            },
        };
        if info_hash.len() != 20 {
            return Err(ClientError::MalformedInfoHash);
        }
        if piece_length > 0xffff_ffffusize {
            return Err(ClientError::LengthTooLarge);
        }
        if length > usize::MAX - piece_length {
            return Err(ClientError::LengthTooLarge);
        }
        let num_pieces = length / piece_length + if length % piece_length != 0 {
            1
        } else {
            0
        };
        if num_pieces != pieces.len() / 20 {
            return Err(ClientError::PieceCountMismatch);
        }
        if num_pieces > 0xffff_ffffusize {
            return Err(ClientError::LengthTooLarge);
        }
        proof {
            lemma_fundamental_div_mod(pieces@.len() as int, 20);
        }
        Ok(
            TorrentFile {
                info: Info { name, piece_length, pieces, length, info_hash },
                announce,
                piece_hashes,
                piece_count: num_pieces,
            },
        )
    }

    /// The half-open byte range of piece `index` in the output: it starts at
    /// `index * piece_length` and ends a piece later, clamped to the total
    /// length.
    pub fn calculate_bounds_for_piece(&self, index: usize) -> (r: (usize, usize))
        requires
            self.wf(),
            index < self.piece_count,
        ensures
            r.0 == index * self.info.piece_length,
            r.1 == r.0 + spec_piece_size(*self, index as int),
            r.0 < r.1 <= self.info.length,
            r.1 - r.0 <= self.info.piece_length,
    {
        proof {
            lemma_num_pieces_bounds(self.info.length as int, self.info.piece_length as int);
            assert(index * self.info.piece_length <= (self.piece_count - 1)
                * self.info.piece_length && index * self.info.piece_length >= 0)
                by (nonlinear_arith)
                requires
                    0 <= index <= self.piece_count - 1,
                    self.info.piece_length >= 1,
            ;
        }
        let start = index * self.info.piece_length;
        let end = start + self.info.piece_length;
        if end > self.info.length {
            (start, self.info.length)
        } else {
            (start, end)
        }
    }

    /// The byte length of piece `index`; between 1 and the nominal piece
    /// length, and equal to the nominal length for all but the last piece.
    pub fn calculate_piece_size(&self, index: usize) -> (r: usize)
        requires
            self.wf(),
            index < self.piece_count,
        ensures
            r == spec_piece_size(*self, index as int),
            1 <= r <= self.info.piece_length,
    {
        let (start, finish) = self.calculate_bounds_for_piece(index);
        finish - start
    }
}

/// The first check of `TorrentFile::from_parts` that the given plain values
/// fail, if any.
pub open spec fn spec_parts_error(
    piece_length: int,
    pieces_len: int,
    length: int,
    info_hash_len: int,
) -> Option<ClientError> {
    if piece_length < 1 {
        Some(ClientError::BadPieceLength)
    } else if pieces_len % 20 != 0 {
        Some(ClientError::MalformedPieces)
    } else if info_hash_len != 20 {
        Some(ClientError::MalformedInfoHash)
    } else if piece_length > u32::MAX {
        Some(ClientError::LengthTooLarge)
    } else if length > usize::MAX - piece_length {
        Some(ClientError::LengthTooLarge)
    } else if spec_num_pieces(length, piece_length) != pieces_len / 20 {
        Some(ClientError::PieceCountMismatch)
    } else if spec_num_pieces(length, piece_length) > u32::MAX {
        Some(ClientError::LengthTooLarge)
    } else {
        None
    }
}

} // verus!
