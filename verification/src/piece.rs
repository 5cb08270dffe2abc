//! A piece assembled from blocks, verified by its SHA-1 digest.

use crate::hashing::{sha1_digest, sha1_of};
use crate::types::{bytes_eq, push_bytes, PieceHash};
use vstd::prelude::*;

verus! {

/// One piece being assembled: its expected digest, its length, and the
/// blocks received so far, each keyed by its byte offset in the piece.
pub struct Piece {
    /// The expected SHA-1 digest of the whole piece.
    pub hash: PieceHash,
    /// The piece's length in bytes.
    pub len: u32,
    /// The received blocks, in ascending offset order.
    pub blocks: Vec<(u32, Vec<u8>)>,
}

/// The bytes of all blocks, concatenated in stored order.
pub open spec fn spec_concat_blocks(s: Seq<(u32, Vec<u8>)>) -> Seq<u8>
    decreases s.len(),
{
    if s.len() == 0 {
        Seq::empty()
    } else {
        spec_concat_blocks(s.drop_last()) + s.last().1@
    }
}

impl Piece {
    /// Whether the concatenation of the stored blocks hashes to the
    /// expected digest.
    pub fn matches_hash(&self) -> (r: bool)
        ensures
            r == (sha1_of(spec_concat_blocks(self.blocks@)) == self.hash@),
    {
        let mut data: Vec<u8> = Vec::new();
        let n = self.blocks.len();
        let mut i: usize = 0;
        while i < n
            invariant
                i <= n,
                n == self.blocks@.len(),
                data@ =~= spec_concat_blocks(self.blocks@.take(i as int)),
            decreases n - i,
        {
            let block = &self.blocks[i];
            push_bytes(&mut data, &block.1);
            proof {
                assert(self.blocks@.take(i + 1).drop_last() =~= self.blocks@.take(i as int));
                assert(self.blocks@.take(i + 1).last() == self.blocks@[i as int]);
            }
            i = i + 1;
        }
        proof {
            assert(self.blocks@.take(n as int) =~= self.blocks@);
        }
        let digest = sha1_digest(&data);
        bytes_eq(&digest, &self.hash)
    }
}

} // verus!
