//! A request-sized subregion of a piece.

use crate::types::{push_u32_be, spec_u32_to_be};
use vstd::prelude::*;

verus! {

/// Identifies one block: which piece, where in the piece, and how long.
#[derive(Clone, Copy, Debug, PartialEq, Eq, Structural)]
pub struct BlockInfo {
    pub piece_index: u32,
    pub block_offset: u32,
    pub block_length: u32,
}

/// The 12-byte wire form of a block descriptor: three big-endian u32 fields.
pub open spec fn spec_block_info_bytes(b: BlockInfo) -> Seq<u8> {
    spec_u32_to_be(b.piece_index) + spec_u32_to_be(b.block_offset) + spec_u32_to_be(b.block_length)
}

impl BlockInfo {
    /// Appends the 12-byte wire form to `buf`.
    pub fn encode(&self, buf: &mut Vec<u8>)
        ensures
            final(buf)@ =~= old(buf)@ + spec_block_info_bytes(*self),
    {
        push_u32_be(buf, self.piece_index);
        push_u32_be(buf, self.block_offset);
        push_u32_be(buf, self.block_length);
    }
}

} // verus!
