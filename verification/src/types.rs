//! Shared type aliases for the wire protocol.

use vstd::prelude::*;

verus! {

/// 20-byte SHA-1 digest of the torrent's bencoded info dictionary.
pub type InfoHash = Vec<u8>;

/// 20-byte identifier of a peer, freshly randomized per run.
pub type PeerId = Vec<u8>;

/// 20-byte SHA-1 digest of one piece's bytes.
pub type PieceHash = Vec<u8>;

/// 6-byte compact peer record: IPv4 address (4 bytes) + port (big-endian u16).
pub type PeerAddr = Vec<u8>;

/// The hashes of all pieces, in piece order.
pub type PieceHashes = Vec<PieceHash>;

/// Index of a piece within the torrent.
pub type PieceIndex = usize;

/// A 20-byte identifier, as all hashes and peer ids on the wire are.
pub open spec fn is_hash20(s: Seq<u8>) -> bool {
    s.len() == 20
}

/// The unsigned value that four big-endian bytes denote.
pub open spec fn spec_u32_of_be(b0: u8, b1: u8, b2: u8, b3: u8) -> u32 {
    (b0 * 0x1000000 + b1 * 0x10000 + b2 * 0x100 + b3) as u32
}

/// The four big-endian bytes of `x`.
pub open spec fn spec_u32_to_be(x: u32) -> Seq<u8> {
    seq![
        (x / 0x1000000) as u8,
        ((x / 0x10000) % 256) as u8,
        ((x / 0x100) % 256) as u8,
        (x % 256) as u8,
    ]
}

/// Reading the four big-endian bytes of `x` gives `x` back.
pub proof fn lemma_u32_be_of_to(x: u32)
    ensures
        spec_u32_of_be(
            spec_u32_to_be(x)[0],
            spec_u32_to_be(x)[1],
            spec_u32_to_be(x)[2],
            spec_u32_to_be(x)[3],
        ) == x,
{
    assert((x / 0x1000000) * 0x1000000 + ((x / 0x10000) % 256) * 0x10000 + ((x / 0x100) % 256)
        * 0x100 + (x % 256) == x) by (bit_vector);
}

/// Writing the value that four big-endian bytes denote gives those bytes back.
pub proof fn lemma_u32_be_to_of(b0: u8, b1: u8, b2: u8, b3: u8)
    ensures
        spec_u32_to_be(spec_u32_of_be(b0, b1, b2, b3)) =~= seq![b0, b1, b2, b3],
{
    let x = spec_u32_of_be(b0, b1, b2, b3);
    assert(((b0 * 0x1000000 + b1 * 0x10000 + b2 * 0x100 + b3) as u32) / 0x1000000 == b0 && ((b0
        * 0x1000000 + b1 * 0x10000 + b2 * 0x100 + b3) as u32) / 0x10000 % 256 == b1 && ((b0
        * 0x1000000 + b1 * 0x10000 + b2 * 0x100 + b3) as u32) / 0x100 % 256 == b2 && ((b0
        * 0x1000000 + b1 * 0x10000 + b2 * 0x100 + b3) as u32) % 256 == b3) by (bit_vector);
}

/// Reads the big-endian u32 formed by four bytes.
pub fn u32_from_be(b0: u8, b1: u8, b2: u8, b3: u8) -> (r: u32)
    ensures
        r == spec_u32_of_be(b0, b1, b2, b3),
{
    (b0 as u32) * 0x1000000 + (b1 as u32) * 0x10000 + (b2 as u32) * 0x100 + (b3 as u32)
}

/// Appends every byte of `data` to `buf`, in order.
pub fn push_bytes(buf: &mut Vec<u8>, data: &Vec<u8>)
    ensures
        final(buf)@ =~= old(buf)@ + data@,
{
    let n = data.len();
    let mut i: usize = 0;
    while i < n
        invariant
            i <= n,
            n == data@.len(),
            buf@ =~= old(buf)@ + data@.subrange(0, i as int),
        decreases n - i,
    {
        buf.push(data[i]);
        proof {
            assert(data@.subrange(0, i + 1) =~= data@.subrange(0, i as int) + seq![data@[i as int]]);
        }
        i = i + 1;
    }
    proof {
        assert(data@.subrange(0, n as int) =~= data@);
    }
}

/// Whether two byte buffers hold the same bytes.
pub fn bytes_eq(a: &Vec<u8>, b: &Vec<u8>) -> (r: bool)
    ensures
        r == (a@ == b@),
{
    if a.len() != b.len() {
        return false;
    }
    let n = a.len();
    let mut i: usize = 0;
    while i < n
        invariant
            i <= n,
            n == a@.len() == b@.len(),
            forall|j: int| 0 <= j < i ==> a@[j] == b@[j],
        decreases n - i,
    {
        if a[i] != b[i] {
            return false;
        }
        i = i + 1;
    }
    proof {
        assert(a@ =~= b@);
    }
    true
}

/// The bytes of `buf` from `start` (inclusive) to `end` (exclusive), copied.
pub fn copy_range(buf: &Vec<u8>, start: usize, end: usize) -> (r: Vec<u8>)
    requires
        start <= end <= buf@.len(),
    ensures
        r@ =~= buf@.subrange(start as int, end as int),
{
    let mut r: Vec<u8> = Vec::new();
    let mut i: usize = start;
    while i < end
        invariant
            start <= i <= end <= buf@.len(),
            r@ =~= buf@.subrange(start as int, i as int),
        decreases end - i,
    {
        r.push(buf[i]);
        proof {
            assert(buf@.subrange(start as int, i + 1) =~= buf@.subrange(start as int, i as int)
                + seq![buf@[i as int]]);
        }
        i = i + 1;
    }
    r
}

/// Appends the four big-endian bytes of `x` to `buf`.
pub fn push_u32_be(buf: &mut Vec<u8>, x: u32)
    ensures
        final(buf)@ =~= old(buf)@ + spec_u32_to_be(x),
{
    buf.push((x / 0x1000000) as u8);
    buf.push(((x / 0x10000) % 256) as u8);
    buf.push(((x / 0x100) % 256) as u8);
    buf.push((x % 256) as u8);
}

} // verus!
