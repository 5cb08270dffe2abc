//! Compact bit set with MSB-first indexing.
//!
//! Bit `i` lives at byte `i / 8`, bit offset `7 - (i % 8)` within that byte.
//! Storage is `ceil(n / 8)` bytes for `n` bits; the trailing bits of the last
//! byte beyond `n` carry no information and must be zero when a bitfield is
//! sent on the wire.

use vstd::prelude::*;

verus! {

/// The value of bit `i` of `bytes`, MSB-first within each byte.
pub open spec fn spec_bit(bytes: Seq<u8>, i: int) -> bool {
    (bytes[i / 8] >> ((7 - (i % 8)) as u8)) & 1u8 == 1u8
}

/// The first `n` bits of `bytes`, MSB-first within each byte.
pub open spec fn spec_bits(bytes: Seq<u8>, n: nat) -> Seq<bool> {
    Seq::new(n, |i: int| spec_bit(bytes, i))
}

/// `1` if bit `i` is within `bits` and set, else `0`.
pub open spec fn bit_term(bits: Seq<bool>, i: int) -> u8 {
    if 0 <= i < bits.len() && bits[i] {
        1u8
    } else {
        0u8
    }
}

/// The byte that bits `8 * j .. 8 * j + 8` of `bits` describe, MSB-first;
/// bits beyond the end of `bits` count as zero.
pub open spec fn byte_from_bits(bits: Seq<bool>, j: int) -> u8 {
    (bit_term(bits, 8 * j) * 128 + bit_term(bits, 8 * j + 1) * 64 + bit_term(bits, 8 * j + 2) * 32
        + bit_term(bits, 8 * j + 3) * 16 + bit_term(bits, 8 * j + 4) * 8 + bit_term(
        bits,
        8 * j + 5,
    ) * 4 + bit_term(bits, 8 * j + 6) * 2 + bit_term(bits, 8 * j + 7)) as u8
}

/// The number of `false` entries among the first `k` entries of `s`.
pub open spec fn count_false_to(s: Seq<bool>, k: int) -> int
    decreases k,
{
    if k <= 0 {
        0
    } else {
        count_false_to(s, k - 1) + if s[k - 1] {
            0int
        } else {
            1int
        }
    }
}

/// A shifted-out single bit is either clear or set, never anything else.
proof fn lemma_bit_low(b: u8, t: u8)
    by (bit_vector)
    requires
        t < 8,
    ensures
        (b >> t) & 1u8 == 0u8 || (b >> t) & 1u8 == 1u8,
{
}

/// Setting one bit by `|` leaves every other bit of the byte unchanged.
proof fn lemma_bit_or(b: u8, s: u8, t: u8)
    by (bit_vector)
    requires
        s < 8,
        t < 8,
    ensures
        ((b | (1u8 << s)) >> t) & 1u8 == (if s == t {
            1u8
        } else {
            (b >> t) & 1u8
        }),
{
}

/// Bit-per-piece indicator of which pieces a peer holds.
pub struct Bitfield {
    bitfield: Vec<u8>,
    nbits: usize,
}

impl View for Bitfield {
    type V = Seq<bool>;

    closed spec fn view(&self) -> Seq<bool> {
        spec_bits(self.bitfield@, self.nbits as nat)
    }
}

impl Bitfield {
    /// The raw bytes backing the bitfield.
    pub closed spec fn spec_bytes(self) -> Seq<u8> {
        self.bitfield@
    }

    /// The storage holds exactly `ceil(nbits / 8)` bytes.
    pub closed spec fn wf(self) -> bool {
        self.bitfield@.len() == (self.nbits + 7) / 8
    }

    /// An all-zero bitfield of `n` bits, as a session starts with before the
    /// remote's bitfield message arrives.
    pub fn new_empty(n: usize) -> (r: Bitfield)
        requires
            n <= usize::MAX - 7,
        ensures
            r.wf(),
            r@.len() == n,
            forall|i: int| 0 <= i < n ==> !r@[i],
            forall|j: int| 0 <= j < r.spec_bytes().len() ==> r.spec_bytes()[j] == 0u8,
    {
        let nbytes = n / 8 + if n % 8 != 0 {
            1
        } else {
            0
        };
        let mut v: Vec<u8> = Vec::new();
        let mut k: usize = 0;
        while k < nbytes
            invariant
                v@.len() == k,
                k <= nbytes,
                forall|j: int| 0 <= j < k ==> v@[j] == 0u8,
            decreases nbytes - k,
        {
            v.push(0u8);
            k = k + 1;
        }
        proof {
            assert(nbytes == (n + 7) / 8);
            assert forall|i: int| 0 <= i < n implies !spec_bit(v@, i) by {
                let t = (7 - (i % 8)) as u8;
                assert(v@[i / 8] == 0u8);
                assert((0u8 >> t) & 1u8 == 0u8) by (bit_vector);
            }
        }
        Bitfield { bitfield: v, nbits: n }
    }

    /// Adopts `raw` as the storage of an `n`-bit bitfield.  Succeeds exactly
    /// when `raw` has `ceil(n / 8)` bytes; spare trailing bits are accepted
    /// on receive.
    pub fn from_bytes(raw: Vec<u8>, n: usize) -> (r: Option<Bitfield>)
        ensures
            r is Some <==> raw@.len() == (n + 7) / 8,
            r matches Some(b) ==> b.wf() && b@ == spec_bits(raw@, n as nat) && b.spec_bytes()
                == raw@ && b@.len() == n,
    {
        let nbytes = n / 8 + if n % 8 != 0 {
            1
        } else {
            0
        };
        proof {
            assert(nbytes == (n + 7) / 8);
        }
        if raw.len() == nbytes {
            Some(Bitfield { bitfield: raw, nbits: n })
        } else {
            None
        }
    }

    /// The number of bits.
    pub fn len(&self) -> (r: usize)
        ensures
            r == self@.len(),
    {
        self.nbits
    }

    /// The raw bytes, for sending on the wire.
    pub fn as_bytes(&self) -> (r: &Vec<u8>)
        ensures
            r@ == self.spec_bytes(),
    {
        &self.bitfield
    }

    /// Whether the peer holds piece `index`.
    pub fn has_piece(&self, index: usize) -> (r: bool)
        requires
            self.wf(),
            index < self@.len(),
        ensures
            r == self@[index as int],
    {
        let byte_index = index / 8;
        let offset = index % 8;
        proof {
            assert(byte_index < self.bitfield@.len());
        }
        let b = self.bitfield[byte_index];
        let shift = (7 - offset) as u8;
        proof {
            lemma_bit_low(b, shift);
        }
        (b >> shift) & 1 != 0
    }

    /// Records that the peer holds piece `index`; every other bit is kept.
    pub fn set_piece(&mut self, index: usize)
        requires
            old(self).wf(),
            index < old(self)@.len(),
        ensures
            final(self).wf(),
            final(self)@ =~= old(self)@.update(index as int, true),
            final(self).spec_bytes().len() == old(self).spec_bytes().len(),
    {
        let byte_index = index / 8;
        let offset = index % 8;
        proof {
            assert(byte_index < self.bitfield@.len());
        }
        let shift = (7 - offset) as u8;
        let b = self.bitfield[byte_index];
        let nb = b | (1u8 << shift);
        self.bitfield.set(byte_index, nb);
        proof {
            let obytes = old(self).bitfield@;
            let nbytes_ = self.bitfield@;
            assert forall|i: int| 0 <= i < self.nbits implies self@[i] == old(self)@.update(
                index as int,
                true,
            )[i] by {
                let ti = (7 - (i % 8)) as u8;
                if i / 8 == byte_index {
                    lemma_bit_or(b, shift, ti);
                    if i != index {
                        assert(i % 8 != index % 8);
                        assert(ti != shift);
                    } else {
                        assert(ti == shift);
                    }
                } else {
                    assert(nbytes_[i / 8] == obytes[i / 8]);
                }
            }
        }
    }

    /// The number of clear bits, i.e. of pieces the holder lacks.
    pub fn count_zeros(&self) -> (r: usize)
        requires
            self.wf(),
        ensures
            r == count_false_to(self@, self@.len() as int),
            r <= self@.len(),
    {
        let n = self.nbits;
        let mut acc: usize = 0;
        let mut i: usize = 0;
        while i < n
            invariant
                self.wf(),
                i <= n,
                n == self@.len(),
                acc == count_false_to(self@, i as int),
                acc <= i,
            decreases n - i,
        {
            if !self.has_piece(i) {
                acc = acc + 1;
            }
            i = i + 1;
        }
        acc
    }
}

/// Bitfield round trip: a byte sequence whose trailing bits beyond `n` are
/// zero is exactly reconstructed, byte for byte, from the `n` bits it
/// carries.  Together with the contracts of `from_bytes` and `as_bytes`,
/// this says that adopting such bytes and serializing them again gives the
/// original sequence back.
pub proof fn lemma_bitfield_round_trip(raw: Seq<u8>, n: nat)
    requires
        raw.len() == (n + 7) / 8,
        forall|i: int| n <= i < 8 * raw.len() ==> !spec_bit(raw, i),
    ensures
        forall|j: int| 0 <= j < raw.len() ==> byte_from_bits(spec_bits(raw, n), j) == raw[j],
{
    let bits = spec_bits(raw, n);
    assert forall|j: int| 0 <= j < raw.len() implies byte_from_bits(bits, j) == raw[j] by {
        let x = raw[j];
        assert forall|k: int| 0 <= k < 8 implies #[trigger] bit_term(bits, 8 * j + k) == (x >> ((7
            - k) as u8)) & 1u8 by {
            let i = 8 * j + k;
            assert(i / 8 == j && i % 8 == k) by (nonlinear_arith)
                requires
                    0 <= k < 8,
                    0 <= j,
                    i == 8 * j + k,
            ;
            lemma_bit_low(x, (7 - k) as u8);
            if i < n {
                assert(bits[i] == spec_bit(raw, i));
            } else {
                assert(i < 8 * raw.len()) by (nonlinear_arith)
                    requires
                        i == 8 * j + k,
                        k < 8,
                        j < raw.len(),
                ;
                assert(!spec_bit(raw, i));
                assert(bit_term(bits, i) == 0u8);
            }
        }
        assert(x == ((x >> 7u8) & 1u8) * 128 + ((x >> 6u8) & 1u8) * 64 + ((x >> 5u8) & 1u8) * 32 + (
        (x >> 4u8) & 1u8) * 16 + ((x >> 3u8) & 1u8) * 8 + ((x >> 2u8) & 1u8) * 4 + ((x >> 1u8)
            & 1u8) * 2 + ((x >> 0u8) & 1u8)) by (bit_vector);
    }
}

} // verus!
