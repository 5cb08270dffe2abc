//! The fixed-layout 68-byte initial handshake and its codec.
//!
//! Frame layout: `[pstrlen=19][pstr="BitTorrent protocol"][8 reserved zero
//! bytes][info_hash, 20 bytes][peer_id, 20 bytes]`.

use crate::error::ProtocolError;
use crate::types::{bytes_eq, copy_range, push_bytes, InfoHash, PeerId};
use vstd::prelude::*;

verus! {

/// The 19 ASCII bytes of the literal `BitTorrent protocol`.
pub open spec fn spec_pstr() -> Seq<u8> {
    seq![
        66u8, 105u8, 116u8, 84u8, 111u8, 114u8, 114u8, 101u8, 110u8, 116u8, 32u8, 112u8, 114u8,
        111u8, 116u8, 111u8, 99u8, 111u8, 108u8,
    ]
}

/// Eight zero bytes, reserved by the protocol.
pub open spec fn spec_reserved() -> Seq<u8> {
    seq![0u8, 0u8, 0u8, 0u8, 0u8, 0u8, 0u8, 0u8]
}

/// The protocol string, as a byte buffer.
pub fn protocol_pstr() -> (r: Vec<u8>)
    ensures
        r@ =~= spec_pstr(),
{
    let mut v: Vec<u8> = Vec::new();
    v.push(66);
    v.push(105);
    v.push(116);
    v.push(84);
    v.push(111);
    v.push(114);
    v.push(114);
    v.push(101);
    v.push(110);
    v.push(116);
    v.push(32);
    v.push(112);
    v.push(114);
    v.push(111);
    v.push(116);
    v.push(111);
    v.push(99);
    v.push(111);
    v.push(108);
    v
}

/// The initial handshake of one side.
#[derive(Debug, PartialEq, Eq)]
pub struct Handshake {
    /// The protocol string, the literal `BitTorrent protocol`.
    pub pstr: Vec<u8>,
    /// 8 reserved bytes, all zero.
    pub reserved: Vec<u8>,
    /// The torrent's SHA-1 info hash, identifying the torrent.
    pub info_hash: InfoHash,
    /// The sender's arbitrary 20-byte id.
    pub peer_id: PeerId,
}

/// The mathematical shape of a handshake.
pub ghost struct HandshakeV {
    pub pstr: Seq<u8>,
    pub reserved: Seq<u8>,
    pub info_hash: Seq<u8>,
    pub peer_id: Seq<u8>,
}

impl View for Handshake {
    type V = HandshakeV;

    open spec fn view(&self) -> HandshakeV {
        HandshakeV {
            pstr: self.pstr@,
            reserved: self.reserved@,
            info_hash: self.info_hash@,
            peer_id: self.peer_id@,
        }
    }
}

/// A handshake whose fixed fields hold the values the protocol fixes.
pub open spec fn handshake_wf(h: HandshakeV) -> bool {
    &&& h.pstr == spec_pstr()
    &&& h.reserved == spec_reserved()
    &&& h.info_hash.len() == 20
    &&& h.peer_id.len() == 20
}

/// The 68-byte frame of a handshake.
pub open spec fn spec_handshake_encode(h: HandshakeV) -> Seq<u8> {
    seq![19u8] + h.pstr + h.reserved + h.info_hash + h.peer_id
}

impl Handshake {
    /// A local handshake for the given torrent.
    pub fn new(peer_id: PeerId, info_hash: InfoHash) -> (r: Handshake)
        requires
            peer_id@.len() == 20,
            info_hash@.len() == 20,
        ensures
            handshake_wf(r@),
            r@.info_hash == info_hash@,
            r@.peer_id == peer_id@,
    {
        let pstr = protocol_pstr();
        let mut reserved: Vec<u8> = Vec::new();
        let mut i: usize = 0;
        while i < 8
            invariant
                i <= 8,
                reserved@.len() == i,
                forall|j: int| 0 <= j < i ==> reserved@[j] == 0u8,
            decreases 8 - i,
        {
            reserved.push(0);
            i = i + 1;
        }
        proof {
            assert(reserved@ =~= spec_reserved());
        }
        Handshake { pstr, reserved, info_hash, peer_id }
    }
}

/// What decoding a handshake buffer yields.
pub ghost enum HandshakeOutcome {
    Incomplete,
    Fail(ProtocolError),
    Done(HandshakeV, int),
}

/// Decodes the front of a buffer as a handshake frame, expecting the local
/// torrent's info hash.  Rejects a frame whose first byte is not 19 as soon
/// as that byte is present, and a complete frame whose info hash differs
/// from `expected`.
pub open spec fn spec_handshake_decode(b: Seq<u8>, expected: Seq<u8>) -> HandshakeOutcome {
    if b.len() == 0 {
        HandshakeOutcome::Incomplete
    } else if b[0] != 19 {
        HandshakeOutcome::Fail(ProtocolError::BadPstrLen(b[0]))
    } else if b.len() < 68 {
        HandshakeOutcome::Incomplete
    } else {
        let h = HandshakeV {
            pstr: b.subrange(1, 20),
            reserved: b.subrange(20, 28),
            info_hash: b.subrange(28, 48),
            peer_id: b.subrange(48, 68),
        };
        if h.info_hash != expected {
            HandshakeOutcome::Fail(ProtocolError::InfoHashMismatch)
        } else {
            HandshakeOutcome::Done(h, 68)
        }
    }
}

/// The stateless handshake codec.
pub struct HandshakeCodec;

impl HandshakeCodec {
    /// Appends the 68-byte frame of `handshake` to `buf`.
    pub fn encode(&self, handshake: &Handshake, buf: &mut Vec<u8>)
        requires
            handshake_wf(handshake@),
        ensures
            final(buf)@ =~= old(buf)@ + spec_handshake_encode(handshake@),
    {
        buf.push(19u8);
        push_bytes(buf, &handshake.pstr);
        push_bytes(buf, &handshake.reserved);
        push_bytes(buf, &handshake.info_hash);
        push_bytes(buf, &handshake.peer_id);
    }

    /// Decodes the handshake at the front of `buf`, validating the info
    /// hash against `expected_info_hash`, exactly as `spec_handshake_decode`
    /// lays out.  The remote's peer id is recorded but not validated.
    pub fn decode(&self, buf: &Vec<u8>, expected_info_hash: &InfoHash) -> (r: Result<
        Option<(Handshake, usize)>,
        ProtocolError,
    >)
        ensures
            spec_handshake_decode(buf@, expected_info_hash@) is Incomplete ==> r == Ok::<
                Option<(Handshake, usize)>,
                ProtocolError,
            >(None),
            spec_handshake_decode(buf@, expected_info_hash@) matches HandshakeOutcome::Fail(e)
                ==> r == Err::<Option<(Handshake, usize)>, ProtocolError>(e),
            spec_handshake_decode(buf@, expected_info_hash@) matches HandshakeOutcome::Done(h, used)
                ==> (r matches Ok(Some((hs, u))) && hs@ == h && u == used),
    {
        if buf.len() == 0 {
            return Ok(None);
        }
        let pstr_len = buf[0];
        if pstr_len != 19 {
            return Err(ProtocolError::BadPstrLen(pstr_len));
        }
        if buf.len() < 68 {
            return Ok(None);
        }
        let pstr = copy_range(buf, 1, 20);
        let reserved = copy_range(buf, 20, 28);
        let info_hash = copy_range(buf, 28, 48);
        let peer_id = copy_range(buf, 48, 68);
        if !bytes_eq(&info_hash, expected_info_hash) {
            return Err(ProtocolError::InfoHashMismatch);
        }
        Ok(Some((Handshake { pstr, reserved, info_hash, peer_id }, 68)))
    }
}

/// Handshake rejection: any buffer whose first byte is not 19, and any
/// complete frame whose info hash differs from the expected one, is refused
/// by the decoder, never yielded as a handshake.
pub proof fn lemma_handshake_decode_rejects(b: Seq<u8>, expected: Seq<u8>)
    ensures
        b.len() >= 1 && b[0] != 19 ==> spec_handshake_decode(b, expected) == HandshakeOutcome::Fail(
            ProtocolError::BadPstrLen(b[0]),
        ),
        b.len() >= 68 && b[0] == 19 && b.subrange(28, 48) != expected ==> spec_handshake_decode(
            b,
            expected,
        ) == HandshakeOutcome::Fail(ProtocolError::InfoHashMismatch),
        forall|h: HandshakeV, used: int|
            spec_handshake_decode(b, expected) == HandshakeOutcome::Done(h, used) ==> h.info_hash
                == expected && b.len() >= 68 && b[0] == 19,
{
}

/// Handshake round trip: the frame of a well-formed handshake, followed by
/// any further traffic, decodes back to that handshake and consumes exactly
/// 68 bytes, provided the expected info hash is the one the frame carries.
pub proof fn lemma_handshake_decode_encode(h: HandshakeV, rest: Seq<u8>)
    requires
        handshake_wf(h),
    ensures
        spec_handshake_encode(h).len() == 68,
        spec_handshake_decode(spec_handshake_encode(h) + rest, h.info_hash)
            == HandshakeOutcome::Done(h, 68),
{
    let full = spec_handshake_encode(h) + rest;
    assert(full[0] == 19);
    assert(full.subrange(1, 20) =~= h.pstr);
    assert(full.subrange(20, 28) =~= h.reserved);
    assert(full.subrange(28, 48) =~= h.info_hash);
    assert(full.subrange(48, 68) =~= h.peer_id);
}

} // verus!
