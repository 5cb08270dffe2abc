//! Peers, as the tracker's compact response lists them.
//!
//! Compact mode hands out 6-byte records: four IPv4 octets, then the port
//! as a big-endian u16.

use crate::error::ClientError;
use crate::tracker::{dec_string, spec_dec_chars};
use crate::types::{copy_range, PeerAddr};
use vstd::prelude::*;
use vstd::string::StringExecFns;

verus! {

/// One remote peer: its IPv4 octets, its port, and how many pieces it has
/// announced so far.
#[derive(Debug, PartialEq, Eq)]
pub struct Peer {
    /// The four IPv4 address octets.
    pub addr: Vec<u8>,
    /// The TCP port.
    pub port: u16,
    /// How many pieces the peer has announced.
    pub piece_count: usize,
}

/// The port a compact record's two trailing bytes denote.
pub open spec fn spec_port_of(hi: u8, lo: u8) -> u16 {
    (hi * 256 + lo) as u16
}

impl Peer {
    /// The address holds exactly four octets.
    pub open spec fn wf(self) -> bool {
        self.addr@.len() == 4
    }

    /// The peer a 6-byte compact record describes.
    pub fn from_compact(record: &PeerAddr) -> (p: Peer)
        requires
            record@.len() == 6,
        ensures
            p.wf(),
            p.addr@ == record@.subrange(0, 4),
            p.port == spec_port_of(record@[4], record@[5]),
            p.piece_count == 0,
    {
        let addr = copy_range(record, 0, 4);
        let port = (record[4] as u16) * 256 + (record[5] as u16);
        Peer { addr, port, piece_count: 0 }
    }
}

/// The peer's address in the usual dotted notation, `a.b.c.d:port`.
pub open spec fn spec_addr_chars(p: Peer) -> Seq<char>
    recommends
        p.wf(),
{
    spec_dec_chars(p.addr@[0] as int) + seq!['.'] + spec_dec_chars(p.addr@[1] as int) + seq!['.']
        + spec_dec_chars(p.addr@[2] as int) + seq!['.'] + spec_dec_chars(p.addr@[3] as int)
        + seq![':'] + spec_dec_chars(p.port as int)
}

impl Peer {
    /// Renders the peer's address as `a.b.c.d:port`.
    pub fn addr_string(&self) -> (r: String)
        requires
            self.wf(),
        ensures
            r@ =~= spec_addr_chars(*self),
    {
        proof {
            reveal_strlit(".");
            reveal_strlit(":");
        }
        let mut s = String::new();
        let a = dec_string(self.addr[0] as u64);
        s.append(a.as_str());
        s.append(".");
        let b = dec_string(self.addr[1] as u64);
        s.append(b.as_str());
        s.append(".");
        let c = dec_string(self.addr[2] as u64);
        s.append(c.as_str());
        s.append(".");
        let d = dec_string(self.addr[3] as u64);
        s.append(d.as_str());
        s.append(":");
        let port = dec_string(self.port as u64);
        s.append(port.as_str());
        s
    }
}

/// Splits the tracker's compact peer list into peers.  Succeeds exactly
/// when the list is a whole number of 6-byte records.
pub fn parse_compact_peers(blob: &Vec<u8>) -> (r: Result<Vec<Peer>, ClientError>)
    ensures
        r is Ok <==> blob@.len() % 6 == 0,
        r is Err ==> r == Err::<Vec<Peer>, ClientError>(ClientError::MalformedPeers),
        r matches Ok(ps) ==> ps@.len() == blob@.len() / 6 && forall|k: int|
            0 <= k < ps@.len() ==> (#[trigger] ps@[k]).wf() && ps@[k].addr@ == blob@.subrange(
                6 * k,
                6 * k + 4,
            ) && ps@[k].port == spec_port_of(blob@[6 * k + 4], blob@[6 * k + 5]) && ps@[
                k
            ].piece_count == 0,
{
    let n = blob.len();
    if n % 6 != 0 {
        return Err(ClientError::MalformedPeers);
    }
    let count = n / 6;
    proof {
        vstd::arithmetic::div_mod::lemma_fundamental_div_mod(n as int, 6);
    }
    let mut ps: Vec<Peer> = Vec::new();
    let mut k: usize = 0;
    while k < count
        invariant
            k <= count,
            n == blob@.len(),
            count == blob@.len() / 6,
            n == 6 * count,
            ps@.len() == k,
            forall|j: int|
                0 <= j < k ==> (#[trigger] ps@[j]).wf() && ps@[j].addr@ == blob@.subrange(
                    6 * j,
                    6 * j + 4,
                ) && ps@[j].port == spec_port_of(blob@[6 * j + 4], blob@[6 * j + 5]) && ps@[
                    j
                ].piece_count == 0,
        decreases count - k,
    {
        proof {
            assert(6 * (k + 1) <= 6 * count) by (nonlinear_arith)
                requires
                    k < count,
            ;
        }
        let base = 6 * k;
        let record = copy_range(blob, base, base + 6);
        let p = Peer::from_compact(&record);
        proof {
            assert(record@[4] == blob@[6 * (k as int) + 4]);
            assert(record@[5] == blob@[6 * (k as int) + 5]);
            assert(record@.subrange(0, 4) =~= blob@.subrange(6 * (k as int), 6 * (k as int) + 4));
        }
        ps.push(p);
        k = k + 1;
    }
    Ok(ps)
}

} // verus!
