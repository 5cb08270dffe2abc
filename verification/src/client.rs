//! The coordinator's bookkeeping: seeding the work queue, collecting
//! verified pieces, and assembling the output buffer.
//!
//! Spawning workers, channels and sockets live outside the library; this
//! module fixes what they compute: which work items exist, where each piece
//! lands in the output, and when the download is complete.

use crate::counting::{
    count_true_to, lemma_count_true_bound, lemma_count_true_full, lemma_count_true_none,
    lemma_count_true_update,
};
use crate::download::{complete_piece, PieceResult, PieceWork};
use crate::error::ClientError;
use crate::hashing::sha1_of;
use crate::peer::{parse_compact_peers, spec_port_of, Peer};
use crate::torrent::{
    lemma_num_pieces_bounds, spec_num_pieces, spec_piece_size, spec_piece_size_of, TorrentFile,
};
use crate::tracker::TrackerResponse;
use crate::types::{copy_range, InfoHash, PeerId};
use vstd::prelude::*;

verus! {

/// Relies on `rand::fill`: fills a byte slice with random bytes, leaving
/// its length unchanged.
#[verifier::external_body]
fn random_bytes(n: usize) -> (r: Vec<u8>)
    ensures
        r@.len() == n,
{
    let mut buf = vec![0u8; n];
    rand::fill(&mut buf[..]);
    buf
}

/// A fresh 20-byte peer id, randomized per run.
pub fn generate_peer_id() -> (r: PeerId)
    ensures
        r@.len() == 20,
{
    random_bytes(20)
}

/// One work item per piece, in piece order: piece `i` gets its own hash and
/// its own length, the last piece possibly shorter.
pub fn build_work_queue(t: &TorrentFile) -> (w: Vec<PieceWork>)
    requires
        t.wf(),
    ensures
        w@.len() == t.piece_count,
        forall|k: int|
            0 <= k < w@.len() ==> (#[trigger] w@[k]).index == k && w@[k].hash@
                == t.piece_hashes@[k]@ && w@[k].length == spec_piece_size(*t, k) && w@[k].wf(),
{
    let n = t.piece_count;
    let mut w: Vec<PieceWork> = Vec::new();
    let mut i: usize = 0;
    while i < n
        invariant
            i <= n,
            n == t.piece_count,
            t.wf(),
            w@.len() == i,
            forall|k: int|
                0 <= k < i ==> (#[trigger] w@[k]).index == k && w@[k].hash@
                    == t.piece_hashes@[k]@ && w@[k].length == spec_piece_size(*t, k) && w@[
                    k
                ].wf(),
        decreases n - i,
    {
        let length = t.calculate_piece_size(i);
        let hash = copy_range(&t.piece_hashes[i], 0, t.piece_hashes[i].len());
        w.push(PieceWork { index: i as u32, hash, length: length as u32 });
        i = i + 1;
    }
    w
}

/// Every work item of the queue is verified against the torrent's own
/// hashes, so a piece result whose digest matches its work item's hash is a
/// piece of the torrent: its bytes hash to the torrent's hash for that
/// index and have that index's exact length.
pub proof fn lemma_piece_result_verified(t: TorrentFile, work: PieceWork, res: PieceResult)
    requires
        t.wf(),
        0 <= work.index < t.piece_count,
        work.hash@ == t.piece_hashes@[work.index as int]@,
        work.length == spec_piece_size(t, work.index as int),
        res.index == work.index,
        res.buf@.len() == work.length,
        sha1_of(res.buf@) == work.hash@,
    ensures
        sha1_of(res.buf@) == t.piece_hashes@[res.index as int]@,
        res.buf@.len() == spec_piece_size(t, res.index as int),
{
}

/// What a worker does with one work item.
#[derive(Debug)]
pub enum WorkerAction {
    /// Put the very same work item back into the queue for another try.
    Requeue(PieceWork),
    /// Hand the verified piece to the coordinator.
    Deliver(PieceResult),
}

/// One worker decision: what to do with a work item once the peer's
/// bitfield has been consulted and a download attempt, if any, has ended.
/// `buffer` is the downloaded piece, or nothing when the peer lacks the
/// piece or the session failed before completing it.  The work item is
/// re-queued unchanged — so a retry sees exactly the same piece — unless
/// the buffer is present and passes integrity, in which case the result is
/// delivered; an integrity mismatch is re-queued like any other failure.
pub fn worker_step(work: PieceWork, buffer: Option<Vec<u8>>) -> (r: WorkerAction)
    requires
        work.wf(),
        buffer matches Some(b) ==> b@.len() == work.length,
    ensures
        buffer is None ==> (r matches WorkerAction::Requeue(w) && w == work),
        buffer matches Some(b) ==> if sha1_of(b@) == work.hash@ {
            r matches WorkerAction::Deliver(res) && res.index == work.index && res.buf@ == b@
                && res.buf@.len() == work.length && sha1_of(res.buf@) == work.hash@
        } else {
            r matches WorkerAction::Requeue(w) && w == work
        },
{
    match buffer {
        None => WorkerAction::Requeue(work),
        Some(buf) => match complete_piece(&work, buf) {
            Ok(res) => WorkerAction::Deliver(res),
            Err(_) => WorkerAction::Requeue(work),
        },
    }
}

/// The whole client, as far as it is plain data: the torrent, the tracker's
/// peers, and this run's identity.
#[derive(Debug)]
pub struct LeechClient {
    /// The peers the tracker handed out.
    pub peers: Vec<Peer>,
    /// The path the torrent file was read from.
    pub filename: String,
    /// The validated metainfo.
    pub torrent_file: TorrentFile,
    /// The torrent's info hash, as used in every handshake.
    pub info_hash: InfoHash,
    /// This run's randomized peer id.
    pub peer_id: PeerId,
    /// Seconds the tracker asked this client to wait between announces.
    pub poll_interval: u32,
}

impl LeechClient {
    /// The torrent is valid, the identity is 20 bytes, and the cached info
    /// hash is the torrent's.
    pub open spec fn wf(self) -> bool {
        &&& self.torrent_file.wf()
        &&& self.info_hash@ == self.torrent_file.info.info_hash@
        &&& self.peer_id@.len() == 20
        &&& forall|k: int| 0 <= k < self.peers@.len() ==> (#[trigger] self.peers@[k]).wf()
    }

    /// A client for one torrent, before any tracker contact: no peers, no
    /// poll interval.
    pub fn new(filename: String, torrent_file: TorrentFile, peer_id: PeerId) -> (r: LeechClient)
        requires
            torrent_file.wf(),
            peer_id@.len() == 20,
        ensures
            r.wf(),
            r.filename == filename,
            r.torrent_file == torrent_file,
            r.peer_id == peer_id,
            r.info_hash@ == torrent_file.info.info_hash@,
            r.peers@.len() == 0,
            r.poll_interval == 0,
    {
        let info_hash = copy_range(
            &torrent_file.info.info_hash,
            0,
            torrent_file.info.info_hash.len(),
        );
        proof {
            assert(info_hash@ =~= torrent_file.info.info_hash@);
        }
        LeechClient {
            peers: Vec::new(),
            filename,
            torrent_file,
            info_hash,
            peer_id,
            poll_interval: 0,
        }
    }

    /// Replaces the peer list with the tracker's compact list.  Succeeds
    /// exactly when the list is a whole number of 6-byte records; a
    /// malformed list leaves the client unchanged.
    pub fn set_peers(&mut self, peer_blob: &Vec<u8>) -> (r: Result<(), ClientError>)
        requires
            old(self).wf(),
        ensures
            final(self).wf(),
            r is Ok <==> peer_blob@.len() % 6 == 0,
            r is Err ==> r == Err::<(), ClientError>(ClientError::MalformedPeers) && *final(self)
                == *old(self),
            final(self).torrent_file == old(self).torrent_file,
            final(self).info_hash == old(self).info_hash,
            final(self).peer_id == old(self).peer_id,
            final(self).filename == old(self).filename,
            final(self).poll_interval == old(self).poll_interval,
            r is Ok ==> final(self).peers@.len() == peer_blob@.len() / 6 && forall|k: int|
                0 <= k < final(self).peers@.len() ==> (#[trigger] final(self).peers@[k]).addr@
                    == peer_blob@.subrange(6 * k, 6 * k + 4) && final(self).peers@[k].port
                    == spec_port_of(peer_blob@[6 * k + 4], peer_blob@[6 * k + 5]),
    {
        match parse_compact_peers(peer_blob) {
            Ok(ps) => {
                self.peers = ps;
                Ok(())
            },
            Err(e) => Err(e),
        }
    }

    /// Applies one tracker response: remember the poll interval and adopt
    /// the peer list.  Fails exactly on a malformed peer list, leaving the
    /// peers unchanged.
    pub fn apply_tracker_response(&mut self, res: &TrackerResponse) -> (r: Result<(), ClientError>)
        requires
            old(self).wf(),
        ensures
            final(self).wf(),
            r is Ok <==> res.peers@.len() % 6 == 0,
            r is Err ==> r == Err::<(), ClientError>(ClientError::MalformedPeers),
            final(self).poll_interval == res.interval,
            final(self).torrent_file == old(self).torrent_file,
            r is Ok ==> final(self).peers@.len() == res.peers@.len() / 6,
    {
        self.poll_interval = res.interval;
        self.set_peers(&res.peers)
    }
}

/// Collects verified pieces into the output buffer, each at its own piece
/// offset, counting each piece index at most once.
#[derive(Debug)]
pub struct Assembler {
    /// The assembled content, piece `i` at `[i * piece_length, ...)`.
    pub buffer: Vec<u8>,
    /// Which piece indexes have arrived already.
    pub received: Vec<bool>,
    /// How many distinct piece indexes have arrived.
    pub done: usize,
    /// The nominal piece length.
    pub piece_length: usize,
    /// The content's total length.
    pub total_length: usize,
    /// The number of pieces.
    pub num_pieces: usize,
}

impl Assembler {
    /// The buffer covers the content, there is one received-flag per piece,
    /// and `done` counts exactly the set flags.
    pub open spec fn wf(self) -> bool {
        &&& self.buffer@.len() == self.total_length
        &&& self.received@.len() == self.num_pieces
        &&& self.done == count_true_to(self.received@, self.num_pieces as int)
        &&& 1 <= self.piece_length <= u32::MAX
        &&& self.total_length + self.piece_length <= usize::MAX
        &&& self.num_pieces == spec_num_pieces(
            self.total_length as int,
            self.piece_length as int,
        )
    }

    /// An empty assembler for the torrent: a zeroed buffer, nothing
    /// received.
    pub fn new(t: &TorrentFile) -> (r: Assembler)
        requires
            t.wf(),
        ensures
            r.wf(),
            r.done == 0,
            r.piece_length == t.info.piece_length,
            r.total_length == t.info.length,
            r.num_pieces == t.piece_count,
            forall|i: int| 0 <= i < r.num_pieces ==> !r.received@[i],
            forall|j: int| 0 <= j < r.buffer@.len() ==> r.buffer@[j] == 0u8,
    {
        let total = t.info.length;
        let mut buffer: Vec<u8> = Vec::new();
        let mut j: usize = 0;
        while j < total
            invariant
                j <= total,
                buffer@.len() == j,
                forall|x: int| 0 <= x < j ==> buffer@[x] == 0u8,
            decreases total - j,
        {
            buffer.push(0u8);
            j = j + 1;
        }
        let n = t.piece_count;
        let mut received: Vec<bool> = Vec::new();
        let mut i: usize = 0;
        while i < n
            invariant
                i <= n,
                received@.len() == i,
                forall|x: int| 0 <= x < i ==> !received@[x],
            decreases n - i,
        {
            received.push(false);
            i = i + 1;
        }
        let r = Assembler {
            buffer,
            received,
            done: 0,
            piece_length: t.info.piece_length,
            total_length: t.info.length,
            num_pieces: t.piece_count,
        };
        proof {
            lemma_count_true_none(r.received@, r.num_pieces as int);
        }
        r
    }

    /// Places one piece's bytes at the piece's offset, unless that index
    /// has arrived before: a duplicate changes nothing and reports `false`.
    /// A fresh piece is copied into
    /// `[index * piece_length, index * piece_length + bytes.len())`,
    /// its flag is set, and `done` grows by one.
    pub fn add_piece(&mut self, index: u32, bytes: &Vec<u8>) -> (fresh: bool)
        requires
            old(self).wf(),
            index < old(self).num_pieces,
            bytes@.len() == spec_piece_size_of(
                old(self).total_length as int,
                old(self).piece_length as int,
                index as int,
            ),
        ensures
            final(self).wf(),
            final(self).piece_length == old(self).piece_length,
            final(self).total_length == old(self).total_length,
            final(self).num_pieces == old(self).num_pieces,
            fresh == !old(self).received@[index as int],
            !fresh ==> *final(self) == *old(self),
            fresh ==> final(self).received@ == old(self).received@.update(index as int, true)
                && final(self).done == old(self).done + 1 && final(self).buffer@.len() == old(
                self,
            ).buffer@.len() && forall|j: int|
                0 <= j < old(self).buffer@.len() ==> final(self).buffer@[j] == (if index
                    * old(self).piece_length <= j < index * old(self).piece_length + bytes@.len() {
                    bytes@[j - index * old(self).piece_length]
                } else {
                    old(self).buffer@[j]
                }),
    {
        let idx = index as usize;
        if self.received[idx] {
            return false;
        }
        proof {
            lemma_num_pieces_bounds(self.total_length as int, self.piece_length as int);
            assert(idx * self.piece_length <= (self.num_pieces - 1) * self.piece_length && 0 <= idx
                * self.piece_length) by (nonlinear_arith)
                requires
                    0 <= idx <= self.num_pieces - 1,
                    self.piece_length >= 1,
            ;
        }
        let start = idx * self.piece_length;
        let dlen = bytes.len();
        proof {
            assert(start + dlen <= self.total_length);
        }
        let mut k: usize = 0;
        while k < dlen
            invariant
                k <= dlen,
                dlen == bytes@.len(),
                start + dlen <= self.buffer@.len(),
                self.buffer@.len() <= usize::MAX,
                self.buffer@.len() == old(self).buffer@.len(),
                self.received == old(self).received,
                self.done == old(self).done,
                self.piece_length == old(self).piece_length,
                self.total_length == old(self).total_length,
                self.num_pieces == old(self).num_pieces,
                forall|j: int|
                    0 <= j < self.buffer@.len() ==> self.buffer@[j] == (if start <= j < start + k {
                        bytes@[j - start]
                    } else {
                        old(self).buffer@[j]
                    }),
            decreases dlen - k,
        {
            self.buffer.set(start + k, bytes[k]);
            k = k + 1;
        }
        proof {
            lemma_count_true_bound(self.received@, self.num_pieces as int);
            if self.done == self.num_pieces {
                lemma_count_true_full(self.received@, self.num_pieces as int);
            }
            lemma_count_true_update(self.received@, index as int, true, self.num_pieces as int);
        }
        self.received.set(idx, true);
        self.done = self.done + 1;
        true
    }

    /// Whether every piece has arrived.
    pub fn is_complete(&self) -> (r: bool)
        ensures
            r == (self.done == self.num_pieces),
    {
        self.done == self.num_pieces
    }

    /// The assembled content so far.
    pub fn buffer(&self) -> (r: &Vec<u8>)
        ensures
            r@ == self.buffer@,
    {
        &self.buffer
    }
}

/// Exactly-once delivery: a duplicate piece index never changes the
/// assembler (`add_piece` reports it stale), and once `done` reaches the
/// piece count, every piece index has been received exactly once.
pub proof fn lemma_complete_all_received(a: Assembler)
    requires
        a.wf(),
        a.done == a.num_pieces,
    ensures
        forall|i: int| 0 <= i < a.num_pieces ==> a.received@[i],
{
    lemma_count_true_full(a.received@, a.num_pieces as int);
}

} // verus!
