//! Downloading one piece over one peer session.
//!
//! A sliding window of block requests keeps up to `MAX_BACKLOG` requests in
//! flight, each for at most `MAX_REQUEST_SIZE` bytes.  Arriving blocks are
//! copied into the piece buffer; a choke abandons the outstanding window so
//! the unanswered region is requested again once unchoked.

use crate::block::BlockInfo;
use crate::error::{ClientError, ProtocolError};
use crate::hashing::{sha1_digest, sha1_of};
use crate::message::{Message, MessageV};
use crate::session::PeerSessionState;
use crate::types::{bytes_eq, PieceHash};
use vstd::prelude::*;

verus! {

/// The most block requests one session keeps outstanding.
pub const MAX_BACKLOG: u32 = 10;

/// The most bytes one block request may ask for.
pub const MAX_REQUEST_SIZE: u32 = 16384;

/// One piece to fetch: its index, its expected SHA-1 digest, and its length
/// in bytes.
#[derive(Clone, Debug)]
pub struct PieceWork {
    pub index: u32,
    pub hash: PieceHash,
    pub length: u32,
}

impl PieceWork {
    /// The hash is a SHA-1 digest and the piece is not empty.
    pub open spec fn wf(self) -> bool {
        &&& self.hash@.len() == 20
        &&& self.length >= 1
    }

    /// Whether `buffer` is the piece this work item asked for.
    pub fn check_integrity(&self, buffer: &Vec<u8>) -> (r: bool)
        ensures
            r == (sha1_of(buffer@) == self.hash@),
    {
        let digest = sha1_digest(buffer);
        bytes_eq(&digest, &self.hash)
    }
}

/// One verified piece: its index and its bytes.
#[derive(Debug)]
pub struct PieceResult {
    pub index: u32,
    pub buf: Vec<u8>,
}

/// The sliding-window state of one piece being fetched from one peer.
#[derive(Debug)]
pub struct PieceInProgress {
    /// The piece's index, equal to the work item's.
    pub index: u32,
    /// The piece's bytes, filled block by block.
    pub buffer: Vec<u8>,
    /// How many bytes of the piece have arrived.
    pub downloaded: u32,
    /// How many bytes of the piece have been asked for.
    pub requested: u32,
    /// How many block requests are outstanding.
    pub backlog: u32,
}

impl PieceInProgress {
    /// The sliding-window invariant: the buffer covers the piece, at most
    /// `MAX_BACKLOG` requests are outstanding, and
    /// `downloaded <= requested <= length`.
    pub open spec fn wf(self, work: PieceWork) -> bool {
        &&& self.index == work.index
        &&& self.buffer@.len() == work.length
        &&& self.downloaded <= self.requested <= work.length
        &&& self.backlog <= MAX_BACKLOG
    }

    /// Fresh state for one work item: an all-zero buffer and empty window.
    pub fn new(work: &PieceWork) -> (r: PieceInProgress)
        requires
            work.wf(),
        ensures
            r.wf(*work),
            r.downloaded == 0,
            r.requested == 0,
            r.backlog == 0,
            forall|j: int| 0 <= j < work.length ==> r.buffer@[j] == 0u8,
    {
        let len = work.length as usize;
        let mut buffer: Vec<u8> = Vec::new();
        let mut k: usize = 0;
        while k < len
            invariant
                k <= len,
                buffer@.len() == k,
                forall|j: int| 0 <= j < k ==> buffer@[j] == 0u8,
            decreases len - k,
        {
            buffer.push(0u8);
            k = k + 1;
        }
        PieceInProgress { index: work.index, buffer, downloaded: 0, requested: 0, backlog: 0 }
    }
}

/// The block requests a session sends from the window state `(requested,
/// backlog)`: keep asking for the next `min(MAX_REQUEST_SIZE, length -
/// requested)` bytes until the window is full or the piece fully asked for.
pub open spec fn spec_requests(index: u32, requested: int, length: int, backlog: int) -> Seq<
    BlockInfo,
>
    decreases MAX_BACKLOG - backlog,
{
    if backlog >= MAX_BACKLOG || requested >= length {
        Seq::empty()
    } else {
        let size = if length - requested < MAX_REQUEST_SIZE {
            length - requested
        } else {
            MAX_REQUEST_SIZE as int
        };
        seq![
            BlockInfo {
                piece_index: index,
                block_offset: requested as u32,
                block_length: size as u32,
            },
        ] + spec_requests(index, requested + size, length, backlog + 1)
    }
}

/// Where `requested` stands after the window is filled from `(requested,
/// backlog)`.
pub open spec fn spec_requested_after(requested: int, length: int, backlog: int) -> int
    decreases MAX_BACKLOG - backlog,
{
    if backlog >= MAX_BACKLOG || requested >= length {
        requested
    } else {
        let size = if length - requested < MAX_REQUEST_SIZE {
            length - requested
        } else {
            MAX_REQUEST_SIZE as int
        };
        spec_requested_after(requested + size, length, backlog + 1)
    }
}

/// Filling the window never asks beyond the piece: the final `requested`
/// stays between its old value and `length`, and the window grows by exactly
/// the number of requests emitted.
pub proof fn lemma_requests_bounds(index: u32, requested: int, length: int, backlog: int)
    requires
        0 <= requested <= length,
        0 <= backlog <= MAX_BACKLOG,
    ensures
        requested <= spec_requested_after(requested, length, backlog) <= length,
        spec_requests(index, requested, length, backlog).len() + backlog <= MAX_BACKLOG,
    decreases MAX_BACKLOG - backlog,
{
    if backlog >= MAX_BACKLOG || requested >= length {
    } else {
        let size = if length - requested < MAX_REQUEST_SIZE {
            length - requested
        } else {
            MAX_REQUEST_SIZE as int
        };
        lemma_requests_bounds(index, requested + size, length, backlog + 1);
    }
}

/// One step of the sliding window rule: with room in the window and bytes
/// still unrequested, the request list starts with the next block and
/// continues from the advanced window state.
proof fn lemma_requests_unfold(index: u32, requested: int, length: int, backlog: int)
    requires
        0 <= backlog < MAX_BACKLOG,
        0 <= requested < length,
    ensures
        ({
            let size = if length - requested < MAX_REQUEST_SIZE {
                length - requested
            } else {
                MAX_REQUEST_SIZE as int
            };
            &&& spec_requests(index, requested, length, backlog) == seq![
                (BlockInfo {
                    piece_index: index,
                    block_offset: requested as u32,
                    block_length: size as u32,
                }),
            ] + spec_requests(index, requested + size, length, backlog + 1)
            &&& spec_requested_after(requested, length, backlog) == spec_requested_after(
                requested + size,
                length,
                backlog + 1,
            )
        }),
{
}

impl PieceInProgress {
    /// Sends as many block requests as the window allows, per the sliding
    /// window rule; when choked, sends nothing.  The returned list is
    /// exactly `spec_requests` of the old window state.
    pub fn fill_requests(&mut self, work: &PieceWork, choked: bool) -> (reqs: Vec<BlockInfo>)
        requires
            old(self).wf(*work),
            work.wf(),
        ensures
            final(self).wf(*work),
            final(self).index == old(self).index,
            final(self).buffer@ == old(self).buffer@,
            final(self).downloaded == old(self).downloaded,
            choked ==> *final(self) == *old(self) && reqs@ =~= Seq::<BlockInfo>::empty(),
            !choked ==> reqs@ =~= spec_requests(
                work.index,
                old(self).requested as int,
                work.length as int,
                old(self).backlog as int,
            ),
            !choked ==> final(self).requested == spec_requested_after(
                old(self).requested as int,
                work.length as int,
                old(self).backlog as int,
            ),
            !choked ==> final(self).backlog == old(self).backlog + reqs@.len(),
            !choked ==> (final(self).backlog == MAX_BACKLOG || final(self).requested
                == work.length),
    {
        let mut reqs: Vec<BlockInfo> = Vec::new();
        if choked {
            return reqs;
        }
        let ghost orig_requested = self.requested as int;
        let ghost orig_backlog = self.backlog as int;
        let ghost glen = work.length as int;
        while self.backlog < MAX_BACKLOG && self.requested < work.length
            invariant
                self.wf(*work),
                work.wf(),
                self.index == old(self).index,
                self.buffer@ == old(self).buffer@,
                self.downloaded == old(self).downloaded,
                self.backlog == orig_backlog + reqs@.len(),
                glen == work.length as int,
                orig_requested >= 0,
                spec_requests(work.index, orig_requested, glen, orig_backlog) =~= reqs@
                    + spec_requests(
                    work.index,
                    self.requested as int,
                    glen,
                    self.backlog as int,
                ),
                spec_requested_after(orig_requested, glen, orig_backlog) == spec_requested_after(
                    self.requested as int,
                    glen,
                    self.backlog as int,
                ),
            decreases MAX_BACKLOG - self.backlog,
        {
            let remaining = work.length - self.requested;
            let block_size = if remaining < MAX_REQUEST_SIZE {
                remaining
            } else {
                MAX_REQUEST_SIZE
            };
            let info = BlockInfo {
                piece_index: work.index,
                block_offset: self.requested,
                block_length: block_size,
            };
            proof {
                lemma_requests_unfold(
                    work.index,
                    self.requested as int,
                    glen,
                    self.backlog as int,
                );
                assert(reqs@ + seq![info] + spec_requests(
                    work.index,
                    self.requested as int + block_size as int,
                    glen,
                    self.backlog as int + 1,
                ) =~= reqs@ + (seq![info] + spec_requests(
                    work.index,
                    self.requested as int + block_size as int,
                    glen,
                    self.backlog as int + 1,
                )));
            }
            reqs.push(info);
            self.requested = self.requested + block_size;
            self.backlog = self.backlog + 1;
        }
        proof {
            assert(spec_requests(work.index, self.requested as int, glen, self.backlog as int)
                =~= Seq::<BlockInfo>::empty());
            assert(reqs@ + Seq::<BlockInfo>::empty() =~= reqs@);
        }
        reqs
    }
}

/// The bounds the sliding window keeps at all times: never more than
/// `MAX_BACKLOG` outstanding requests, never a request beyond the piece.
pub proof fn lemma_window_bounds(p: PieceInProgress, work: PieceWork)
    requires
        p.wf(work),
    ensures
        p.backlog <= MAX_BACKLOG,
        p.requested <= work.length,
        p.downloaded <= work.length,
{
}

/// Applies one received message to the session flags and the piece in
/// progress:
/// choke/unchoke set the choke flag (a choke also abandons the outstanding
/// window, so the unanswered region is re-requested once unchoked); a have
/// marks the remote's bitfield; a block that matches the piece and falls
/// within the requested range is copied into the buffer; a mismatched block
/// is discarded; a second bitfield is a protocol error; everything else is
/// recorded but not acted on.
pub fn handle_message(
    progress: &mut PieceInProgress,
    session: &mut PeerSessionState,
    work: &PieceWork,
    msg: &Message,
) -> (r: Result<(), ProtocolError>)
    requires
        old(progress).wf(*work),
        work.wf(),
        old(session).wf(old(session).remote_bitfield@.len()),
    ensures
        final(progress).wf(*work),
        final(session).wf(old(session).remote_bitfield@.len()),
        final(session).remote_bitfield@.len() == old(session).remote_bitfield@.len(),
        match msg@ {
            MessageV::Choke => r == Ok::<(), ProtocolError>(()) && final(session).choked_by_remote
                && final(session).remote_bitfield@ == old(session).remote_bitfield@ && final(session).interested_in_remote == old(session).interested_in_remote && final(progress).requested
                == old(progress).downloaded && final(progress).backlog == 0 && final(progress).downloaded == old(progress).downloaded && final(progress).buffer@ == old(progress).buffer@ && final(progress).index == old(progress).index,
            MessageV::Unchoke => r == Ok::<(), ProtocolError>(()) && !final(session).choked_by_remote && final(session).remote_bitfield@ == old(session).remote_bitfield@
                && final(session).interested_in_remote == old(session).interested_in_remote
                && *final(progress) == *old(progress),
            MessageV::Have { piece_index } => {
                if piece_index < old(session).remote_bitfield@.len() {
                    &&& r == Ok::<(), ProtocolError>(())
                    &&& final(session).remote_bitfield@ == old(session).remote_bitfield@.update(
                        piece_index as int,
                        true,
                    )
                    &&& final(session).choked_by_remote == old(session).choked_by_remote
                    &&& *final(progress) == *old(progress)
                } else {
                    r == Err::<(), ProtocolError>(ProtocolError::PieceIndexOutOfRange) && *final(session) == *old(session) && *final(progress) == *old(progress)
                }
            },
            MessageV::Bitfield(_) => r == Err::<(), ProtocolError>(
                ProtocolError::UnexpectedBitfield,
            ) && *final(session) == *old(session) && *final(progress) == *old(progress),
            MessageV::Block { piece_index, offset, block_data } => {
                let accept = piece_index == work.index && offset + block_data.len() <= work.length
                    && old(progress).backlog >= 1 && old(progress).downloaded + block_data.len()
                    <= old(progress).requested;
                &&& r == Ok::<(), ProtocolError>(())
                &&& *final(session) == *old(session)
                &&& if accept {
                    &&& final(progress).downloaded == old(progress).downloaded + block_data.len()
                    &&& final(progress).backlog == old(progress).backlog - 1
                    &&& final(progress).requested == old(progress).requested
                    &&& final(progress).index == old(progress).index
                    &&& final(progress).buffer@.len() == old(progress).buffer@.len()
                    &&& forall|j: int|
                        0 <= j < old(progress).buffer@.len() ==> final(progress).buffer@[j] == (
                        if offset <= j < offset + block_data.len() {
                            block_data[j - offset]
                        } else {
                            old(progress).buffer@[j]
                        })
                } else {
                    *final(progress) == *old(progress)
                }
            },
            _ => r == Ok::<(), ProtocolError>(()) && *final(session) == *old(session) && *final(progress) == *old(progress),
        },
{
    match msg {
        Message::Choke => {
            session.choked_by_remote = true;
            progress.requested = progress.downloaded;
            progress.backlog = 0;
            Ok(())
        },
        Message::Unchoke => {
            session.choked_by_remote = false;
            Ok(())
        },
        Message::Have { piece_index } => {
            let n = session.remote_bitfield.len();
            let idx = *piece_index as usize;
            if idx < n {
                session.remote_bitfield.set_piece(idx);
                Ok(())
            } else {
                Err(ProtocolError::PieceIndexOutOfRange)
            }
        },
        Message::Bitfield(_) => Err(ProtocolError::UnexpectedBitfield),
        Message::Block { piece_index, offset, block_data } => {
            let dlen = block_data.len();
            let fits = *piece_index == work.index && dlen <= 0xffff_ffffusize && (*offset as u64)
                + (dlen as u64) <= (work.length as u64) && progress.backlog >= 1 && (
            progress.downloaded as u64) + (dlen as u64) <= (progress.requested as u64);
            if fits {
                let off = *offset as usize;
                proof {
                    assert(off + dlen <= progress.buffer@.len());
                }
                let mut k: usize = 0;
                while k < dlen
                    invariant
                        k <= dlen,
                        dlen == block_data@.len(),
                        off + dlen <= progress.buffer@.len(),
                        progress.buffer@.len() <= u32::MAX,
                        progress.buffer@.len() == old(progress).buffer@.len(),
                        progress.index == old(progress).index,
                        progress.downloaded == old(progress).downloaded,
                        progress.requested == old(progress).requested,
                        progress.backlog == old(progress).backlog,
                        forall|j: int|
                            0 <= j < progress.buffer@.len() ==> progress.buffer@[j] == (if off <= j
                                < off + k {
                                block_data@[j - off]
                            } else {
                                old(progress).buffer@[j]
                            }),
                    decreases dlen - k,
                {
                    progress.buffer.set(off + k, block_data[k]);
                    k = k + 1;
                }
                progress.downloaded = progress.downloaded + (dlen as u32);
                progress.backlog = progress.backlog - 1;
                Ok(())
            } else {
                Ok(())
            }
        },
        _ => Ok(()),
    }
}

/// Verifies a fully downloaded buffer against the work item's hash.
/// Succeeds exactly when the buffer's SHA-1 digest is the expected one, and
/// then yields the piece result for this work item; a mismatch is the
/// retryable integrity error.
pub fn complete_piece(work: &PieceWork, buffer: Vec<u8>) -> (r: Result<PieceResult, ClientError>)
    requires
        work.wf(),
        buffer@.len() == work.length,
    ensures
        r is Ok <==> sha1_of(buffer@) == work.hash@,
        r matches Ok(res) ==> res.index == work.index && res.buf@ == buffer@ && res.buf@.len()
            == work.length && sha1_of(res.buf@) == work.hash@,
        r is Err ==> r == Err::<PieceResult, ClientError>(ClientError::IntegrityMismatch),
{
    if work.check_integrity(&buffer) {
        Ok(PieceResult { index: work.index, buf: buffer })
    } else {
        Err(ClientError::IntegrityMismatch)
    }
}

} // verus!
