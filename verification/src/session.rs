//! Per-peer session state: the remote's bitfield and choke status.
//!
//! A session starts choked and not interested, with an all-zero remote
//! bitfield.  Before the first non-keep-alive message a peer may announce
//! its pieces with one bitfield message; afterwards another bitfield is a
//! protocol error.

use crate::bitfield::{spec_bits, Bitfield};
use crate::error::ProtocolError;
use crate::message::Message;
use vstd::prelude::*;

verus! {

/// What one pre-active message asks the session driver to do next.
#[derive(Clone, Copy, Debug, PartialEq, Eq, Structural)]
pub enum PreactiveStep {
    /// A keep-alive or an early have: keep waiting for the first real message.
    AwaitMore,
    /// The remote's bitfield arrived and was installed: go active.
    BitfieldInstalled,
    /// A non-bitfield message arrived first: go active with an all-zero
    /// bitfield and deliver this message as the first active-state message.
    Deliver,
}

/// The state this side keeps about one remote peer.
pub struct PeerSessionState {
    /// Which pieces the remote claims to hold.
    pub remote_bitfield: Bitfield,
    /// Whether the remote currently refuses to serve requests.
    pub choked_by_remote: bool,
    /// Whether this side told the remote it is interested.
    pub interested_in_remote: bool,
}

impl PeerSessionState {
    /// A session over a torrent of `n` pieces is well-formed when its
    /// bitfield covers exactly those `n` pieces.
    pub open spec fn wf(self, n: nat) -> bool {
        &&& self.remote_bitfield.wf()
        &&& self.remote_bitfield@.len() == n
    }

    /// The initial session state: choked, not interested, no pieces claimed.
    pub fn new(n: usize) -> (r: PeerSessionState)
        requires
            n <= usize::MAX - 7,
        ensures
            r.wf(n as nat),
            r.choked_by_remote,
            !r.interested_in_remote,
            forall|i: int| 0 <= i < n ==> !r.remote_bitfield@[i],
    {
        PeerSessionState {
            remote_bitfield: Bitfield::new_empty(n),
            choked_by_remote: true,
            interested_in_remote: false,
        }
    }

    /// Handles one message received before the session goes active: installs
    /// a bitfield of the right length, applies early haves, skips
    /// keep-alives, and hands anything else back for active-state delivery.
    pub fn on_preactive_message(&mut self, msg: &Message) -> (r: Result<
        PreactiveStep,
        ProtocolError,
    >)
        requires
            old(self).wf(old(self).remote_bitfield@.len()),
        ensures
            final(self).wf(old(self).remote_bitfield@.len()),
            final(self).remote_bitfield@.len() == old(self).remote_bitfield@.len(),
            final(self).choked_by_remote == old(self).choked_by_remote,
            final(self).interested_in_remote == old(self).interested_in_remote,
            match msg@ {
                crate::message::MessageV::KeepAlive => r == Ok::<PreactiveStep, ProtocolError>(
                    PreactiveStep::AwaitMore,
                ) && *final(self) == *old(self),
                crate::message::MessageV::Bitfield(raw) => {
                    if raw.len() == (old(self).remote_bitfield@.len() + 7) / 8 {
                        &&& r == Ok::<PreactiveStep, ProtocolError>(
                            PreactiveStep::BitfieldInstalled,
                        )
                        &&& final(self).remote_bitfield@ == spec_bits(
                            raw,
                            old(self).remote_bitfield@.len(),
                        )
                    } else {
                        r == Err::<PreactiveStep, ProtocolError>(ProtocolError::LengthMismatch)
                            && *final(self) == *old(self)
                    }
                },
                crate::message::MessageV::Have { piece_index } => {
                    if piece_index < old(self).remote_bitfield@.len() {
                        &&& r == Ok::<PreactiveStep, ProtocolError>(PreactiveStep::AwaitMore)
                        &&& final(self).remote_bitfield@ == old(self).remote_bitfield@.update(
                            piece_index as int,
                            true,
                        )
                    } else {
                        r == Err::<PreactiveStep, ProtocolError>(
                            ProtocolError::PieceIndexOutOfRange,
                        ) && *final(self) == *old(self)
                    }
                },
                _ => r == Ok::<PreactiveStep, ProtocolError>(PreactiveStep::Deliver)
                    && *final(self) == *old(self),
            },
    {
        match msg {
            Message::KeepAlive => Ok(PreactiveStep::AwaitMore),
            Message::Bitfield(raw) => {
                let n = self.remote_bitfield.len();
                let raw2 = crate::types::copy_range(raw, 0, raw.len());
                match Bitfield::from_bytes(raw2, n) {
                    Some(bf) => {
                        self.remote_bitfield = bf;
                        Ok(PreactiveStep::BitfieldInstalled)
                    },
                    None => Err(ProtocolError::LengthMismatch),
                }
            },
            Message::Have { piece_index } => {
                let n = self.remote_bitfield.len();
                let idx = *piece_index as usize;
                if idx < n {
                    self.remote_bitfield.set_piece(idx);
                    Ok(PreactiveStep::AwaitMore)
                } else {
                    Err(ProtocolError::PieceIndexOutOfRange)
                }
            },
            _ => Ok(PreactiveStep::Deliver),
        }
    }
}

} // verus!
