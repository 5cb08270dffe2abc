//! Choosing which piece to request next.
//!
//! The picker tracks which pieces this side owns, how many peers offer each
//! piece, and which pieces are already being fetched.  Its bookkeeping
//! counters are exact: `missing_count` counts the pieces not yet owned, and
//! `free_count` the pieces that are neither owned nor being fetched.

use crate::bitfield::{count_false_to, Bitfield};
use crate::counting::{
    count_true_to, lemma_count_true_agree, lemma_count_true_pos, lemma_count_true_update,
};
use crate::types::PieceIndex;
use vstd::prelude::*;

verus! {

/// What the picker knows of one piece.
#[derive(Clone, Copy, Debug, PartialEq, Eq, Structural)]
pub struct Piece {
    /// With how many known peers the piece is available.
    pub frequency: usize,
    /// Whether a fetch of the piece has been handed out already.
    pub is_pending: bool,
}

/// Picks un-owned, available, not-yet-pending pieces, lowest index first.
pub struct PiecePicker {
    /// The pieces this side already owns.
    pub own_pieces: Bitfield,
    /// Per-piece availability and pending state.
    pub pieces: Vec<Piece>,
    /// How many pieces are not owned yet.
    pub missing_count: usize,
    /// How many pieces may still be picked.
    pub free_count: usize,
}

/// `count_false_to` is `count_true_to` of the pointwise negation.
proof fn lemma_count_false_as_true(s: Seq<bool>, t: Seq<bool>, k: int)
    requires
        forall|i: int| 0 <= i < k ==> t[i] == !s[i],
    ensures
        count_false_to(s, k) == count_true_to(t, k),
    decreases k,
{
    if k > 0 {
        lemma_count_false_as_true(s, t, k - 1);
    }
}

impl PiecePicker {
    /// One flag per piece: not owned yet.
    pub open spec fn missing_seq(self) -> Seq<bool> {
        Seq::new(self.own_pieces@.len(), |i: int| !self.own_pieces@[i])
    }

    /// One flag per piece: neither owned nor pending, so still pickable
    /// once some peer offers it.
    pub open spec fn free_seq(self) -> Seq<bool> {
        Seq::new(
            self.own_pieces@.len(),
            |i: int| !self.own_pieces@[i] && !self.pieces@[i].is_pending,
        )
    }

    /// The bookkeeping invariant: one entry per piece, and both counters
    /// count exactly what they claim to.
    pub open spec fn wf(self) -> bool {
        &&& self.own_pieces.wf()
        &&& self.pieces@.len() == self.own_pieces@.len()
        &&& self.missing_count == count_true_to(self.missing_seq(), self.own_pieces@.len() as int)
        &&& self.free_count == count_true_to(self.free_seq(), self.own_pieces@.len() as int)
    }

    /// Piece `j` could be picked: not owned, offered by some peer, and not
    /// already pending.
    pub open spec fn pickable(self, j: int) -> bool {
        &&& !self.own_pieces@[j]
        &&& self.pieces@[j].frequency > 0
        &&& !self.pieces@[j].is_pending
    }

    /// A fresh picker over the pieces this side already owns: nothing is
    /// pending, nothing is known to be available, and both counters start
    /// at the number of missing pieces.
    pub fn new(own_pieces: Bitfield) -> (r: PiecePicker)
        requires
            own_pieces.wf(),
        ensures
            r.wf(),
            r.own_pieces == own_pieces,
            r.pieces@.len() == own_pieces@.len(),
            forall|i: int|
                0 <= i < own_pieces@.len() ==> r.pieces@[i] == (Piece {
                    frequency: 0usize,
                    is_pending: false,
                }),
            r.missing_count == count_false_to(own_pieces@, own_pieces@.len() as int),
            r.free_count == r.missing_count,
    {
        let n = own_pieces.len();
        let mut pieces: Vec<Piece> = Vec::new();
        let mut i: usize = 0;
        while i < n
            invariant
                i <= n,
                pieces@.len() == i,
                forall|j: int|
                    0 <= j < i ==> pieces@[j] == (Piece { frequency: 0usize, is_pending: false }),
            decreases n - i,
        {
            pieces.push(Piece { frequency: 0, is_pending: false });
            i = i + 1;
        }
        let missing_count = own_pieces.count_zeros();
        let r = PiecePicker { own_pieces, pieces, missing_count, free_count: missing_count };
        proof {
            let len = r.own_pieces@.len() as int;
            lemma_count_false_as_true(r.own_pieces@, r.missing_seq(), len);
            lemma_count_true_agree(r.free_seq(), r.missing_seq(), len);
        }
        r
    }

    /// Picks the lowest-indexed pickable piece, marks it pending, and
    /// returns its index; returns nothing when no piece is pickable.
    pub fn pick_piece(&mut self) -> (r: Option<PieceIndex>)
        requires
            old(self).wf(),
        ensures
            final(self).wf(),
            final(self).own_pieces == old(self).own_pieces,
            final(self).missing_count == old(self).missing_count,
            r matches Some(i) ==> {
                &&& i < old(self).pieces@.len()
                &&& old(self).pickable(i as int)
                &&& forall|j: int| 0 <= j < i ==> !old(self).pickable(j)
                &&& final(self).pieces@ == old(self).pieces@.update(
                    i as int,
                    Piece {
                        frequency: old(self).pieces@[i as int].frequency,
                        is_pending: true,
                    },
                )
                &&& final(self).free_count == old(self).free_count - 1
            },
            r is None ==> *final(self) == *old(self) && forall|j: int|
                0 <= j < old(self).pieces@.len() ==> !old(self).pickable(j),
    {
        let n = self.pieces.len();
        let mut index: usize = 0;
        while index < n
            invariant
                index <= n,
                n == self.pieces@.len(),
                self.wf(),
                *self == *old(self),
                forall|j: int| 0 <= j < index ==> !self.pickable(j),
            decreases n - index,
        {
            let owned = self.own_pieces.has_piece(index);
            let piece = self.pieces[index];
            if !owned && piece.frequency > 0 && !piece.is_pending {
                proof {
                    let len = self.own_pieces@.len() as int;
                    lemma_count_true_pos(self.free_seq(), len, index as int);
                }
                self.pieces.set(index, Piece { frequency: piece.frequency, is_pending: true });
                self.free_count = self.free_count - 1;
                proof {
                    let len = self.own_pieces@.len() as int;
                    let oldf = old(self).free_seq();
                    assert(self.free_seq() =~= oldf.update(index as int, false));
                    lemma_count_true_update(oldf, index as int, false, len);
                    lemma_count_true_agree(self.missing_seq(), old(self).missing_seq(), len);
                }
                return Some(index);
            }
            index = index + 1;
        }
        None
    }

    /// Records that one more peer offers piece `index`, and reports whether
    /// this side already owns it (as the stored bitfield has it).
    pub fn register_peer_piece(&mut self, index: PieceIndex) -> (r: bool)
        requires
            old(self).wf(),
            index < old(self).pieces@.len(),
            old(self).pieces@[index as int].frequency < usize::MAX,
        ensures
            final(self).wf(),
            final(self).own_pieces == old(self).own_pieces,
            final(self).missing_count == old(self).missing_count,
            final(self).free_count == old(self).free_count,
            final(self).pieces@ == old(self).pieces@.update(
                index as int,
                Piece {
                    frequency: (old(self).pieces@[index as int].frequency + 1) as usize,
                    is_pending: old(self).pieces@[index as int].is_pending,
                },
            ),
            r == old(self).own_pieces@[index as int],
    {
        let is_interested = self.own_pieces.has_piece(index);
        let piece = self.pieces[index];
        self.pieces.set(
            index,
            Piece { frequency: piece.frequency + 1, is_pending: piece.is_pending },
        );
        proof {
            let len = self.own_pieces@.len() as int;
            lemma_count_true_agree(self.free_seq(), old(self).free_seq(), len);
            lemma_count_true_agree(self.missing_seq(), old(self).missing_seq(), len);
        }
        is_interested
    }

    /// Records that piece `index` arrived and was verified: it is owned
    /// now, one piece fewer is missing, and, had it not been pending, one
    /// piece fewer is free to pick.
    pub fn received_piece(&mut self, index: PieceIndex)
        requires
            old(self).wf(),
            index < old(self).pieces@.len(),
            !old(self).own_pieces@[index as int],
        ensures
            final(self).wf(),
            final(self).own_pieces@ == old(self).own_pieces@.update(index as int, true),
            final(self).pieces@ == old(self).pieces@.update(
                index as int,
                Piece {
                    frequency: old(self).pieces@[index as int].frequency,
                    is_pending: false,
                },
            ),
            final(self).missing_count == old(self).missing_count - 1,
            final(self).free_count == old(self).free_count - (if old(
                self,
            ).pieces@[index as int].is_pending {
                0int
            } else {
                1int
            }),
    {
        proof {
            let len = self.own_pieces@.len() as int;
            lemma_count_true_pos(self.missing_seq(), len, index as int);
            if !self.pieces@[index as int].is_pending {
                lemma_count_true_pos(self.free_seq(), len, index as int);
            }
        }
        self.own_pieces.set_piece(index);
        self.missing_count = self.missing_count - 1;
        let piece = self.pieces[index];
        if !piece.is_pending {
            self.free_count = self.free_count - 1;
        }
        self.pieces.set(index, Piece { frequency: piece.frequency, is_pending: false });
        proof {
            let len = self.own_pieces@.len() as int;
            let oldm = old(self).missing_seq();
            let oldf = old(self).free_seq();
            assert(self.missing_seq() =~= oldm.update(index as int, false));
            lemma_count_true_update(oldm, index as int, false, len);
            assert(self.free_seq() =~= oldf.update(index as int, false));
            lemma_count_true_update(oldf, index as int, false, len);
        }
    }
}

} // verus!
