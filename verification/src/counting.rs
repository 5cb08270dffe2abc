//! Counting set entries of a boolean sequence, with the facts the piece
//! bookkeeping rests on.

use vstd::prelude::*;

verus! {

/// The number of `true` entries among the first `k` entries of `s`.
pub open spec fn count_true_to(s: Seq<bool>, k: int) -> int
    decreases k,
{
    if k <= 0 {
        0
    } else {
        count_true_to(s, k - 1) + if s[k - 1] {
            1int
        } else {
            0int
        }
    }
}

/// A count of `true` entries lies between 0 and the prefix length.
pub proof fn lemma_count_true_bound(s: Seq<bool>, k: int)
    ensures
        0 <= count_true_to(s, k) <= if k <= 0 {
            0int
        } else {
            k
        },
    decreases k,
{
    if k > 0 {
        lemma_count_true_bound(s, k - 1);
    }
}

/// Replacing one entry changes the count by the difference at that entry.
pub proof fn lemma_count_true_update(s: Seq<bool>, i: int, v: bool, k: int)
    requires
        0 <= i < s.len(),
        k <= s.len(),
    ensures
        count_true_to(s.update(i, v), k) == count_true_to(s, k) + if i < k {
            (if v {
                1int
            } else {
                0int
            }) - (if s[i] {
                1int
            } else {
                0int
            })
        } else {
            0int
        },
    decreases k,
{
    if k > 0 {
        lemma_count_true_update(s, i, v, k - 1);
    }
}

/// When every entry of the prefix is counted, every entry is set.
pub proof fn lemma_count_true_full(s: Seq<bool>, k: int)
    requires
        k <= s.len(),
        count_true_to(s, k) == k,
    ensures
        forall|i: int| 0 <= i < k ==> s[i],
    decreases k,
{
    if k > 0 {
        lemma_count_true_bound(s, k - 1);
        assert(s[k - 1]);
        lemma_count_true_full(s, k - 1);
    }
}

/// A prefix without any set entry counts zero.
pub proof fn lemma_count_true_none(s: Seq<bool>, k: int)
    requires
        forall|i: int| 0 <= i < k ==> !s[i],
    ensures
        count_true_to(s, k) == 0,
    decreases k,
{
    if k > 0 {
        lemma_count_true_none(s, k - 1);
    }
}

/// A set entry within the prefix makes the count positive.
pub proof fn lemma_count_true_pos(s: Seq<bool>, k: int, i: int)
    requires
        0 <= i < k,
        s[i],
    ensures
        count_true_to(s, k) >= 1,
    decreases k,
{
    if i < k - 1 {
        lemma_count_true_pos(s, k - 1, i);
    }
    lemma_count_true_bound(s, k - 1);
}

/// Two sequences that agree on a prefix count it alike.
pub proof fn lemma_count_true_agree(s: Seq<bool>, t: Seq<bool>, k: int)
    requires
        forall|i: int| 0 <= i < k ==> s[i] == t[i],
    ensures
        count_true_to(s, k) == count_true_to(t, k),
    decreases k,
{
    if k > 0 {
        lemma_count_true_agree(s, t, k - 1);
    }
}

} // verus!
