//! Laws tying the operations together.
//!
//! Every operation's contract states its exact effect on the heap as a block
//! transformation; these proof functions state and check the properties that
//! span several operations — what a clone and its release, or a downgrade and
//! its release, do together, and what copy-on-write guarantees the handles
//! that stay behind.

use crate::heap::{
    block_dec_strong, block_dec_weak, block_detach, block_inc_strong, block_inc_weak, block_inv,
    block_new, block_release_strong, lemma_wf_push, lemma_wf_update, weak_refs, wf_seq, Block,
};
use vstd::prelude::*;

verus! {

/// A fresh block is uniquely owned: its strong count starts at one, its weak
/// handle count at zero, and it holds exactly the given value.
pub proof fn lemma_new_block<T>(v: T)
    ensures
        block_new(v).strong == 1,
        weak_refs(block_new(v)) == 0,
        block_new(v).value == Some(v),
        block_inv(block_new(v)),
{
}

/// Cloning a strong handle raises the strong count by exactly one and leaves
/// the weak handle count and the value alone; releasing the clone restores
/// the block exactly.
pub proof fn lemma_clone_roundtrip<T>(b: Block<T>)
    requires
        block_inv(b),
        b.strong >= 1,
    ensures
        block_inc_strong(b).strong == b.strong + 1,
        weak_refs(block_inc_strong(b)) == weak_refs(b),
        block_inc_strong(b).value == b.value,
        block_release_strong(block_inc_strong(b)) == b,
{
}

/// Downgrading raises the weak handle count by exactly one and leaves the
/// strong count and the value alone; releasing that weak handle restores the
/// block exactly.
pub proof fn lemma_downgrade_roundtrip<T>(b: Block<T>)
    requires
        block_inv(b),
        b.strong >= 1,
    ensures
        block_inc_weak(b).strong == b.strong,
        block_inc_weak(b).value == b.value,
        weak_refs(block_inc_weak(b)) == weak_refs(b) + 1,
        block_dec_weak(block_inc_weak(b)) == b,
{
}

/// Releasing the last strong handle retires the value for good: the strong
/// count is zero and the value gone, so an upgrade can never succeed again,
/// while every outstanding weak handle stays counted.
pub proof fn lemma_release_last_strong<T>(b: Block<T>)
    requires
        block_inv(b),
        b.strong == 1,
    ensures
        block_release_strong(b).strong == 0,
        block_release_strong(b).value is None,
        weak_refs(block_release_strong(b)) == weak_refs(b),
        block_inv(block_release_strong(b)),
{
}

/// Copy-on-write forking: when a block is shared, moving one handle to a
/// fresh block holding `v` leaves every other handle's block untouched —
/// same counts, same value — while the fresh block is uniquely owned. Nothing
/// later written to the fresh block can therefore be seen through any handle
/// that stayed behind.
pub proof fn lemma_make_mut_forks<T>(s: Seq<Block<T>>, i: int, v: T)
    requires
        wf_seq(s),
        0 <= i < s.len(),
        s[i].strong > 1,
    ensures
        ({
            let post = s.update(i, block_dec_strong(s[i])).push(block_new(v));
            &&& post.len() == s.len() + 1
            &&& post[i].value == s[i].value
            &&& post[i].strong == s[i].strong - 1
            &&& weak_refs(post[i]) == weak_refs(s[i])
            &&& post[s.len() as int] == block_new(v)
            &&& weak_refs(post[s.len() as int]) == 0
            &&& forall|j: int| 0 <= j < s.len() && j != i ==> #[trigger] post[j] == s[j]
            &&& wf_seq(post)
        }),
{
    lemma_wf_update(s, i, block_dec_strong(s[i]));
    lemma_wf_push(s.update(i, block_dec_strong(s[i])), block_new(v));
}

/// A block that has left its live state never re-enters it. Once the strong
/// count is zero the value is gone, and the only operations a weak handle can
/// still apply — another downgrade-clone or a release — touch the weak count
/// alone: the block stays dead, whatever they do, until its storage is freed.
pub proof fn lemma_retired_block_stays_retired<T>(b: Block<T>)
    requires
        block_inv(b),
        b.strong == 0,
    ensures
        block_inc_weak(b).strong == 0,
        block_inc_weak(b).value is None,
        block_inv(block_inc_weak(b)),
        block_dec_weak(b).strong == 0,
        block_dec_weak(b).value is None,
        block_inv(block_dec_weak(b)),
{
}

/// When the only strong handle has weak observers, moving the value away
/// retires the old block: it can no longer upgrade, yet every outstanding
/// weak handle stays counted on it.
pub proof fn lemma_make_mut_detaches_weak<T>(b: Block<T>)
    requires
        block_inv(b),
        b.strong == 1,
        weak_refs(b) >= 1,
    ensures
        block_detach(b).strong == 0,
        block_detach(b).value is None,
        weak_refs(block_detach(b)) == weak_refs(b),
        block_inv(block_detach(b)),
{
}

} // verus!
