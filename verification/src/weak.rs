//! The weak, non-owning handle.

use core::marker::PhantomData;

use crate::heap::{
    block_dec_weak, block_inc_strong, block_inc_weak, lemma_wf_update, weak_refs, Heap,
};
use crate::strong::Shared;
use vstd::prelude::*;

verus! {

/// A non-owning handle to a control block of a [`Heap`].
///
/// A weak handle keeps the block's storage alive but never the value: it
/// counts into the weak count only. To reach the value it must first be
/// upgraded to a [`Shared`] handle, which succeeds exactly while some strong
/// handle still keeps the value alive. A weak handle is consumed by
/// [`Weak2::drop`].
pub struct Weak2<T> {
    idx: usize,
    marker: PhantomData<T>,
}

impl<T> Weak2<T> {
    /// The index of the control block this handle refers to.
    pub closed spec fn id(&self) -> int {
        self.idx as int
    }

    /// The handle is live in `h`: its block exists and counts at least one
    /// outstanding weak handle.
    pub open spec fn valid(&self, h: Heap<T>) -> bool {
        &&& 0 <= self.id() < h@.len()
        &&& weak_refs(h@[self.id()]) >= 1
    }

    pub(crate) fn from_idx(idx: usize) -> (w: Weak2<T>)
        ensures
            w.id() == idx,
    {
        Weak2 { idx, marker: PhantomData }
    }

    /// Tries to win back a strong handle. While at least one strong handle
    /// keeps the value alive this succeeds and increments the strong count;
    /// once the block has left its live state — its value destroyed or moved
    /// away — it fails, and the heap is untouched.
    pub fn upgrade(&self, heap: &mut Heap<T>) -> (r: Option<Shared<T>>)
        requires
            old(heap).wf(),
            self.valid(*old(heap)),
            old(heap)@[self.id()].strong < usize::MAX,
        ensures
            final(heap).wf(),
            self.valid(*final(heap)),
            ({
                let b = old(heap)@[self.id()];
                if b.strong == 0 {
                    &&& r is None
                    &&& final(heap)@ == old(heap)@
                } else {
                    &&& r is Some
                    &&& r.unwrap().id() == self.id()
                    &&& r.unwrap().valid(*final(heap))
                    &&& final(heap)@ == old(heap)@.update(self.id(), block_inc_strong(b))
                }
            }),
    {
        if heap.strong(self.idx) == 0 {
            None
        } else {
            heap.inc_strong(self.idx);
            proof {
                lemma_wf_update(
                    old(heap)@,
                    self.id(),
                    block_inc_strong(old(heap)@[self.id()]),
                );
            }
            Some(Shared::from_idx(self.idx))
        }
    }

    /// Creates another weak handle to the same block, incrementing the weak
    /// count by exactly one; the strong count and the value are untouched.
    pub fn clone(&self, heap: &mut Heap<T>) -> (w: Weak2<T>)
        requires
            old(heap).wf(),
            self.valid(*old(heap)),
            old(heap)@[self.id()].weak < usize::MAX,
        ensures
            final(heap).wf(),
            w.id() == self.id(),
            final(heap)@ == old(heap)@.update(self.id(), block_inc_weak(old(heap)@[self.id()])),
            w.valid(*final(heap)),
            self.valid(*final(heap)),
    {
        heap.inc_weak(self.idx);
        proof {
            lemma_wf_update(old(heap)@, self.id(), block_inc_weak(old(heap)@[self.id()]));
        }
        Weak2 { idx: self.idx, marker: PhantomData }
    }

    /// Releases this weak handle, decrementing the weak count by one. When
    /// the count reaches zero the block's storage is done with: the slot
    /// stays retired forever.
    pub fn drop(self, heap: &mut Heap<T>)
        requires
            old(heap).wf(),
            self.valid(*old(heap)),
        ensures
            final(heap).wf(),
            final(heap)@ == old(heap)@.update(self.id(), block_dec_weak(old(heap)@[self.id()])),
    {
        heap.dec_weak(self.idx);
        proof {
            lemma_wf_update(old(heap)@, self.id(), block_dec_weak(old(heap)@[self.id()]));
        }
    }
}

} // verus!
