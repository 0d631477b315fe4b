//! The strong, owning handle.

use core::marker::PhantomData;

use crate::heap::{
    block_dec_strong, block_detach, block_inc_strong, block_inc_weak, block_new,
    block_release_strong, block_with_value, lemma_wf_push, lemma_wf_update, weak_refs, Heap,
};
use crate::weak::Weak2;
use vstd::prelude::*;

verus! {

/// An owning handle to a control block of a [`Heap`].
///
/// Any number of strong handles may share one block; the block's value stays
/// alive exactly as long as at least one of them does. A handle is consumed by
/// [`Shared::drop`] or [`Shared::try_unwrap`], so a released handle cannot be
/// used, let alone released twice.
pub struct Shared<T> {
    idx: usize,
    marker: PhantomData<T>,
}

impl<T> Shared<T> {
    /// The index of the control block this handle refers to.
    pub closed spec fn id(&self) -> int {
        self.idx as int
    }

    /// The handle is live in `h`: its block exists and holds at least one
    /// strong reference.
    pub open spec fn valid(&self, h: Heap<T>) -> bool {
        &&& 0 <= self.id() < h@.len()
        &&& h@[self.id()].strong >= 1
    }

    pub(crate) fn from_idx(idx: usize) -> (this: Shared<T>)
        ensures
            this.id() == idx,
    {
        Shared { idx, marker: PhantomData }
    }

    /// Allocates a new control block holding `value` and returns its first
    /// strong handle. The block starts with a strong count of one and no weak
    /// observers (only the baseline weak unit).
    pub fn new(heap: &mut Heap<T>, value: T) -> (this: Shared<T>)
        requires
            old(heap).wf(),
        ensures
            final(heap).wf(),
            this.id() == old(heap)@.len(),
            final(heap)@ == old(heap)@.push(block_new(value)),
            this.valid(*final(heap)),
            final(heap)@[this.id()].strong == 1,
            weak_refs(final(heap)@[this.id()]) == 0,
            final(heap)@[this.id()].value == Some(value),
    {
        let idx = heap.allocate(value);
        proof {
            lemma_wf_push(old(heap)@, block_new(value));
        }
        Shared { idx, marker: PhantomData }
    }

    /// Creates another strong handle to the same block, incrementing its
    /// strong count by exactly one; the weak count and the value are
    /// untouched, as is every other block.
    pub fn clone(&self, heap: &mut Heap<T>) -> (c: Shared<T>)
        requires
            old(heap).wf(),
            self.valid(*old(heap)),
            old(heap)@[self.id()].strong < usize::MAX,
        ensures
            final(heap).wf(),
            c.id() == self.id(),
            final(heap)@ == old(heap)@.update(
                self.id(),
                block_inc_strong(old(heap)@[self.id()]),
            ),
            c.valid(*final(heap)),
            self.valid(*final(heap)),
    {
        heap.inc_strong(self.idx);
        proof {
            lemma_wf_update(
                old(heap)@,
                self.id(),
                block_inc_strong(old(heap)@[self.id()]),
            );
        }
        Shared { idx: self.idx, marker: PhantomData }
    }

    /// Releases this strong handle. The strong count drops by one; if it
    /// reaches zero, the value is destroyed and the baseline weak unit is
    /// given back, so the block can never again produce the value.
    pub fn drop(self, heap: &mut Heap<T>)
        requires
            old(heap).wf(),
            self.valid(*old(heap)),
        ensures
            final(heap).wf(),
            final(heap)@ == old(heap)@.update(
                self.id(),
                block_release_strong(old(heap)@[self.id()]),
            ),
    {
        let i = self.idx;
        heap.dec_strong(i);
        if heap.strong(i) == 0 {
            let _value = heap.take_value(i);
            heap.dec_weak(i);
            proof {
                assert(heap@ =~= old(heap)@.update(
                    self.id(),
                    block_release_strong(old(heap)@[self.id()]),
                ));
            }
        } else {
            proof {
                assert(heap@ =~= old(heap)@.update(
                    self.id(),
                    block_release_strong(old(heap)@[self.id()]),
                ));
            }
        }
        proof {
            lemma_wf_update(
                old(heap)@,
                self.id(),
                block_release_strong(old(heap)@[self.id()]),
            );
        }
    }

    /// Moves the value out if this is the only strong handle — whatever the
    /// number of weak observers — consuming the handle and retiring the block
    /// to its weak-only state. Otherwise the heap is untouched and the very
    /// same handle comes back in the error.
    pub fn try_unwrap(this: Shared<T>, heap: &mut Heap<T>) -> (r: Result<T, Shared<T>>)
        requires
            old(heap).wf(),
            this.valid(*old(heap)),
        ensures
            final(heap).wf(),
            ({
                let b = old(heap)@[this.id()];
                if b.strong == 1 {
                    &&& r is Ok
                    &&& r->Ok_0 == b.value->0
                    &&& final(heap)@ == old(heap)@.update(this.id(), block_release_strong(b))
                } else {
                    &&& r == Err::<T, Shared<T>>(this)
                    &&& final(heap)@ == old(heap)@
                }
            }),
    {
        if Shared::would_unwrap(&this, &*heap) {
            let i = this.idx;
            let v = heap.take_value(i);
            heap.dec_strong(i);
            heap.dec_weak(i);
            proof {
                assert(heap@ =~= old(heap)@.update(
                    this.id(),
                    block_release_strong(old(heap)@[this.id()]),
                ));
                lemma_wf_update(
                    old(heap)@,
                    this.id(),
                    block_release_strong(old(heap)@[this.id()]),
                );
            }
            Ok(v)
        } else {
            Err(this)
        }
    }

    /// True exactly when [`Shared::try_unwrap`] would succeed: this is the
    /// only strong handle.
    pub fn would_unwrap(this: &Shared<T>, heap: &Heap<T>) -> (b: bool)
        requires
            heap.wf(),
            this.valid(*heap),
        ensures
            b == (heap@[this.id()].strong == 1),
    {
        Shared::strong_count(this, heap) == 1
    }

    /// Creates a weak handle to the same block, incrementing the weak count
    /// by one; the strong count and the value are untouched.
    pub fn downgrade(this: &Shared<T>, heap: &mut Heap<T>) -> (w: Weak2<T>)
        requires
            old(heap).wf(),
            this.valid(*old(heap)),
            old(heap)@[this.id()].weak < usize::MAX,
        ensures
            final(heap).wf(),
            w.id() == this.id(),
            final(heap)@ == old(heap)@.update(this.id(), block_inc_weak(old(heap)@[this.id()])),
            w.valid(*final(heap)),
            this.valid(*final(heap)),
    {
        heap.inc_weak(this.idx);
        proof {
            lemma_wf_update(old(heap)@, this.id(), block_inc_weak(old(heap)@[this.id()]));
        }
        Weak2::from_idx(this.idx)
    }

    /// The number of outstanding weak handles to this block, the baseline
    /// unit not counted.
    pub fn weak_count(this: &Shared<T>, heap: &Heap<T>) -> (n: usize)
        requires
            heap.wf(),
            this.valid(*heap),
        ensures
            n == weak_refs(heap@[this.id()]),
    {
        heap.weak(this.idx) - 1
    }

    /// The number of live strong handles to this block.
    pub fn strong_count(this: &Shared<T>, heap: &Heap<T>) -> (n: usize)
        requires
            heap.wf(),
            this.valid(*heap),
        ensures
            n == heap@[this.id()].strong,
    {
        heap.strong(this.idx)
    }

    /// True exactly when no other handle of either kind can observe the
    /// value: one strong handle, no weak ones.
    pub fn is_unique(this: &Shared<T>, heap: &Heap<T>) -> (u: bool)
        requires
            heap.wf(),
            this.valid(*heap),
        ensures
            u == (heap@[this.id()].strong == 1 && weak_refs(heap@[this.id()]) == 0),
    {
        Shared::weak_count(this, heap) == 0 && Shared::strong_count(this, heap) == 1
    }

    /// Borrows the value.
    pub fn borrow<'a>(this: &Shared<T>, heap: &'a Heap<T>) -> (v: &'a T)
        requires
            heap.wf(),
            this.valid(*heap),
        ensures
            *v == heap@[this.id()].value->0,
    {
        heap.value_ref(this.idx)
    }

    /// Mutably borrows the value without any uniqueness check: the reference
    /// comes back even while other strong or weak handles observe the same
    /// block, and what is written through it is seen by all of them. This
    /// deliberately relaxes the usual shared-ownership discipline; it is the
    /// caller's business to keep aliases from looking. The checked
    /// counterpart is [`Shared::make_mut`].
    pub fn get_mut<'a>(this: &mut Shared<T>, heap: &'a mut Heap<T>) -> (r: Option<&'a mut T>)
        requires
            old(heap).wf(),
            old(this).valid(*old(heap)),
        ensures
            *final(this) == *old(this),
            r is Some,
            *r.unwrap() == old(heap)@[old(this).id()].value->0,
            final(heap)@ == old(heap)@.update(
                old(this).id(),
                block_with_value(old(heap)@[old(this).id()], *final(r.unwrap())),
            ),
            final(heap).wf(),
    {
        Some(heap.value_mut(this.idx))
    }
}

impl<T: Clone> Shared<T> {
    /// Enforces copy-on-write, then mutably borrows the value.
    ///
    /// If other strong handles share the block, the value is cloned into a
    /// fresh block and this handle moves there, releasing one strong
    /// reference from the old block. If this is the only strong handle but
    /// weak observers exist, the value itself moves to a fresh block and the
    /// old block retires to its weak-only state, so no old weak handle can
    /// ever resolve to the new block. Only a handle that is already unique
    /// keeps its block. Afterwards the handle is uniquely owned — strong
    /// count one, no weak observers — and nothing written through the
    /// returned reference is visible to any other handle.
    pub fn make_mut<'a>(this: &mut Shared<T>, heap: &'a mut Heap<T>) -> (m: &'a mut T)
        requires
            old(heap).wf(),
            old(this).valid(*old(heap)),
        ensures
            final(heap).wf(),
            final(this).valid(*final(heap)),
            final(heap)@[final(this).id()].strong == 1,
            weak_refs(final(heap)@[final(this).id()]) == 0,
            final(heap)@[final(this).id()].value == Some(*final(m)),
            ({
                let i = old(this).id();
                let b = old(heap)@[i];
                if b.strong == 1 && weak_refs(b) == 0 {
                    &&& final(this).id() == i
                    &&& *m == b.value->0
                    &&& final(heap)@ == old(heap)@.update(i, block_with_value(b, *final(m)))
                } else if b.strong == 1 {
                    &&& final(this).id() == old(heap)@.len()
                    &&& *m == b.value->0
                    &&& final(heap)@.len() == old(heap)@.len() + 1
                    &&& final(heap)@[i] == block_detach(b)
                    &&& forall|j: int|
                        0 <= j < old(heap)@.len() && j != i ==> final(heap)@[j] == old(
                            heap,
                        )@[j]
                } else {
                    &&& final(this).id() == old(heap)@.len()
                    &&& cloned::<T>(b.value->0, *m)
                    &&& final(heap)@.len() == old(heap)@.len() + 1
                    &&& final(heap)@[i] == block_dec_strong(b)
                    &&& forall|j: int|
                        0 <= j < old(heap)@.len() && j != i ==> final(heap)@[j] == old(
                            heap,
                        )@[j]
                }
            }),
    {
        let i = this.idx;
        if Shared::strong_count(&*this, &*heap) != 1 {
            let dup = heap.value_ref(i).clone();
            heap.dec_strong(i);
            let fresh = heap.allocate(dup);
            this.idx = fresh;
            proof {
                lemma_wf_update(old(heap)@, i as int, block_dec_strong(old(heap)@[i as int]));
                lemma_wf_push(
                    old(heap)@.update(i as int, block_dec_strong(old(heap)@[i as int])),
                    block_new(dup),
                );
            }
            heap.value_mut(fresh)
        } else if Shared::weak_count(&*this, &*heap) != 0 {
            let v = heap.take_value(i);
            heap.dec_strong(i);
            heap.dec_weak(i);
            let fresh = heap.allocate(v);
            this.idx = fresh;
            proof {
                assert(heap@ =~= old(heap)@.update(
                    i as int,
                    block_detach(old(heap)@[i as int]),
                ).push(block_new(v)));
                lemma_wf_update(old(heap)@, i as int, block_detach(old(heap)@[i as int]));
                lemma_wf_push(
                    old(heap)@.update(i as int, block_detach(old(heap)@[i as int])),
                    block_new(v),
                );
            }
            heap.value_mut(fresh)
        } else {
            heap.value_mut(i)
        }
    }
}

} // verus!
