//! The heap of control blocks.
//!
//! Shared ownership needs one piece of state that every handle can reach: the
//! control block, holding a strong count, a weak count and the owned value.
//! Safe verified code cannot mutate through aliased pointers, so the blocks
//! live in an explicit arena, the [`Heap`], and every handle is an index into
//! it. A retired block's slot is never reused for a new value, which models an
//! allocation that is freed and never resurrected.
//!
//! The weak count follows the baseline convention: while at least one strong
//! handle is alive, the weak count carries one extra unit, held collectively
//! by the strong handles. The block's backing storage is needed exactly as
//! long as the raw weak count is positive.

use vstd::prelude::*;
use vstd::pervasive::unreached;

verus! {

/// Mathematical model of one control block.
pub struct Block<T> {
    /// Number of live strong handles to this block.
    pub strong: nat,
    /// Raw weak count: the live weak handles, plus one baseline unit held
    /// collectively by the strong handles while any strong handle is alive.
    pub weak: nat,
    /// The owned value; `None` once the last strong handle has destroyed it.
    pub value: Option<T>,
}

/// The state invariant of a control block.
///
/// A block is in one of three states: live (`strong > 0`, value present,
/// baseline held), weak-only (`strong == 0`, value gone, weak handles remain),
/// or freed (`strong == 0 && weak == 0`). It moves through them in that order
/// and never back.
pub open spec fn block_inv<T>(b: Block<T>) -> bool {
    &&& b.strong > 0 ==> b.weak >= 1 && b.value is Some
    &&& b.strong == 0 ==> b.value is None
}

/// The number of outstanding weak handles: the raw weak count without the
/// baseline unit that the strong handles hold.
pub open spec fn weak_refs<T>(b: Block<T>) -> nat {
    if b.strong > 0 {
        (b.weak - 1) as nat
    } else {
        b.weak
    }
}

/// A freshly allocated block: one strong handle, the baseline weak unit, and
/// the value in place.
pub open spec fn block_new<T>(v: T) -> Block<T> {
    Block { strong: 1, weak: 1, value: Some(v) }
}

/// The block after one more strong handle is created.
pub open spec fn block_inc_strong<T>(b: Block<T>) -> Block<T> {
    Block { strong: b.strong + 1, ..b }
}

/// The block after a bare strong-count decrement.
pub open spec fn block_dec_strong<T>(b: Block<T>) -> Block<T>
    recommends
        b.strong >= 1,
{
    Block { strong: (b.strong - 1) as nat, ..b }
}

/// The block after one more weak handle is created.
pub open spec fn block_inc_weak<T>(b: Block<T>) -> Block<T> {
    Block { weak: b.weak + 1, ..b }
}

/// The block after a weak handle is released.
pub open spec fn block_dec_weak<T>(b: Block<T>) -> Block<T>
    recommends
        b.weak >= 1,
{
    Block { weak: (b.weak - 1) as nat, ..b }
}

/// The block after its value is taken out.
pub open spec fn block_clear_value<T>(b: Block<T>) -> Block<T> {
    Block { value: None, ..b }
}

/// The block with its value replaced.
pub open spec fn block_with_value<T>(b: Block<T>, v: T) -> Block<T> {
    Block { value: Some(v), ..b }
}

/// The block after a strong handle is released: the count drops by one, and
/// if it reaches zero the value is destroyed and the baseline weak unit is
/// given back.
pub open spec fn block_release_strong<T>(b: Block<T>) -> Block<T>
    recommends
        b.strong >= 1,
{
    if b.strong == 1 {
        Block { strong: 0, weak: (b.weak - 1) as nat, value: None }
    } else {
        Block { strong: (b.strong - 1) as nat, ..b }
    }
}

/// The old block after a uniquely owned value moves away from its weak
/// observers: the one strong handle leaves and the baseline weak unit is
/// given back with it; the value moves out, and only the weak handles keep
/// the storage alive. The effect on the counts is that of releasing the last
/// strong handle.
pub open spec fn block_detach<T>(b: Block<T>) -> Block<T>
    recommends
        b.strong == 1,
        b.weak >= 2,
{
    Block { strong: 0, weak: (b.weak - 1) as nat, value: None }
}

/// Every block of the sequence satisfies the block invariant.
pub open spec fn wf_seq<T>(s: Seq<Block<T>>) -> bool {
    forall|i: int| 0 <= i < s.len() ==> block_inv(#[trigger] s[i])
}

struct Slot<T> {
    strong: usize,
    weak: usize,
    value: Option<T>,
}

impl<T> View for Slot<T> {
    type V = Block<T>;

    closed spec fn view(&self) -> Block<T> {
        Block { strong: self.strong as nat, weak: self.weak as nat, value: self.value }
    }
}

/// The arena of control blocks. Its view is the sequence of block models, in
/// allocation order; a slot, once allocated, keeps its index forever.
pub struct Heap<T> {
    slots: Vec<Slot<T>>,
}

impl<T> View for Heap<T> {
    type V = Seq<Block<T>>;

    closed spec fn view(&self) -> Seq<Block<T>> {
        Seq::new(self.slots@.len(), |i: int| self.slots@[i]@)
    }
}

impl<T> Heap<T> {
    /// Every block of the heap satisfies the block invariant.
    pub open spec fn wf(&self) -> bool {
        wf_seq(self@)
    }

    /// An empty heap: no blocks yet.
    pub fn new() -> (h: Heap<T>)
        ensures
            h@ == Seq::<Block<T>>::empty(),
            h.wf(),
    {
        let h = Heap { slots: Vec::new() };
        proof {
            assert(h@ =~= Seq::<Block<T>>::empty());
        }
        h
    }

    /// Allocates a fresh control block holding `value`, with one strong
    /// reference and the baseline weak unit.
    pub(crate) fn allocate(&mut self, value: T) -> (i: usize)
        ensures
            i == old(self)@.len(),
            final(self)@ == old(self)@.push(block_new(value)),
    {
        let i: usize = self.slots.len();
        self.slots.push(Slot { strong: 1, weak: 1, value: Some(value) });
        proof {
            assert(self@ =~= old(self)@.push(block_new(value)));
        }
        i
    }

    /// Reads the strong count of block `i`.
    pub(crate) fn strong(&self, i: usize) -> (n: usize)
        requires
            i < self@.len(),
        ensures
            n == self@[i as int].strong,
    {
        self.slots[i].strong
    }

    /// Reads the raw weak count of block `i` (baseline included).
    pub(crate) fn weak(&self, i: usize) -> (n: usize)
        requires
            i < self@.len(),
        ensures
            n == self@[i as int].weak,
    {
        self.slots[i].weak
    }

    /// Increments the strong count of block `i`. The caller rules overflow
    /// out; a count that large would mean the bookkeeping is already broken.
    pub(crate) fn inc_strong(&mut self, i: usize)
        requires
            i < old(self)@.len(),
            old(self)@[i as int].strong < usize::MAX,
        ensures
            final(self)@ == old(self)@.update(
                i as int,
                block_inc_strong(old(self)@[i as int]),
            ),
    {
        let slot = &mut self.slots[i];
        slot.strong = slot.strong + 1;
        proof {
            assert(self@ =~= old(self)@.update(i as int, block_inc_strong(old(self)@[i as int])));
        }
    }

    /// Decrements the strong count of block `i`; the caller proves it is
    /// positive, as every well-formed release site can.
    pub(crate) fn dec_strong(&mut self, i: usize)
        requires
            i < old(self)@.len(),
            old(self)@[i as int].strong >= 1,
        ensures
            final(self)@ == old(self)@.update(
                i as int,
                block_dec_strong(old(self)@[i as int]),
            ),
    {
        let slot = &mut self.slots[i];
        slot.strong = slot.strong - 1;
        proof {
            assert(self@ =~= old(self)@.update(i as int, block_dec_strong(old(self)@[i as int])));
        }
    }

    /// Increments the raw weak count of block `i`; overflow is ruled out by
    /// the caller.
    pub(crate) fn inc_weak(&mut self, i: usize)
        requires
            i < old(self)@.len(),
            old(self)@[i as int].weak < usize::MAX,
        ensures
            final(self)@ == old(self)@.update(i as int, block_inc_weak(old(self)@[i as int])),
    {
        let slot = &mut self.slots[i];
        slot.weak = slot.weak + 1;
        proof {
            assert(self@ =~= old(self)@.update(i as int, block_inc_weak(old(self)@[i as int])));
        }
    }

    /// Decrements the raw weak count of block `i`; the caller proves it is
    /// positive.
    pub(crate) fn dec_weak(&mut self, i: usize)
        requires
            i < old(self)@.len(),
            old(self)@[i as int].weak >= 1,
        ensures
            final(self)@ == old(self)@.update(i as int, block_dec_weak(old(self)@[i as int])),
    {
        let slot = &mut self.slots[i];
        slot.weak = slot.weak - 1;
        proof {
            assert(self@ =~= old(self)@.update(i as int, block_dec_weak(old(self)@[i as int])));
        }
    }

    /// Moves the value out of block `i`, leaving the slot empty.
    pub(crate) fn take_value(&mut self, i: usize) -> (v: T)
        requires
            i < old(self)@.len(),
            old(self)@[i as int].value is Some,
        ensures
            v == old(self)@[i as int].value->0,
            final(self)@ == old(self)@.update(
                i as int,
                block_clear_value(old(self)@[i as int]),
            ),
    {
        let slot = &mut self.slots[i];
        let taken = slot.value.take();
        proof {
            assert(self@ =~= old(self)@.update(i as int, block_clear_value(old(self)@[i as int])));
        }
        match taken {
            Some(v) => v,
            None => unreached(),
        }
    }

    /// Borrows the value of block `i`.
    pub(crate) fn value_ref(&self, i: usize) -> (v: &T)
        requires
            i < self@.len(),
            self@[i as int].value is Some,
        ensures
            *v == self@[i as int].value->0,
    {
        match &self.slots[i].value {
            Some(v) => v,
            None => unreached(),
        }
    }

    /// Mutably borrows the value of block `i`; the counts stay as they are,
    /// and the slot ends up holding whatever the caller leaves behind the
    /// reference.
    pub(crate) fn value_mut(&mut self, i: usize) -> (v: &mut T)
        requires
            i < old(self)@.len(),
            old(self)@[i as int].value is Some,
        ensures
            *v == old(self)@[i as int].value->0,
            final(self)@ == old(self)@.update(
                i as int,
                block_with_value(old(self)@[i as int], *final(v)),
            ),
    {
        let slot = &mut self.slots[i];
        match slot.value.as_mut() {
            Some(v) => v,
            None => unreached(),
        }
    }
}

/// A well-formed sequence stays well formed when a block satisfying the
/// invariant is appended.
pub proof fn lemma_wf_push<T>(s: Seq<Block<T>>, b: Block<T>)
    requires
        wf_seq(s),
        block_inv(b),
    ensures
        wf_seq(s.push(b)),
{
    assert forall|i: int| 0 <= i < s.push(b).len() implies block_inv(#[trigger] s.push(b)[i]) by {
        if i < s.len() {
            assert(block_inv(s[i]));
        }
    }
}

/// A well-formed sequence stays well formed when one block is replaced by a
/// block satisfying the invariant.
pub proof fn lemma_wf_update<T>(s: Seq<Block<T>>, i: int, b: Block<T>)
    requires
        wf_seq(s),
        0 <= i < s.len(),
        block_inv(b),
    ensures
        wf_seq(s.update(i, b)),
{
    assert forall|j: int| 0 <= j < s.update(i, b).len() implies block_inv(
        #[trigger] s.update(i, b)[j],
    ) by {
        if j != i {
            assert(block_inv(s[j]));
        }
    }
}

} // verus!
