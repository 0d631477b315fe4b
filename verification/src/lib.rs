//! A single-threaded, reference-counted shared-ownership pointer with a weak
//! (non-owning) companion handle.
//!
//! A [`Shared`] handle owns its value jointly with every other strong handle
//! to the same control block; the value is destroyed when the last strong
//! handle is released. A [`Weak2`] handle keeps only the block's storage
//! alive, never the value, and can try to upgrade itself back into a strong
//! handle while the value still exists.
//!
//! All control blocks live in an explicit [`Heap`], and every operation takes
//! the heap it works on; a handle is an index into it. The heap's view — a
//! sequence of [`Block`] models — is what every contract speaks of, so the
//! exact effect of each operation on the counts and the value is stated and
//! machine-checked, including the three-state life cycle of a block: live,
//! weak-only, freed.

mod heap;
mod laws;
mod strong;
mod weak;

pub use heap::{
    block_dec_strong, block_dec_weak, block_detach, block_inc_strong, block_inc_weak, block_inv,
    block_new, block_release_strong, block_with_value, lemma_wf_push, lemma_wf_update, weak_refs,
    wf_seq, Block, Heap,
};
pub use laws::{
    lemma_clone_roundtrip, lemma_downgrade_roundtrip, lemma_make_mut_detaches_weak,
    lemma_make_mut_forks, lemma_new_block, lemma_release_last_strong,
    lemma_retired_block_stays_retired,
};
pub use strong::Shared;
pub use weak::Weak2;
