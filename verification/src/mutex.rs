//! The slab mutex is released on every path that takes it.
use vstd::prelude::*;
use crate::destroy::{destroy_state, shutdown_calls, release_calls};
use crate::registry::{
    SlabCommon, KernelCall, mutex_balance, lemma_mutex_balance_concat, lemma_balance_two,
    lemma_balance_without_mutex,
};

verus! {

/// Destroying a cache takes the slab mutex and releases it again, on every
/// path.
pub proof fn law_destroy_keeps_mutex_balance(old: SlabCommon, new: SlabCommon, s: usize, reply: i32)
    requires
        destroy_state(old, new, s, reply),
    ensures
        mutex_balance(new.calls@) == mutex_balance(old.calls@),
{
    if s != 0 {
        let c = old.cache(s);
        let locked = seq![KernelCall::CpusReadLock, KernelCall::MutexLock];
        let unlock = seq![KernelCall::MutexUnlock, KernelCall::CpusReadUnlock];
        let sh = shutdown_calls(s, c.flags, reply);
        let rel = release_calls(old, s);
        lemma_balance_two(KernelCall::CpusReadLock, KernelCall::MutexLock);
        lemma_balance_two(KernelCall::MutexUnlock, KernelCall::CpusReadUnlock);
        lemma_balance_without_mutex(sh);
        lemma_balance_without_mutex(rel);
        lemma_mutex_balance_concat(old.calls@, locked);
        lemma_mutex_balance_concat(old.calls@ + locked, unlock);
        lemma_mutex_balance_concat(old.calls@ + locked, sh);
        lemma_mutex_balance_concat(old.calls@ + locked + sh, unlock);
        lemma_mutex_balance_concat(old.calls@ + locked + sh + unlock, rel);
    }
}

} // verus!
