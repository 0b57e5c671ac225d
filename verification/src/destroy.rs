//! Shutting down and releasing caches.
use vstd::prelude::*;
use crate::flags::{EBUSY, SLAB_TYPESAFE_BY_RCU};
use crate::list::{
    list_head, list_empty, list_splice_init, list_wf, lemma_list_empty, lemma_list_splice_init,
    lemma_list_wf_frame,
};
use crate::registry::{SlabCommon, KernelCall, FIRST_CACHE, RCU_DESTROY, SLAB_CACHES, TO_DESTROY};
use crate::types::{kmem_cache, state_rank};

verus! {

/// The kernel services `kmem_cache_release` calls for the cache at `s`:
/// once sysfs is up, its sysfs entry is unlinked and released (which frees
/// the cache later); before that, the cache is released at once.
pub open spec fn release_calls(sc: SlabCommon, s: usize) -> Seq<KernelCall> {
    if state_rank(sc.slab_state) >= 3 {
        seq![KernelCall::SysfsSlabUnlink { s }, KernelCall::SysfsSlabRelease { s }]
    } else {
        seq![KernelCall::CacheRelease { s }, KernelCall::KfreeConst { addr: sc.cache(s).name }]
    }
}

/// The cache records after `kmem_cache_release` of the cache at `s`: the
/// record is freed unless sysfs frees it later.
pub open spec fn released_caches(sc: SlabCommon, s: usize) -> Seq<Option<kmem_cache>> {
    if state_rank(sc.slab_state) >= 3 {
        sc.caches@
    } else {
        sc.caches@.update(s - 4, None)
    }
}

/// Releases the allocator state, the name and the record of the cache at
/// `s`, which is on neither list.
pub fn slab_kmem_cache_release(sc: &mut SlabCommon, s: usize)
    requires
        old(sc).wf(),
        old(sc).live(s),
        !old(sc).cache_list@.contains(s),
        !old(sc).rcu_list@.contains(s),
    ensures
        final(sc).wf(),
        final(sc).calls@ == old(sc).calls@ + seq![
            KernelCall::CacheRelease { s },
            KernelCall::KfreeConst { addr: old(sc).cache(s).name },
        ],
        final(sc).caches@ == old(sc).caches@.update(s - 4, None),
        final(sc).links@ == old(sc).links@,
        final(sc).cache_list@ == old(sc).cache_list@,
        final(sc).rcu_list@ == old(sc).rcu_list@,
        final(sc).same_tables(old(sc)),
{
    let c = sc.get_cache(s);
    sc.call(KernelCall::CacheRelease { s });
    sc.call(KernelCall::KfreeConst { addr: c.name });
    sc.free_cache(s);
    proof {
        assert(sc.calls@ =~= old(sc).calls@ + seq![
            KernelCall::CacheRelease { s },
            KernelCall::KfreeConst { addr: old(sc).cache(s).name },
        ]);
    }
}

/// Releases the cache at `s`, which is on neither list: through sysfs once
/// the slab layer is fully up, else at once.
pub fn kmem_cache_release(sc: &mut SlabCommon, s: usize)
    requires
        old(sc).wf(),
        old(sc).live(s),
        !old(sc).cache_list@.contains(s),
        !old(sc).rcu_list@.contains(s),
    ensures
        final(sc).wf(),
        final(sc).calls@ == old(sc).calls@ + release_calls(*old(sc), s),
        final(sc).caches@ == released_caches(*old(sc), s),
        final(sc).links@ == old(sc).links@,
        final(sc).cache_list@ == old(sc).cache_list@,
        final(sc).rcu_list@ == old(sc).rcu_list@,
        final(sc).same_tables(old(sc)),
{
    if sc.slab_state.rank() >= 3 {
        sc.call(KernelCall::SysfsSlabUnlink { s });
        sc.call(KernelCall::SysfsSlabRelease { s });
        proof {
            assert(sc.calls@ =~= old(sc).calls@ + release_calls(*old(sc), s));
        }
    } else {
        slab_kmem_cache_release(sc, s);
    }
}

/// The kernel services `shutdown_cache` calls for the cache at `s` with
/// flags `flags` when the allocator answered `reply` to the shutdown.
pub open spec fn shutdown_calls(s: usize, flags: u32, reply: i32) -> Seq<KernelCall> {
    if reply != 0 {
        seq![KernelCall::KasanCacheShutdown { s }, KernelCall::CacheShutdown { s }]
    } else if flags & SLAB_TYPESAFE_BY_RCU != 0 {
        seq![
            KernelCall::KasanCacheShutdown { s },
            KernelCall::CacheShutdown { s },
            KernelCall::ScheduleRcuDestroyWork,
        ]
    } else {
        seq![
            KernelCall::KasanCacheShutdown { s },
            KernelCall::CacheShutdown { s },
            KernelCall::KfenceShutdownCache { s },
            KernelCall::DebugfsSlabRelease { s },
        ]
    }
}

/// Shuts down the cache at `s`, which is on the list of all caches.
/// `reply` is the answer of `__kmem_cache_shutdown`; when it is nonzero the
/// cache stays and `-EBUSY` is returned.  Otherwise the cache leaves the
/// list; a cache freed under RCU waits on the RCU list for release.
pub fn shutdown_cache(sc: &mut SlabCommon, s: usize, reply: i32) -> (r: i32)
    requires
        old(sc).wf(),
        old(sc).cache_list@.contains(s),
    ensures
        final(sc).wf(),
        r as int == (if reply != 0 { -(EBUSY as int) } else { 0 }),
        final(sc).calls@ == old(sc).calls@ + shutdown_calls(s, old(sc).cache(s).flags, reply),
        final(sc).caches@ == old(sc).caches@,
        final(sc).same_tables(old(sc)),
        reply != 0 ==> final(sc).cache_list@ == old(sc).cache_list@ && final(sc).rcu_list@ == old(
            sc,
        ).rcu_list@,
        reply == 0 ==> final(sc).cache_list@ == old(sc).cache_list@.remove(
            old(sc).cache_list@.index_of(s),
        ),
        reply == 0 && old(sc).cache(s).flags & SLAB_TYPESAFE_BY_RCU != 0 ==> final(sc).rcu_list@
            == old(sc).rcu_list@.push(s),
        reply == 0 && old(sc).cache(s).flags & SLAB_TYPESAFE_BY_RCU == 0 ==> final(sc).rcu_list@
            == old(sc).rcu_list@ && final(sc).links@[s as int] == old(sc).links@[s as int],
{
    let ghost i = old(sc).cache_list@.index_of(s);
    proof {
        assert(sc.live(sc.cache_list@[i]));
    }
    let c = sc.get_cache(s);
    sc.call(KernelCall::KasanCacheShutdown { s });
    sc.call(KernelCall::CacheShutdown { s });
    if reply != 0 {
        proof {
            assert(sc.calls@ =~= old(sc).calls@ + shutdown_calls(s, c.flags, reply));
        }
        return -(EBUSY as i32);
    }
    sc.unregister_cache(s, Ghost(i));
    proof {
        assert(!sc.cache_list@.contains(s)) by {
            assert(old(sc).cache_list@.no_duplicates());
            if sc.cache_list@.contains(s) {
                let k = choose|k: int| 0 <= k < sc.cache_list@.len() && sc.cache_list@[k] == s;
                let k2 = if k < i { k } else { k + 1 };
                assert(old(sc).cache_list@[k2] == s);
            }
        }
        assert(!sc.rcu_list@.contains(s));
    }
    if c.flags & SLAB_TYPESAFE_BY_RCU != 0 {
        sc.queue_rcu_release(s);
        sc.call(KernelCall::ScheduleRcuDestroyWork);
    } else {
        sc.call(KernelCall::KfenceShutdownCache { s });
        sc.call(KernelCall::DebugfsSlabRelease { s });
    }
    proof {
        assert(sc.calls@ =~= old(sc).calls@ + shutdown_calls(s, c.flags, reply));
    }
    return 0;
}

/// The cache at `s` may be destroyed: it is live, its count can drop by
/// one, and it is on the list of all caches when that brings it to zero.
pub open spec fn destroy_ok(sc: SlabCommon, s: usize) -> bool {
    s != 0 ==> {
        &&& sc.live(s)
        &&& sc.cache(s).refcount > i32::MIN
        &&& sc.cache(s).refcount == 1 ==> sc.cache_list@.contains(s)
    }
}

/// What `kmem_cache_destroy` of the cache at `s` leaves in `new`, from
/// `old`, when the allocator answers `reply` to the shutdown.
pub open spec fn destroy_state(old: SlabCommon, new: SlabCommon, s: usize, reply: i32) -> bool {
    if s == 0 {
        &&& new.calls@ == old.calls@
        &&& new.links@ == old.links@
        &&& new.caches@ == old.caches@
        &&& new.cache_list@ == old.cache_list@
        &&& new.rcu_list@ == old.rcu_list@
    } else {
        let c = old.cache(s);
        let dropped = old.caches@.update(s - 4, Some(kmem_cache { refcount: (c.refcount - 1) as i32, ..c }));
        let locked = old.calls@ + seq![KernelCall::CpusReadLock, KernelCall::MutexLock];
        let unlock = seq![KernelCall::MutexUnlock, KernelCall::CpusReadUnlock];
        let rcu = c.flags & SLAB_TYPESAFE_BY_RCU != 0;
        if c.refcount - 1 != 0 {
            &&& new.calls@ == locked + unlock
            &&& new.links@ == old.links@
            &&& new.caches@ == dropped
            &&& new.cache_list@ == old.cache_list@
            &&& new.rcu_list@ == old.rcu_list@
        } else if reply != 0 {
            &&& new.calls@ == locked + shutdown_calls(s, c.flags, reply) + unlock
            &&& new.caches@ == dropped
            &&& new.cache_list@ == old.cache_list@
            &&& new.rcu_list@ == old.rcu_list@
        } else {
            let left = old.cache_list@.remove(old.cache_list@.index_of(s));
            &&& new.cache_list@ == left
            &&& rcu ==> {
                &&& new.calls@ == locked + shutdown_calls(s, c.flags, reply) + unlock
                &&& new.caches@ == dropped
                &&& new.rcu_list@ == old.rcu_list@.push(s)
            }
            &&& !rcu ==> {
                &&& new.calls@ == locked + shutdown_calls(s, c.flags, reply) + unlock
                    + release_calls(old, s)
                &&& new.caches@ == (if state_rank(old.slab_state) >= 3 {
                    dropped
                } else {
                    dropped.update(s - 4, None)
                })
                &&& new.rcu_list@ == old.rcu_list@
            }
        }
    }
}

/// Drops a reference to the cache at `s` (nothing happens for 0).  The
/// last reference shuts the cache down, with `reply` the answer of
/// `__kmem_cache_shutdown`, and releases it unless it is freed under RCU.
pub fn kmem_cache_destroy(sc: &mut SlabCommon, s: usize, reply: i32)
    requires
        old(sc).wf(),
        destroy_ok(*old(sc), s),
    ensures
        final(sc).wf(),
        final(sc).same_tables(old(sc)),
        destroy_state(*old(sc), *final(sc), s, reply),
{
    if s == 0 {
        return;
    }
    let mut err: i32 = -(EBUSY as i32);
    let mut c = sc.get_cache(s);
    let rcu_set: bool = c.flags & SLAB_TYPESAFE_BY_RCU != 0;
    sc.call(KernelCall::CpusReadLock);
    sc.call(KernelCall::MutexLock);
    c.refcount = c.refcount - 1;
    sc.set_cache(s, c);
    let ghost dropped = sc.caches@;
    let ghost locked = sc.calls@;
    proof {
        assert(locked =~= old(sc).calls@ + seq![KernelCall::CpusReadLock, KernelCall::MutexLock]);
        assert(dropped =~= old(sc).caches@.update(
            s - 4,
            Some(kmem_cache { refcount: (old(sc).cache(s).refcount - 1) as i32, ..old(sc).cache(s) }),
        ));
    }
    if c.refcount != 0 {
        sc.call(KernelCall::MutexUnlock);
        sc.call(KernelCall::CpusReadUnlock);
        if err == 0 && !rcu_set {
            kmem_cache_release(sc, s);
        }
        proof {
            assert(sc.calls@ =~= locked + seq![KernelCall::MutexUnlock, KernelCall::CpusReadUnlock]);
            assert(locked =~= old(sc).calls@ + seq![KernelCall::CpusReadLock, KernelCall::MutexLock]);
            assert(sc.caches@ == dropped);
            assert(old(sc).cache(s).refcount - 1 != 0);
            assert(sc.cache_list@ == old(sc).cache_list@);
            assert(sc.rcu_list@ == old(sc).rcu_list@);
        }
        return;
    }
    proof {
        assert(sc.cache(s).flags == old(sc).cache(s).flags);
    }
    err = shutdown_cache(sc, s, reply);
    let ghost mid = sc.calls@;
    proof {
        assert(mid == locked + shutdown_calls(s, old(sc).cache(s).flags, reply));
    }
    sc.call(KernelCall::MutexUnlock);
    sc.call(KernelCall::CpusReadUnlock);
    proof {
        assert(sc.calls@ =~= mid + seq![KernelCall::MutexUnlock, KernelCall::CpusReadUnlock]);
        assert(sc.cache(s) == c);
    }
    if err == 0 && !rcu_set {
        proof {
            let l = old(sc).cache_list@;
            assert(l.no_duplicates());
            assert(!sc.cache_list@.contains(s)) by {
                let i = l.index_of(s);
                if sc.cache_list@.contains(s) {
                    let k = choose|k: int| 0 <= k < sc.cache_list@.len() && sc.cache_list@[k] == s;
                    let k2 = if k < i { k } else { k + 1 };
                    assert(l[k2] == s);
                }
            }
            assert(!sc.rcu_list@.contains(s)) by {
                assert(!old(sc).rcu_list@.contains(l[l.index_of(s)]));
            }
        }
        let ghost before = *sc;
        kmem_cache_release(sc, s);
        proof {
            assert(release_calls(before, s) == release_calls(*old(sc), s));
            assert(sc.calls@ =~= locked + shutdown_calls(s, c.flags, reply) + seq![
                KernelCall::MutexUnlock,
                KernelCall::CpusReadUnlock,
            ] + release_calls(*old(sc), s));
        }
    }
}

/// The kernel services called while the caches `q` are released after
/// RCU, in order: for each, its debugfs entry and KFENCE state go, then
/// `kmem_cache_release`.
pub open spec fn rcu_release_calls(sc: SlabCommon, q: Seq<usize>) -> Seq<KernelCall>
    decreases q.len(),
{
    if q.len() == 0 {
        Seq::empty()
    } else {
        let s = q.last();
        rcu_release_calls(sc, q.drop_last()) + seq![
            KernelCall::DebugfsSlabRelease { s },
            KernelCall::KfenceShutdownCache { s },
        ] + release_calls(sc, s)
    }
}

/// The cache records once the caches `q` are released: freed, unless
/// sysfs frees them later.
pub open spec fn rcu_released_caches(sc: SlabCommon, q: Seq<usize>) -> Seq<Option<kmem_cache>> {
    if state_rank(sc.slab_state) >= 3 {
        sc.caches@
    } else {
        Seq::new(
            sc.caches@.len(),
            |i: int| if q.contains((i + FIRST_CACHE) as usize) { None } else { sc.caches@[i] },
        )
    }
}

/// The kernel services the RCU release work calls: under the mutex the
/// RCU list is taken over; when it held any cache, pending RCU callbacks
/// are waited for and each cache is released in list order.
pub open spec fn rcu_work_calls(sc: SlabCommon) -> Seq<KernelCall> {
    let q = sc.rcu_list@;
    seq![KernelCall::MutexLock, KernelCall::MutexUnlock] + if q.len() == 0 {
        Seq::empty()
    } else {
        seq![KernelCall::RcuBarrier] + rcu_release_calls(sc, q)
    }
}

/// Releases the caches waiting on the RCU list.  Under the mutex the list
/// is moved to a local head and left empty; then, if it held any cache,
/// pending RCU callbacks are waited for and the caches are released, in
/// list order.
#[verifier::spinoff_prover]
#[verifier::rlimit(100)]
pub fn slab_caches_to_rcu_destroy_workfn(sc: &mut SlabCommon)
    requires
        old(sc).wf(),
    ensures
        final(sc).wf(),
        final(sc).calls@ == old(sc).calls@ + rcu_work_calls(*old(sc)),
        final(sc).rcu_list@ == Seq::<usize>::empty(),
        final(sc).cache_list@ == old(sc).cache_list@,
        final(sc).caches@ == rcu_released_caches(*old(sc), old(sc).rcu_list@),
        final(sc).same_tables(old(sc)),
{
    let ghost q = old(sc).rcu_list@;
    let ghost cl = old(sc).cache_list@;
    sc.links.set(TO_DESTROY, list_head { next: TO_DESTROY, prev: TO_DESTROY });
    proof {
        assert forall|i: int| 0 <= i < cl.len() implies #[trigger] cl[i] != TO_DESTROY by {
            assert(old(sc).live(cl[i]));
        }
        assert forall|i: int| 0 <= i < q.len() implies #[trigger] q[i] != TO_DESTROY && q[i]
            != SLAB_CACHES && !cl.contains(q[i]) by {
            assert(old(sc).live(q[i]));
            if cl.contains(q[i]) {
                let j = choose|j: int| 0 <= j < cl.len() && cl[j] == q[i];
                assert(!q.contains(cl[j]));
            }
        }
        lemma_list_wf_frame(old(sc).links@, sc.links@, SLAB_CACHES, cl);
        lemma_list_wf_frame(old(sc).links@, sc.links@, RCU_DESTROY, q);
        assert(list_wf(sc.links@, TO_DESTROY, Seq::empty()));
    }
    let ghost l0 = sc.links@;
    sc.call(KernelCall::MutexLock);
    proof {
        lemma_list_splice_init(l0, RCU_DESTROY, q, TO_DESTROY, Seq::empty());
        assert(q + Seq::<usize>::empty() =~= q);
    }
    list_splice_init(&mut sc.links, RCU_DESTROY, TO_DESTROY);
    sc.rcu_list = Ghost(Seq::empty());
    let ghost l1 = sc.links@;
    proof {
        assert forall|i: int| 0 <= i < cl.len() implies l1[#[trigger] cl[i] as int] == l0[cl[i] as int] by {
            assert(old(sc).live(cl[i]));
            assert(!q.contains(cl[i]));
        }
        lemma_list_wf_frame(l0, l1, SLAB_CACHES, cl);
        assert(list_wf(l1, TO_DESTROY, q));
    }
    sc.call(KernelCall::MutexUnlock);
    let ghost base = sc.calls@;
    proof {
        assert(base =~= old(sc).calls@ + seq![KernelCall::MutexLock, KernelCall::MutexUnlock]);
        lemma_list_empty(l1, TO_DESTROY, q);
    }
    if list_empty(&sc.links, TO_DESTROY) != 0 {
        proof {
            assert(sc.calls@ =~= old(sc).calls@ + rcu_work_calls(*old(sc)));
            assert(sc.caches@ =~= rcu_released_caches(*old(sc), q)) by {
                assert(q.len() == 0);
            }
        }
        return;
    }
    sc.call(KernelCall::RcuBarrier);
    let ghost start = sc.calls@;
    let mut s = sc.links[TO_DESTROY].next;
    let mut s2 = sc.links[s].next;
    let ghost mut k: int = 0;
    proof {
        assert(q.take(0) =~= Seq::<usize>::empty());
        assert(sc.caches@ =~= rcu_released_caches(*old(sc), q.take(0)));
    }
    while s != TO_DESTROY
        invariant
            sc.wf(),
            sc.same_tables(old(sc)),
            sc.links@ == l1,
            list_wf(l1, TO_DESTROY, q),
            q == old(sc).rcu_list@,
            forall|i: int| 0 <= i < q.len() ==> old(sc).live(#[trigger] q[i]),
            forall|i: int| 0 <= i < q.len() ==> !cl.contains(#[trigger] q[i]),
            cl == old(sc).cache_list@,
            sc.cache_list@ == cl,
            sc.rcu_list@ == Seq::<usize>::empty(),
            0 <= k <= q.len(),
            s == (if k < q.len() { q[k] } else { TO_DESTROY }),
            s2 == l1[s as int].next,
            start == old(sc).calls@ + seq![KernelCall::MutexLock, KernelCall::MutexUnlock, KernelCall::RcuBarrier],
            sc.calls@ == start + rcu_release_calls(*old(sc), q.take(k)),
            sc.caches@ == rcu_released_caches(*old(sc), q.take(k)),
        decreases q.len() - k,
    {
        proof {
            assert(k < q.len());
            assert(!q.take(k).contains(s)) by {
                if q.take(k).contains(s) {
                    let j = choose|j: int| 0 <= j < k && #[trigger] q.take(k)[j] == s;
                    assert(q[j] == q[k]);
                }
            }
            assert(sc.live(s));
            assert(sc.cache(s) == old(sc).cache(s));
        }
        sc.call(KernelCall::DebugfsSlabRelease { s });
        sc.call(KernelCall::KfenceShutdownCache { s });
        let ghost before = *sc;
        kmem_cache_release(sc, s);
        proof {
            assert(release_calls(before, s) == release_calls(*old(sc), s));
            assert(q.take(k + 1).drop_last() =~= q.take(k));
            assert(q.take(k + 1).last() == s);
            assert(sc.calls@ =~= start + rcu_release_calls(*old(sc), q.take(k + 1)));
            let q0 = q.take(k);
            let q1 = q.take(k + 1);
            assert forall|x: usize| #[trigger] q1.contains(x) <==> (q0.contains(x) || x == s) by {
                if q.take(k + 1).contains(x) {
                    let j = choose|j: int| 0 <= j < k + 1 && #[trigger] q1[j] == x;
                    if j < k {
                        assert(q.take(k)[j] == x);
                    }
                }
                if q.take(k).contains(x) {
                    let j = choose|j: int| 0 <= j < k && #[trigger] q0[j] == x;
                    assert(q.take(k + 1)[j] == x);
                }
                if x == s {
                    assert(q.take(k + 1)[k] == x);
                }
            }
            assert(sc.caches@ =~= rcu_released_caches(*old(sc), q.take(k + 1)));
            k = k + 1;
        }
        s = s2;
        s2 = sc.links[s].next;
    }
    proof {
        assert(k == q.len()) by {
            if k < q.len() {
                assert(q[k] != TO_DESTROY);
            }
        }
        assert(q.take(k) =~= q);
        assert(sc.calls@ =~= old(sc).calls@ + rcu_work_calls(*old(sc)));
    }
}

/// Dropping the last reference to a cache that is not freed under RCU,
/// with its shutdown accepted, ends in the release of the cache: once the
/// slab layer is fully up its sysfs entry is unlinked and released (which
/// frees it later); before that the allocator state and the name are
/// released at once and the record is freed.  The cache leaves the list of
/// all caches.
pub proof fn law_destroy_releases_last_reference(old: SlabCommon, new: SlabCommon, s: usize)
    requires
        old.wf(),
        old.live(s),
        old.cache_list@.contains(s),
        old.cache(s).refcount == 1,
        old.cache(s).flags & SLAB_TYPESAFE_BY_RCU == 0,
        destroy_state(old, new, s, 0),
    ensures
        new.calls@.len() >= old.calls@.len() + 2,
        state_rank(old.slab_state) >= 3 ==> new.calls@.subrange(
            new.calls@.len() - 2,
            new.calls@.len() as int,
        ) == seq![KernelCall::SysfsSlabUnlink { s }, KernelCall::SysfsSlabRelease { s }],
        state_rank(old.slab_state) < 3 ==> new.calls@.subrange(
            new.calls@.len() - 2,
            new.calls@.len() as int,
        ) == seq![KernelCall::CacheRelease { s }, KernelCall::KfreeConst { addr: old.cache(s).name }],
        state_rank(old.slab_state) < 3 ==> !new.live(s),
        !new.cache_list@.contains(s),
{
    let l = old.cache_list@;
    let k = l.index_of(s);
    assert(l.no_duplicates());
    if new.cache_list@.contains(s) {
        let j = choose|j: int| 0 <= j < new.cache_list@.len() && new.cache_list@[j] == s;
        let j2 = if j < k { j } else { j + 1 };
        assert(l[j2] == s);
    }
    let n = new.calls@.len();
    assert(new.calls@.subrange(n - 2, n as int) =~= release_calls(old, s));
}

/// Caches can be created: the slab layer is at least up.
pub fn slab_is_available(sc: &SlabCommon) -> (r: bool)
    ensures
        r == (state_rank(sc.slab_state) >= 2),
{
    sc.slab_state.rank() >= 2
}

/// Object size of the live cache at `s`.
pub fn kmem_cache_size(sc: &SlabCommon, s: usize) -> (r: u32)
    requires
        sc.live(s),
    ensures
        r == sc.cache(s).object_size,
{
    sc.get_cache(s).object_size
}

/// Releases as many slabs of the cache at `s` as possible.  `reply` is the
/// answer of `__kmem_cache_shrink`: 0 when all slabs were released, and it
/// is returned.
pub fn kmem_cache_shrink(sc: &mut SlabCommon, s: usize, reply: i32) -> (r: i32)
    ensures
        r == reply,
        final(sc).calls@ == old(sc).calls@ + seq![
            KernelCall::KasanCacheShrink { s },
            KernelCall::CacheShrink { s },
        ],
        final(sc).links@ == old(sc).links@,
        final(sc).same_caches(old(sc)),
        final(sc).same_tables(old(sc)),
{
    sc.call(KernelCall::KasanCacheShrink { s });
    sc.call(KernelCall::CacheShrink { s });
    proof {
        assert(sc.calls@ =~= old(sc).calls@ + seq![
            KernelCall::KasanCacheShrink { s },
            KernelCall::CacheShrink { s },
        ]);
    }
    reply
}

/// Reports what is known of `object` in `slab` into the record at `kpp`:
/// KFENCE is asked first and answers for its own objects (`kfence_handled`
/// is its answer); the allocator answers for the others.
pub fn kmem_obj_info(sc: &mut SlabCommon, kpp: usize, object: usize, slab: usize, kfence_handled: bool)
    ensures
        final(sc).calls@ == (if kfence_handled {
            old(sc).calls@.push(KernelCall::KfenceObjInfo { kpp, object, slab })
        } else {
            old(sc).calls@ + seq![
                KernelCall::KfenceObjInfo { kpp, object, slab },
                KernelCall::KmemObjInfo { kpp, object, slab },
            ]
        }),
        final(sc).links@ == old(sc).links@,
        final(sc).same_caches(old(sc)),
        final(sc).same_tables(old(sc)),
{
    sc.call(KernelCall::KfenceObjInfo { kpp, object, slab });
    if kfence_handled {
        return;
    }
    sc.call(KernelCall::KmemObjInfo { kpp, object, slab });
    proof {
        assert(sc.calls@ =~= old(sc).calls@ + seq![
            KernelCall::KfenceObjInfo { kpp, object, slab },
            KernelCall::KmemObjInfo { kpp, object, slab },
        ]);
    }
}

/// Destroying the only reference to a cache just created, not freed under
/// RCU, with the allocator agreeing to shut it down and before sysfs is up,
/// leaves the cache lists as they were before the creation and frees the
/// record.
pub proof fn law_destroy_undoes_create(
    s0: SlabCommon,
    s1: SlabCommon,
    s2: SlabCommon,
    rec: kmem_cache,
    nc: crate::create::NewCacheReplies,
)
    requires
        s0.wf(),
        s1.wf(),
        nc.alloc_ok,
        nc.create_err == 0,
        rec.refcount == 1,
        rec.flags & SLAB_TYPESAFE_BY_RCU == 0,
        crate::create::new_cache_state(s0, s1, rec, nc),
        s1.slab_state == s0.slab_state,
        state_rank(s0.slab_state) < 3,
        destroy_state(s1, s2, s0.next_addr(), 0),
    ensures
        s2.cache_list@ == s0.cache_list@,
        s2.rcu_list@ == s0.rcu_list@,
        s2.caches@ == s0.caches@.push(None),
{
    let a = s0.next_addr();
    let l = s1.cache_list@;
    assert(l[0] == a);
    assert(l.contains(a));
    let k = l.index_of(a);
    assert(l.no_duplicates());
    assert(k == 0);
    assert(l.remove(0) =~= s0.cache_list@);
    assert(s1.cache(a) == rec);
    assert(s1.caches@.update(a - 4, Some(kmem_cache { refcount: (rec.refcount - 1) as i32, ..rec })).update(
        a - 4,
        None,
    ) =~= s0.caches@.push(None));
}

} // verus!
