//! The slab layer's global state: the link table with the cache lists, the
//! cache records, the kmalloc tables, and the record of kernel services
//! called.
use vstd::prelude::*;
use crate::list::{
    list_head, list_wf, lemma_list_wf_frame, list_add, list_add_tail, __list_del_entry,
    list_del_entry, list_del_between, lemma_list_add, lemma_list_add_tail, lemma_list_del,
};
use crate::types::{kmem_cache, kmalloc_info_struct, slab_state_t};

verus! {

/// Address of the head of the list of all caches.
pub const SLAB_CACHES: usize = 1;

/// Address of the head of the list of caches awaiting release after RCU.
pub const RCU_DESTROY: usize = 2;

/// Address of the head that collects caches while they are released.
pub const TO_DESTROY: usize = 3;

/// Address of the first cache record.
pub const FIRST_CACHE: usize = 4;

/// Upper bound on the number of cache records the table can hold.
pub const MAX_CACHES: usize = 0x1000_0000;

/// Slots per kmalloc type: one per index `0 ..= KMALLOC_SHIFT_HIGH`.
pub const KMALLOC_SLOTS: usize = 14;

/// Entries of the table that maps small sizes to kmalloc indices.
pub const SIZE_INDEX_LEN: usize = 24;

/// Entries of the kmalloc size-class table.
pub const KMALLOC_INFO_LEN: usize = 22;

/// A kernel service the slab layer calls, with its arguments, as recorded
/// in `SlabCommon::calls`.
#[derive(Clone, Copy, PartialEq, Eq, Debug)]
pub enum KernelCall {
    /// The debugging static key is switched on.
    StaticKeyEnable,
    /// The stack depot is initialised.
    StackDepotInit,
    /// The slab mutex is taken.
    MutexLock,
    /// The slab mutex is released.
    MutexUnlock,
    /// The cpu-hotplug read lock is taken.
    CpusReadLock,
    /// The cpu-hotplug read lock is released.
    CpusReadUnlock,
    /// The kernel panics; nothing after it runs.
    Panic,
    /// A stack trace is printed.
    DumpStack,
    /// A name copied with `kstrdup_const` is freed.
    KfreeConst { addr: usize },
    /// Memory from `kmalloc` is freed.
    Kfree { addr: usize },
    /// A cache's sysfs entry is unlinked.
    SysfsSlabUnlink { s: usize },
    /// A cache's sysfs entry is released.
    SysfsSlabRelease { s: usize },
    /// The allocator releases a cache's state.
    CacheRelease { s: usize },
    /// A cache's debugfs entry is released.
    DebugfsSlabRelease { s: usize },
    /// KFENCE drops a cache.
    KfenceShutdownCache { s: usize },
    /// KASAN drops a cache's quarantined objects.
    KasanCacheShutdown { s: usize },
    /// The work that releases RCU caches is scheduled.
    ScheduleRcuDestroyWork,
    /// Pending RCU callbacks are waited for.
    RcuBarrier,
    /// KASAN drops a cache's quarantined objects before a shrink.
    KasanCacheShrink { s: usize },
    /// The allocator fills in what it knows of an object.
    KmemObjInfo { kpp: usize, object: usize, slab: usize },
    /// KFENCE is asked about an object (`__kfence_obj_info`).
    KfenceObjInfo { kpp: usize, object: usize, slab: usize },
    /// The allocator is asked for an existing cache to reuse
    /// (`__kmem_cache_alias`).
    CacheAlias { name: usize, size: u32, align: u32, flags: u32, ctor: usize },
    /// A cache name is copied (`kstrdup_const`).
    KstrdupConst { name: usize },
    /// The allocator sets up the cache at `s` (`__kmem_cache_create`).
    CacheCreate { s: usize, flags: u32 },
    /// The allocator shuts the cache at `s` down (`__kmem_cache_shutdown`).
    CacheShutdown { s: usize },
    /// The allocator shrinks the cache at `s` (`__kmem_cache_shrink`).
    CacheShrink { s: usize },
    /// A bucket array is allocated from `cache`.
    BucketsAlloc { cache: usize },
    /// The '-' in the name at `name` is looked for (`strchr`).
    Strchr { name: usize },
    /// A bucket cache name is formatted from `prefix` and the text after
    /// the '-' at `dash` (`kasprintf`).
    Kasprintf { prefix: usize, dash: usize },
}

/// How a call changes the number of times the slab mutex is held.
pub open spec fn mutex_step(k: KernelCall) -> int {
    match k {
        KernelCall::MutexLock => 1,
        KernelCall::MutexUnlock => -1,
        _ => 0,
    }
}

/// Net number of times the calls `s` take the slab mutex.
#[verifier::opaque]
pub open spec fn mutex_balance(s: Seq<KernelCall>) -> int
    decreases s.len(),
{
    if s.len() == 0 {
        0
    } else {
        mutex_balance(s.drop_last()) + mutex_step(s.last())
    }
}

/// The balance of two runs of calls in a row adds up.
pub proof fn lemma_mutex_balance_concat(a: Seq<KernelCall>, b: Seq<KernelCall>)
    ensures
        mutex_balance(a + b) == mutex_balance(a) + mutex_balance(b),
    decreases b.len(),
{
    reveal(mutex_balance);
    if b.len() == 0 {
        assert(a + b =~= a);
    } else {
        lemma_mutex_balance_concat(a, b.drop_last());
        assert((a + b).drop_last() =~= a + b.drop_last());
    }
}

/// No calls, no balance.
pub proof fn lemma_balance_empty()
    ensures
        mutex_balance(Seq::<KernelCall>::empty()) == 0,
{
    reveal(mutex_balance);
}

/// The mutex balance of one call.
pub proof fn lemma_balance_one(k: KernelCall)
    ensures
        mutex_balance(seq![k]) == mutex_step(k),
{
    reveal_with_fuel(mutex_balance, 2);
    assert(seq![k].drop_last() =~= Seq::<KernelCall>::empty());
    assert(seq![k].last() == k);
}

/// The mutex balance of two calls.
pub proof fn lemma_balance_two(a: KernelCall, b: KernelCall)
    ensures
        mutex_balance(seq![a, b]) == mutex_step(a) + mutex_step(b),
{
    lemma_balance_one(a);
    lemma_balance_one(b);
    lemma_mutex_balance_concat(seq![a], seq![b]);
    assert(seq![a] + seq![b] =~= seq![a, b]);
}

/// Calls that neither take nor release the mutex leave its balance alone.
pub proof fn lemma_balance_without_mutex(s: Seq<KernelCall>)
    requires
        forall|i: int| 0 <= i < s.len() ==> mutex_step(#[trigger] s[i]) == 0,
    ensures
        mutex_balance(s) == 0,
    decreases s.len(),
{
    reveal(mutex_balance);
    if s.len() > 0 {
        lemma_balance_without_mutex(s.drop_last());
    }
}

/// The global state of the slab layer.
pub struct SlabCommon {
    /// List links, indexed by address: the list heads at `SLAB_CACHES`,
    /// `RCU_DESTROY` and `TO_DESTROY`, then one per cache record.
    pub links: Vec<list_head>,
    /// Cache records; the record at index `k` has address `FIRST_CACHE + k`
    /// and is `None` once freed.
    pub caches: Vec<Option<kmem_cache>>,
    pub slab_state: slab_state_t,
    /// The kmalloc caches: the slot of type `t` and index `i` is at
    /// `t * KMALLOC_SLOTS + i`.
    pub kmalloc_caches: Vec<usize>,
    /// kmalloc index for each 8-byte step of sizes up to 192.
    pub kmalloc_size_index: Vec<u8>,
    /// The kmalloc size classes.
    pub kmalloc_info: Vec<kmalloc_info_struct>,
    /// Cache that bucket arrays are allocated from.
    pub kmem_buckets_cache: usize,
    /// Memory-cgroup accounting is built in.
    pub config_memcg: bool,
    /// The DMA zone is built in.
    pub config_zone_dma: bool,
    /// Kernel services called so far, in order.
    pub calls: Vec<KernelCall>,
    /// The caches on the `SLAB_CACHES` list, in list order.
    pub cache_list: Ghost<Seq<usize>>,
    /// The caches on the `RCU_DESTROY` list, in list order.
    pub rcu_list: Ghost<Seq<usize>>,
}

impl SlabCommon {
    /// `a` is the address of a cache record.
    pub open spec fn is_cache_addr(&self, a: usize) -> bool {
        FIRST_CACHE <= a < FIRST_CACHE + self.caches@.len()
    }

    /// `a` is the address of a cache record that has not been freed.
    pub open spec fn live(&self, a: usize) -> bool {
        self.is_cache_addr(a) && self.caches@[a - FIRST_CACHE] is Some
    }

    /// The cache record at address `a`.
    pub open spec fn cache(&self, a: usize) -> kmem_cache {
        self.caches@[a - FIRST_CACHE]->0
    }

    /// Address the next cache record gets.
    pub open spec fn next_addr(&self) -> usize {
        (FIRST_CACHE + self.caches@.len()) as usize
    }

    /// The kmalloc cache of type `t` and index `i`.
    pub open spec fn kmalloc_cache(&self, t: int, i: int) -> usize {
        self.kmalloc_caches@[t * KMALLOC_SLOTS + i]
    }

    /// The state is consistent: tables have their sizes and both cache
    /// lists are well-formed, disjoint and hold live caches only.
    pub open spec fn wf(&self) -> bool {
        &&& self.links@.len() == self.caches@.len() + FIRST_CACHE
        &&& self.caches@.len() < MAX_CACHES
        &&& self.kmalloc_caches@.len() == 4 * KMALLOC_SLOTS
        &&& self.kmalloc_size_index@.len() == SIZE_INDEX_LEN
        &&& self.kmalloc_info@.len() == KMALLOC_INFO_LEN
        &&& forall|j: int|
            0 <= j < SIZE_INDEX_LEN ==> #[trigger] self.kmalloc_size_index@[j] < KMALLOC_SLOTS
        &&& list_wf(self.links@, SLAB_CACHES, self.cache_list@)
        &&& list_wf(self.links@, RCU_DESTROY, self.rcu_list@)
        &&& forall|i: int|
            0 <= i < self.cache_list@.len() ==> self.live(#[trigger] self.cache_list@[i])
        &&& forall|i: int| 0 <= i < self.rcu_list@.len() ==> self.live(#[trigger] self.rcu_list@[i])
        &&& forall|i: int|
            0 <= i < self.cache_list@.len() ==> !self.rcu_list@.contains(
                #[trigger] self.cache_list@[i],
            )
    }

    /// The kmalloc tables, the boot state, the configuration and the buckets
    /// cache are those of `other`.
    pub open spec fn same_tables(&self, other: &SlabCommon) -> bool {
        &&& self.slab_state == other.slab_state
        &&& self.kmalloc_caches@ == other.kmalloc_caches@
        &&& self.kmalloc_size_index@ == other.kmalloc_size_index@
        &&& self.kmalloc_info@ == other.kmalloc_info@
        &&& self.kmem_buckets_cache == other.kmem_buckets_cache
        &&& self.config_memcg == other.config_memcg
        &&& self.config_zone_dma == other.config_zone_dma
    }

    /// The cache records and both cache lists are those of `other`.
    pub open spec fn same_caches(&self, other: &SlabCommon) -> bool {
        &&& self.caches@ == other.caches@
        &&& self.cache_list@ == other.cache_list@
        &&& self.rcu_list@ == other.rcu_list@
    }

    /// Initial kmalloc index of each 8-byte step of small sizes.
    pub open spec fn default_size_index() -> Seq<u8> {
        seq![
            3u8, 4, 5, 5, 6, 6, 6, 6, 1, 1, 1, 1, 7, 7, 7, 7, 2, 2, 2, 2, 2, 2, 2, 2,
        ]
    }

    /// The state before boot: no caches, empty lists, no kmalloc caches.
    pub fn new(kmalloc_info: Vec<kmalloc_info_struct>, config_memcg: bool, config_zone_dma: bool) -> (sc: SlabCommon)
        requires
            kmalloc_info@.len() == KMALLOC_INFO_LEN,
        ensures
            sc.wf(),
            sc.caches@.len() == 0,
            sc.cache_list@ == Seq::<usize>::empty(),
            sc.rcu_list@ == Seq::<usize>::empty(),
            sc.slab_state == slab_state_t::DOWN,
            sc.kmalloc_caches@ == Seq::new((4 * KMALLOC_SLOTS) as nat, |i: int| 0usize),
            sc.kmalloc_size_index@ == SlabCommon::default_size_index(),
            sc.kmalloc_info@ == kmalloc_info@,
            sc.kmem_buckets_cache == 0,
            sc.config_memcg == config_memcg,
            sc.config_zone_dma == config_zone_dma,
            sc.calls@ == Seq::<KernelCall>::empty(),
    {
        let mut links: Vec<list_head> = Vec::new();
        let mut a: usize = 0;
        while a < FIRST_CACHE
            invariant
                a <= FIRST_CACHE,
                links@.len() == a,
                forall|j: int| 0 <= j < a ==> links@[j] == (list_head { next: j as usize, prev: j as usize }),
            decreases FIRST_CACHE - a,
        {
            links.push(list_head { next: a, prev: a });
            a = a + 1;
        }
        let mut kmalloc_caches: Vec<usize> = Vec::new();
        let mut i: usize = 0;
        while i < 4 * KMALLOC_SLOTS
            invariant
                i <= 4 * KMALLOC_SLOTS,
                kmalloc_caches@.len() == i,
                forall|j: int| 0 <= j < i ==> kmalloc_caches@[j] == 0usize,
            decreases 4 * KMALLOC_SLOTS - i,
        {
            kmalloc_caches.push(0);
            i = i + 1;
        }
        let kmalloc_size_index: Vec<u8> = vec![
            3u8, 4, 5, 5, 6, 6, 6, 6, 1, 1, 1, 1, 7, 7, 7, 7, 2, 2, 2, 2, 2, 2, 2, 2,
        ];
        let sc = SlabCommon {
            links,
            caches: Vec::new(),
            slab_state: slab_state_t::DOWN,
            kmalloc_caches,
            kmalloc_size_index,
            kmalloc_info,
            kmem_buckets_cache: 0,
            config_memcg,
            config_zone_dma,
            calls: Vec::new(),
            cache_list: Ghost(Seq::empty()),
            rcu_list: Ghost(Seq::empty()),
        };
        proof {
            assert(sc.kmalloc_caches@ =~= Seq::new((4 * KMALLOC_SLOTS) as nat, |i: int| 0usize));
            assert(sc.kmalloc_size_index@ =~= SlabCommon::default_size_index());
        }
        sc
    }

    /// Returns the record of the live cache at `a`.
    pub fn get_cache(&self, a: usize) -> (c: kmem_cache)
        requires
            self.live(a),
        ensures
            c == self.cache(a),
    {
        match self.caches[a - FIRST_CACHE] {
            Some(c) => c,
            None => kmem_cache::zeroed(),
        }
    }

    /// Replaces the record of the live cache at `a`.
    pub fn set_cache(&mut self, a: usize, c: kmem_cache)
        requires
            old(self).wf(),
            old(self).live(a),
        ensures
            final(self).wf(),
            final(self).caches@ == old(self).caches@.update(a - FIRST_CACHE, Some(c)),
            final(self).links@ == old(self).links@,
            final(self).cache_list@ == old(self).cache_list@,
            final(self).rcu_list@ == old(self).rcu_list@,
            final(self).calls@ == old(self).calls@,
            final(self).same_tables(old(self)),
    {
        self.caches.set(a - FIRST_CACHE, Some(c));
        proof {
            assert forall|i: int| 0 <= i < self.cache_list@.len() implies self.live(
                #[trigger] self.cache_list@[i],
            ) by {
                assert(old(self).live(old(self).cache_list@[i]));
            }
            assert forall|i: int| 0 <= i < self.rcu_list@.len() implies self.live(
                #[trigger] self.rcu_list@[i],
            ) by {
                assert(old(self).live(old(self).rcu_list@[i]));
            }
        }
    }

    /// Hands out a new zeroed cache record, as an allocation from the cache
    /// of caches, and returns its address.
    pub fn alloc_cache(&mut self) -> (a: usize)
        requires
            old(self).wf(),
            old(self).caches@.len() + 1 < MAX_CACHES,
        ensures
            final(self).wf(),
            a == old(self).next_addr(),
            final(self).caches@ == old(self).caches@.push(Some(kmem_cache::zeroed_spec())),
            final(self).cache_list@ == old(self).cache_list@,
            final(self).rcu_list@ == old(self).rcu_list@,
            final(self).calls@ == old(self).calls@,
            final(self).same_tables(old(self)),
    {
        let a = FIRST_CACHE + self.caches.len();
        self.caches.push(Some(kmem_cache::zeroed()));
        self.links.push(list_head { next: 0, prev: 0 });
        proof {
            lemma_list_wf_frame(old(self).links@, self.links@, SLAB_CACHES, self.cache_list@);
            lemma_list_wf_frame(old(self).links@, self.links@, RCU_DESTROY, self.rcu_list@);
            assert forall|i: int| 0 <= i < self.cache_list@.len() implies self.live(
                #[trigger] self.cache_list@[i],
            ) by {
                assert(old(self).live(old(self).cache_list@[i]));
            }
            assert forall|i: int| 0 <= i < self.rcu_list@.len() implies self.live(
                #[trigger] self.rcu_list@[i],
            ) by {
                assert(old(self).live(old(self).rcu_list@[i]));
            }
        }
        a
    }

    /// Frees the record of the cache at `a`, which is on neither list.
    pub fn free_cache(&mut self, a: usize)
        requires
            old(self).wf(),
            old(self).is_cache_addr(a),
            !old(self).cache_list@.contains(a),
            !old(self).rcu_list@.contains(a),
        ensures
            final(self).wf(),
            final(self).caches@ == old(self).caches@.update(a - FIRST_CACHE, None),
            final(self).links@ == old(self).links@,
            final(self).cache_list@ == old(self).cache_list@,
            final(self).rcu_list@ == old(self).rcu_list@,
            final(self).calls@ == old(self).calls@,
            final(self).same_tables(old(self)),
    {
        self.caches.set(a - FIRST_CACHE, None);
        proof {
            assert forall|i: int| 0 <= i < self.cache_list@.len() implies self.live(
                #[trigger] self.cache_list@[i],
            ) by {
                assert(old(self).live(old(self).cache_list@[i]));
                assert(self.cache_list@[i] != a);
            }
            assert forall|i: int| 0 <= i < self.rcu_list@.len() implies self.live(
                #[trigger] self.rcu_list@[i],
            ) by {
                assert(old(self).live(old(self).rcu_list@[i]));
                assert(self.rcu_list@[i] != a);
            }
        }
    }

    /// Records a call of a kernel service.
    pub fn call(&mut self, k: KernelCall)
        ensures
            final(self).calls@ == old(self).calls@.push(k),
            final(self).links@ == old(self).links@,
            final(self).same_caches(old(self)),
            final(self).same_tables(old(self)),
    {
        self.calls.push(k);
    }

    /// Puts the live cache `a`, which is on neither list, first on the list
    /// of all caches.
    pub fn register_cache(&mut self, a: usize)
        requires
            old(self).wf(),
            old(self).live(a),
            !old(self).cache_list@.contains(a),
            !old(self).rcu_list@.contains(a),
        ensures
            final(self).wf(),
            final(self).cache_list@ == seq![a] + old(self).cache_list@,
            final(self).rcu_list@ == old(self).rcu_list@,
            final(self).caches@ == old(self).caches@,
            final(self).calls@ == old(self).calls@,
            final(self).same_tables(old(self)),
    {
        proof {
            lemma_list_add(self.links@, SLAB_CACHES, self.cache_list@, a);
        }
        let ghost l0 = self.links@;
        list_add(&mut self.links, a, SLAB_CACHES);
        self.cache_list = Ghost(seq![a] + self.cache_list@);
        proof {
            let n = l0[SLAB_CACHES as int].next;
            assert(n == SLAB_CACHES || old(self).cache_list@.contains(n));
            assert forall|i: int| 0 <= i < self.rcu_list@.len() implies self.links@[
                #[trigger] self.rcu_list@[i] as int] == l0[self.rcu_list@[i] as int] by {
                let x = self.rcu_list@[i];
                assert(x != a);
                if x == n {
                    assert(old(self).cache_list@.contains(x));
                    let j = choose|j: int| 0 <= j < old(self).cache_list@.len() && old(self).cache_list@[j] == x;
                    assert(!old(self).rcu_list@.contains(old(self).cache_list@[j]));
                }
            }
            lemma_list_wf_frame(l0, self.links@, RCU_DESTROY, self.rcu_list@);
            assert forall|i: int| 0 <= i < self.cache_list@.len() implies self.live(
                #[trigger] self.cache_list@[i],
            ) by {
                if i > 0 {
                    assert(self.cache_list@[i] == old(self).cache_list@[i - 1]);
                }
            }
            assert forall|i: int| 0 <= i < self.cache_list@.len() implies !self.rcu_list@.contains(
                #[trigger] self.cache_list@[i],
            ) by {
                if i > 0 {
                    assert(self.cache_list@[i] == old(self).cache_list@[i - 1]);
                }
            }
        }
    }

    /// Takes the cache at position `i` off the list of all caches, linking
    /// its neighbours to each other; its own links are left as they were.
    #[verifier::spinoff_prover]
    #[verifier::rlimit(40)]
    pub fn unregister_cache(&mut self, a: usize, Ghost(i): Ghost<int>)
        requires
            old(self).wf(),
            0 <= i < old(self).cache_list@.len(),
            old(self).cache_list@[i] == a,
        ensures
            final(self).wf(),
            final(self).cache_list@ == old(self).cache_list@.remove(i),
            final(self).rcu_list@ == old(self).rcu_list@,
            final(self).caches@ == old(self).caches@,
            final(self).calls@ == old(self).calls@,
            final(self).same_tables(old(self)),
            final(self).links@[a as int] == old(self).links@[a as int],
    {
        proof {
            let s0 = old(self).cache_list@;
            if i > 0 {
                assert(s0[i - 1] != a);
            }
            if i + 1 < s0.len() {
                assert(s0[i + 1] != a);
            }
        }
        let ghost l0 = self.links@;
        let ghost s0 = self.cache_list@;
        proof {
            lemma_list_del(l0, SLAB_CACHES, s0, i);
            let t = s0.remove(i);
            let poisoned = list_del_entry(l0, a);
            let kept = list_del_between(l0, l0[a as int].prev, l0[a as int].next);
            assert forall|k: int| 0 <= k < t.len() implies kept[#[trigger] t[k] as int]
                == poisoned[t[k] as int] by {
                let k2 = if k < i { k } else { k + 1 };
                assert(t[k] == s0[k2]);
            }
            lemma_list_wf_frame(poisoned, kept, SLAB_CACHES, t);
        }
        __list_del_entry(&mut self.links, a);
        self.cache_list = Ghost(self.cache_list@.remove(i));
        proof {
            assert(s0.no_duplicates());
            assert forall|k: int| 0 <= k < self.rcu_list@.len() implies self.links@[
                #[trigger] self.rcu_list@[k] as int] == l0[self.rcu_list@[k] as int] by {
                let x = self.rcu_list@[k];
                assert(!s0.contains(x)) by {
                    if s0.contains(x) {
                        let j = choose|j: int| 0 <= j < s0.len() && s0[j] == x;
                        assert(!old(self).rcu_list@.contains(s0[j]));
                    }
                }
                if i > 0 {
                    assert(x != s0[i - 1]);
                }
                if i + 1 < s0.len() {
                    assert(x != s0[i + 1]);
                }
            }
            lemma_list_wf_frame(l0, self.links@, RCU_DESTROY, self.rcu_list@);
            assert forall|k: int| 0 <= k < self.cache_list@.len() implies self.live(
                #[trigger] self.cache_list@[k],
            ) && !self.rcu_list@.contains(self.cache_list@[k]) by {
                let k2 = if k < i { k } else { k + 1 };
                assert(self.cache_list@[k] == s0[k2]);
            }
        }
    }

    /// Puts the live cache `a`, which is on neither list, last on the list
    /// of caches awaiting release after RCU.
    pub fn queue_rcu_release(&mut self, a: usize)
        requires
            old(self).wf(),
            old(self).live(a),
            !old(self).cache_list@.contains(a),
            !old(self).rcu_list@.contains(a),
        ensures
            final(self).wf(),
            final(self).rcu_list@ == old(self).rcu_list@.push(a),
            final(self).cache_list@ == old(self).cache_list@,
            final(self).caches@ == old(self).caches@,
            final(self).calls@ == old(self).calls@,
            final(self).same_tables(old(self)),
    {
        proof {
            lemma_list_add_tail(self.links@, RCU_DESTROY, self.rcu_list@, a);
        }
        let ghost l0 = self.links@;
        list_add_tail(&mut self.links, a, RCU_DESTROY);
        self.rcu_list = Ghost(self.rcu_list@.push(a));
        proof {
            let p = l0[RCU_DESTROY as int].prev;
            assert(p == RCU_DESTROY || old(self).rcu_list@.contains(p));
            assert forall|i: int| 0 <= i < self.cache_list@.len() implies self.links@[
                #[trigger] self.cache_list@[i] as int] == l0[self.cache_list@[i] as int] by {
                let x = self.cache_list@[i];
                assert(x != a);
                assert(!old(self).rcu_list@.contains(x));
            }
            lemma_list_wf_frame(l0, self.links@, SLAB_CACHES, self.cache_list@);
            assert forall|i: int| 0 <= i < self.rcu_list@.len() implies self.live(
                #[trigger] self.rcu_list@[i],
            ) by {
                if i < old(self).rcu_list@.len() {
                    assert(self.rcu_list@[i] == old(self).rcu_list@[i]);
                }
            }
            assert forall|i: int| 0 <= i < self.cache_list@.len() implies !self.rcu_list@.contains(
                #[trigger] self.cache_list@[i],
            ) by {
                let x = self.cache_list@[i];
                assert(!old(self).rcu_list@.contains(x));
                assert(x != a);
                if self.rcu_list@.contains(x) {
                    let j = choose|j: int| 0 <= j < self.rcu_list@.len() && self.rcu_list@[j] == x;
                    if j < old(self).rcu_list@.len() {
                        assert(old(self).rcu_list@[j] == x);
                    }
                }
            }
        }
    }
}

} // verus!
