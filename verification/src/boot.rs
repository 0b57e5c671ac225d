//! Setting up the kmalloc caches while the slab layer boots.
use vstd::prelude::*;
use crate::align::align_macro;
use crate::bitops::{ffs, ffs_spec};
use crate::cache::{calculate_alignment, calculate_alignment_spec, alignment_args_ok};
use crate::create::NewCacheReplies;
use crate::flags::{
    ARCH_KMALLOC_MINALIGN, CONFIG_HARDENED_USERCOPY, CONFIG_RANDOM_KMALLOC_CACHES, KMALLOC_CGROUP,
    KMALLOC_DMA, KMALLOC_MIN_SIZE, KMALLOC_NORMAL, KMALLOC_RANDOM_END, KMALLOC_RANDOM_START,
    KMALLOC_RECLAIM, KMALLOC_SHIFT_LOW, SLAB_ACCOUNT, SLAB_CACHE_DMA, SLAB_KMALLOC, SLAB_NO_MERGE,
    SLAB_RECLAIM_ACCOUNT,
};
use crate::kmalloc::{size_index_elem, __kmalloc_index, kmalloc_index_spec};
use crate::registry::{SlabCommon, KernelCall, MAX_CACHES, KMALLOC_SLOTS};
use crate::types::kmem_cache;

verus! {

/// The small-size index table after `setup_kmalloc_cache_index_table`:
/// sizes below `KMALLOC_MIN_SIZE` map to the smallest cache; with a
/// minimum of 64 the 96-byte sizes map to the 128-byte cache, and with a
/// minimum of 128 the 192-byte sizes map to the 256-byte cache.
pub open spec fn setup_index_table(t: Seq<u8>) -> Seq<u8> {
    Seq::new(
        t.len(),
        |j: int|
            {
                let b = 8 * j + 8;
                if KMALLOC_MIN_SIZE >= 128 && 136 <= b <= 192 {
                    8u8
                } else if KMALLOC_MIN_SIZE >= 64 && 72 <= b <= 96 {
                    7u8
                } else if b < KMALLOC_MIN_SIZE {
                    KMALLOC_SHIFT_LOW as u8
                } else {
                    t[j]
                }
            },
    )
}

/// Patches the small-size index table for a large minimum kmalloc
/// alignment.
pub fn setup_kmalloc_cache_index_table(sc: &mut SlabCommon)
    requires
        old(sc).wf(),
    ensures
        final(sc).wf(),
        final(sc).kmalloc_size_index@ == setup_index_table(old(sc).kmalloc_size_index@),
        final(sc).links@ == old(sc).links@,
        final(sc).same_caches(old(sc)),
        final(sc).calls@ == old(sc).calls@,
        final(sc).slab_state == old(sc).slab_state,
        final(sc).kmalloc_caches@ == old(sc).kmalloc_caches@,
        final(sc).kmalloc_info@ == old(sc).kmalloc_info@,
        final(sc).kmem_buckets_cache == old(sc).kmem_buckets_cache,
        final(sc).config_memcg == old(sc).config_memcg,
        final(sc).config_zone_dma == old(sc).config_zone_dma,
{
    let mut i: u32 = 8;
    while i < KMALLOC_MIN_SIZE
        invariant
            8 <= i,
            sc.wf(),
            sc.kmalloc_size_index@ == old(sc).kmalloc_size_index@,
            sc.links@ == old(sc).links@,
            sc.same_caches(old(sc)),
            sc.calls@ == old(sc).calls@,
            sc.slab_state == old(sc).slab_state,
            sc.kmalloc_caches@ == old(sc).kmalloc_caches@,
            sc.kmalloc_info@ == old(sc).kmalloc_info@,
            sc.kmem_buckets_cache == old(sc).kmem_buckets_cache,
            sc.config_memcg == old(sc).config_memcg,
            sc.config_zone_dma == old(sc).config_zone_dma,
        decreases KMALLOC_MIN_SIZE - i,
    {
        let elem: u32 = size_index_elem(i);
        if elem >= 24 {
            break;
        }
        sc.kmalloc_size_index.set(elem as usize, KMALLOC_SHIFT_LOW as u8);
        i = i + 8;
    }
    if KMALLOC_MIN_SIZE >= 64 {
        i = 64 + 8;
        while i <= 96
            invariant
                KMALLOC_MIN_SIZE >= 64,
            decreases 96 - i,
        {
            sc.kmalloc_size_index.set(size_index_elem(i) as usize, 7);
            i = i + 8;
        }
    }
    if KMALLOC_MIN_SIZE >= 128 {
        i = 128 + 8;
        while i <= 192
            invariant
                KMALLOC_MIN_SIZE >= 128,
            decreases 192 - i,
        {
            sc.kmalloc_size_index.set(size_index_elem(i) as usize, 8);
            i = i + 8;
        }
    }
    proof {
        assert(sc.kmalloc_size_index@ =~= setup_index_table(old(sc).kmalloc_size_index@));
    }
}

/// Minimum alignment of kmalloc objects: the DMA cache alignment, or the
/// architecture minimum when DMA bounces unaligned kmalloc buffers, raised
/// to the slab minimum of the architecture.
pub open spec fn kmalloc_minalign_spec(dma_cache_alignment: u32, dma_bounce_unaligned: u32, arch_slab_minalign: u32) -> u32 {
    let m = if dma_bounce_unaligned != 0 {
        ARCH_KMALLOC_MINALIGN
    } else {
        dma_cache_alignment
    };
    if m >= arch_slab_minalign {
        m
    } else {
        arch_slab_minalign
    }
}

/// Minimum alignment of kmalloc objects.  The arguments are the answers of
/// `dma_get_cache_alignment`, of whether DMA bounces unaligned kmalloc
/// buffers, and of `arch_slab_minalign`.
pub fn __kmalloc_minalign(dma_cache_alignment: u32, dma_bounce_unaligned: u32, arch_slab_minalign: u32) -> (r: u32)
    ensures
        r == kmalloc_minalign_spec(dma_cache_alignment, dma_bounce_unaligned, arch_slab_minalign),
{
    let mut minalign: u32 = dma_cache_alignment;
    if dma_bounce_unaligned != 0 {
        minalign = ARCH_KMALLOC_MINALIGN;
    }
    if minalign >= arch_slab_minalign {
        minalign
    } else {
        arch_slab_minalign
    }
}

/// Alignment of a boot cache before `calculate_alignment`: the kmalloc
/// minimum, raised for kmalloc caches to the largest power of two that
/// divides the size.
pub open spec fn boot_align(flags: u32, size: u32) -> u32 {
    if flags & SLAB_KMALLOC != 0 && (1u32 << ((ffs_spec(size) - 1) as u32)) > ARCH_KMALLOC_MINALIGN {
        1u32 << ((ffs_spec(size) - 1) as u32)
    } else {
        ARCH_KMALLOC_MINALIGN
    }
}

/// The record of a boot cache, with the fields `create_boot_cache` sets.
pub open spec fn boot_record(
    c: kmem_cache,
    name: usize,
    size: u32,
    flags: u32,
    useroffset: u32,
    usersize: u32,
    create_flags: u32,
) -> kmem_cache {
    kmem_cache {
        name,
        size,
        object_size: size,
        align: calculate_alignment_spec(flags, boot_align(flags, size), size),
        useroffset: if CONFIG_HARDENED_USERCOPY { useroffset } else { c.useroffset },
        usersize: if CONFIG_HARDENED_USERCOPY { usersize } else { c.usersize },
        flags: create_flags,
        ..c
    }
}

/// Arguments a boot cache can be set up with: a kmalloc cache has objects,
/// and so does a cache-line-aligned one.
pub open spec fn boot_args_ok(flags: u32, size: u32) -> bool {
    &&& flags & SLAB_KMALLOC != 0 ==> size != 0
    &&& alignment_args_ok(flags, ARCH_KMALLOC_MINALIGN, size)
}

/// Sets up the live cache record at `s` while no slab services are
/// available yet.  `create_err` and `create_flags` are the answer of
/// `__kmem_cache_create` and the flags it stored.  A refused cache makes
/// the kernel panic, and `false` is returned; otherwise the cache is
/// exempt from merging (count -1) and `true` is returned.
pub fn create_boot_cache(
    sc: &mut SlabCommon,
    s: usize,
    name: usize,
    size: u32,
    flags: u32,
    useroffset: u32,
    usersize: u32,
    create_err: u32,
    create_flags: u32,
) -> (ok: bool)
    requires
        old(sc).wf(),
        old(sc).live(s),
        boot_args_ok(flags, size),
    ensures
        final(sc).wf(),
        ok == (create_err == 0),
        final(sc).links@ == old(sc).links@,
        final(sc).cache_list@ == old(sc).cache_list@,
        final(sc).rcu_list@ == old(sc).rcu_list@,
        final(sc).same_tables(old(sc)),
        ({
            let rec = boot_record(old(sc).cache(s), name, size, flags, useroffset, usersize, create_flags);
            let created = old(sc).calls@.push(KernelCall::CacheCreate { s, flags });
            if create_err != 0 {
                &&& final(sc).calls@ == created.push(KernelCall::Panic)
                &&& final(sc).caches@ == old(sc).caches@.update(s - 4, Some(rec))
            } else {
                &&& final(sc).calls@ == created
                &&& final(sc).caches@ == old(sc).caches@.update(
                    s - 4,
                    Some(kmem_cache { refcount: -1i32, ..rec }),
                )
            }
        }),
{
    let mut align: u32 = ARCH_KMALLOC_MINALIGN;
    if flags & SLAB_KMALLOC != 0 {
        let f = ffs(size);
        let p: u32 = 1u32 << (f - 1);
        if p > align {
            align = p;
        }
    }
    proof {
        if flags & SLAB_KMALLOC != 0 {
            let k = (ffs_spec(size) - 1) as u32;
            assert(k < 32 ==> (1u32 << k) <= 0x8000_0000u32) by (bit_vector);
        }
    }
    let mut c = sc.get_cache(s);
    c.name = name;
    c.size = size;
    c.object_size = size;
    c.align = calculate_alignment(flags, align, size);
    if CONFIG_HARDENED_USERCOPY {
        c.useroffset = useroffset;
        c.usersize = usersize;
    }
    c.flags = create_flags;
    sc.set_cache(s, c);
    sc.call(KernelCall::CacheCreate { s, flags });
    let err: i32 = create_err as i32;
    proof {
        assert((create_err as i32 != 0i32) == (create_err != 0u32)) by (bit_vector);
    }
    if err != 0 {
        sc.call(KernelCall::Panic);
        return false;
    }
    c.refcount = -1;
    sc.set_cache(s, c);
    true
}

/// The record of a kmalloc cache that `create_kmalloc_cache` set up.
pub open spec fn kmalloc_record(name: usize, size: u32, flags: u32, create_flags: u32) -> kmem_cache {
    kmem_cache {
        refcount: 1i32,
        ..boot_record(
            kmem_cache::zeroed_spec(),
            name,
            size,
            flags | SLAB_KMALLOC,
            0,
            size,
            create_flags,
        )
    }
}

/// What `create_kmalloc_cache` leaves in `new` from `old`: without a
/// record the kernel panics; a refused cache panics after its record is
/// filled in; otherwise the cache is first on the list of all caches.
pub open spec fn kmalloc_cache_created(
    old: SlabCommon,
    new: SlabCommon,
    name: usize,
    size: u32,
    flags: u32,
    rep: NewCacheReplies,
) -> bool {
    let a = old.next_addr();
    let filled = boot_record(
        kmem_cache::zeroed_spec(),
        name,
        size,
        flags | SLAB_KMALLOC,
        0,
        size,
        rep.create_flags,
    );
    &&& new.rcu_list@ == old.rcu_list@
    &&& !rep.alloc_ok ==> {
        &&& new.calls@ == old.calls@.push(KernelCall::Panic)
        &&& new.caches@ == old.caches@
        &&& new.cache_list@ == old.cache_list@
    }
    &&& rep.alloc_ok && rep.create_err != 0 ==> {
        &&& new.calls@ == old.calls@ + seq![
            KernelCall::CacheCreate { s: a, flags: flags | SLAB_KMALLOC },
            KernelCall::Panic,
        ]
        &&& new.caches@ == old.caches@.push(Some(filled))
        &&& new.cache_list@ == old.cache_list@
    }
    &&& rep.alloc_ok && rep.create_err == 0 ==> {
        &&& new.calls@ == old.calls@.push(KernelCall::CacheCreate { s: a, flags: flags | SLAB_KMALLOC })
        &&& new.caches@ == old.caches@.push(Some(kmalloc_record(name, size, flags, rep.create_flags)))
        &&& new.cache_list@ == seq![a] + old.cache_list@
    }
}

/// Creates a kmalloc cache while the slab layer boots and puts it first on
/// the list of all caches.  Returns its address, or 0 when no record could
/// be had (the kernel then panics).
pub fn create_kmalloc_cache(
    sc: &mut SlabCommon,
    name: usize,
    size: u32,
    flags: u32,
    rep: NewCacheReplies,
) -> (r: usize)
    requires
        old(sc).wf(),
        old(sc).caches@.len() + 1 < MAX_CACHES,
        rep.alloc_ok ==> boot_args_ok(flags | SLAB_KMALLOC, size),
    ensures
        final(sc).wf(),
        final(sc).same_tables(old(sc)),
        r == (if rep.alloc_ok { old(sc).next_addr() } else { 0 }),
        kmalloc_cache_created(*old(sc), *final(sc), name, size, flags, rep),
{
    if !rep.alloc_ok {
        sc.call(KernelCall::Panic);
        return 0;
    }
    let s = sc.alloc_cache();
    if !create_boot_cache(sc, s, name, size, flags | SLAB_KMALLOC, 0, size, rep.create_err, rep.create_flags) {
        proof {
            assert(sc.calls@ =~= old(sc).calls@ + seq![
                KernelCall::CacheCreate { s, flags: flags | SLAB_KMALLOC },
                KernelCall::Panic,
            ]);
            assert(sc.caches@ =~= old(sc).caches@.push(
                Some(boot_record(kmem_cache::zeroed_spec(), name, size, flags | SLAB_KMALLOC, 0, size, rep.create_flags)),
            ));
        }
        return s;
    }
    proof {
        assert(!sc.cache_list@.contains(s)) by {
            if sc.cache_list@.contains(s) {
                let k = choose|k: int| 0 <= k < sc.cache_list@.len() && sc.cache_list@[k] == s;
                assert(old(sc).live(old(sc).cache_list@[k]));
            }
        }
        assert(!sc.rcu_list@.contains(s)) by {
            if sc.rcu_list@.contains(s) {
                let k = choose|k: int| 0 <= k < sc.rcu_list@.len() && sc.rcu_list@[k] == s;
                assert(old(sc).live(old(sc).rcu_list@[k]));
            }
        }
    }
    sc.register_cache(s);
    let mut c = sc.get_cache(s);
    c.refcount = 1;
    sc.set_cache(s, c);
    proof {
        assert(sc.caches@ =~= old(sc).caches@.push(Some(kmalloc_record(name, size, flags, rep.create_flags))));
    }
    s
}

/// What the kernel answers while a kmalloc cache is set up.
#[derive(Clone, Copy)]
pub struct KmallocReplies {
    /// Answer of `dma_get_cache_alignment`.
    pub dma_cache_alignment: u32,
    /// Nonzero when DMA bounces unaligned kmalloc buffers.
    pub dma_bounce_unaligned: u32,
    /// Answer of `arch_slab_minalign`.
    pub arch_slab_minalign: u32,
    /// Answer of `mem_cgroup_kmem_disabled`.
    pub memcg_kmem_disabled: bool,
    /// Answers while the cache record is set up.
    pub new_cache: NewCacheReplies,
}

/// Flags of the kmalloc caches of type `t`.
pub open spec fn kmalloc_type_flags(sc: SlabCommon, t: u32) -> u32 {
    let f1 = if KMALLOC_RECLAIM != KMALLOC_NORMAL && t == KMALLOC_RECLAIM {
        SLAB_RECLAIM_ACCOUNT
    } else if sc.config_memcg && t == KMALLOC_CGROUP {
        SLAB_ACCOUNT
    } else if sc.config_zone_dma && t == KMALLOC_DMA {
        SLAB_CACHE_DMA
    } else {
        0
    };
    let f2 = if CONFIG_RANDOM_KMALLOC_CACHES && KMALLOC_RANDOM_START <= t <= KMALLOC_RANDOM_END {
        f1 | SLAB_NO_MERGE
    } else {
        f1
    };
    if sc.config_memcg && t == KMALLOC_NORMAL {
        f2 | SLAB_NO_MERGE
    } else {
        f2
    }
}

/// The cgroup caches share the normal ones: memory cgroups are built in
/// but their kernel-memory accounting is switched off.
pub open spec fn cgroup_shares_normal(sc: SlabCommon, t: u32, rep: KmallocReplies) -> bool {
    !(KMALLOC_RECLAIM != KMALLOC_NORMAL && t == KMALLOC_RECLAIM) && sc.config_memcg && t
        == KMALLOC_CGROUP && rep.memcg_kmem_disabled
}

/// Object size of the kmalloc caches of class `idx`, rounded up to the
/// minimum alignment when that exceeds the architecture minimum.
pub open spec fn kmalloc_aligned_size(sc: SlabCommon, idx: int, rep: KmallocReplies) -> u32 {
    let m = kmalloc_minalign_spec(rep.dma_cache_alignment, rep.dma_bounce_unaligned, rep.arch_slab_minalign);
    let size = sc.kmalloc_info@[idx].size;
    if m > ARCH_KMALLOC_MINALIGN {
        ((size + m - 1) as u32) & !((m - 1) as u32)
    } else {
        size
    }
}

/// Class of the kmalloc cache that serves class `idx` after the rounding
/// of `kmalloc_aligned_size`.
pub open spec fn kmalloc_aligned_idx(sc: SlabCommon, idx: int, rep: KmallocReplies) -> int {
    let m = kmalloc_minalign_spec(rep.dma_cache_alignment, rep.dma_bounce_unaligned, rep.arch_slab_minalign);
    if m > ARCH_KMALLOC_MINALIGN {
        kmalloc_index_spec(kmalloc_aligned_size(sc, idx, rep) as int) as int
    } else {
        idx
    }
}

/// What `new_kmalloc_cache` of class `idx` and type `t` leaves in `new`,
/// from `old`, with the kernel's answers `rep`.
pub open spec fn new_kmalloc_effect(old: SlabCommon, new: SlabCommon, idx: int, t: u32, rep: KmallocReplies) -> bool {
    let aidx = kmalloc_aligned_idx(old, idx, rep);
    let slot = t * KMALLOC_SLOTS + aidx;
    if cgroup_shares_normal(old, t, rep) {
        &&& new.kmalloc_caches@ == old.kmalloc_caches@.update(
            t * KMALLOC_SLOTS + idx,
            old.kmalloc_cache(KMALLOC_NORMAL as int, idx),
        )
        &&& new.calls@ == old.calls@
        &&& new.same_caches(&old)
    } else if old.kmalloc_caches@[slot] != 0 {
        &&& new.kmalloc_caches@ == old.kmalloc_caches@
        &&& new.calls@ == old.calls@
        &&& new.same_caches(&old)
    } else {
        &&& new.kmalloc_caches@ == old.kmalloc_caches@.update(
            slot,
            if rep.new_cache.alloc_ok { old.next_addr() } else { 0 },
        )
        &&& kmalloc_cache_created(
            old,
            new,
            old.kmalloc_info@[aidx].name[t as int],
            kmalloc_aligned_size(old, idx, rep),
            kmalloc_type_flags(old, t),
            rep.new_cache,
        )
    }
}

/// Setting up a kmalloc cache twice with the same arguments and answers
/// changes nothing the second time: the first call filled the slot.
pub proof fn law_new_kmalloc_cache_idempotent(
    s0: SlabCommon,
    s1: SlabCommon,
    s2: SlabCommon,
    idx: int,
    t: u32,
    rep: KmallocReplies,
)
    requires
        s0.wf(),
        s1.wf(),
        0 <= idx < KMALLOC_SLOTS,
        0 <= kmalloc_aligned_idx(s0, idx, rep) < KMALLOC_SLOTS,
        t < 4,
        rep.new_cache.alloc_ok,
        new_kmalloc_effect(s0, s1, idx, t, rep),
        s1.kmalloc_info@ == s0.kmalloc_info@,
        s1.config_memcg == s0.config_memcg,
        new_kmalloc_effect(s1, s2, idx, t, rep),
    ensures
        s2.kmalloc_caches@ == s1.kmalloc_caches@,
        s2.calls@ == s1.calls@,
        s2.same_caches(&s1),
{
    let aidx = kmalloc_aligned_idx(s0, idx, rep);
    assert(kmalloc_aligned_idx(s1, idx, rep) == aidx);
    if cgroup_shares_normal(s0, t, rep) {
        assert(t != KMALLOC_NORMAL);
        assert(s1.kmalloc_caches@[t * KMALLOC_SLOTS + idx] == s1.kmalloc_cache(KMALLOC_NORMAL as int, idx));
        assert(s2.kmalloc_caches@ =~= s1.kmalloc_caches@);
    } else if s0.kmalloc_caches@[t * KMALLOC_SLOTS + aidx] == 0 {
        assert(s1.kmalloc_caches@[t * KMALLOC_SLOTS + aidx] == s0.next_addr());
    }
}

/// Sets up the kmalloc cache of class `idx` and type `t`.  A class whose
/// size grows with the minimum alignment is served by the cache of the
/// class that holds the grown size; an existing cache is kept.  With
/// kernel-memory accounting off, the cgroup type shares the normal cache.
#[verifier::spinoff_prover]
#[verifier::rlimit(50)]
pub fn new_kmalloc_cache(sc: &mut SlabCommon, idx: i32, t: u32, rep: KmallocReplies)
    requires
        old(sc).wf(),
        old(sc).caches@.len() + 1 < MAX_CACHES,
        0 <= idx < KMALLOC_SLOTS,
        t < 4,
        ({
            let m = kmalloc_minalign_spec(rep.dma_cache_alignment, rep.dma_bounce_unaligned, rep.arch_slab_minalign);
            m > ARCH_KMALLOC_MINALIGN ==> {
                &&& old(sc).kmalloc_info@[idx as int].size + m - 1 <= u32::MAX
                &&& kmalloc_aligned_size(*old(sc), idx as int, rep) <= 8192
            }
        }),
        !cgroup_shares_normal(*old(sc), t, rep) && old(sc).kmalloc_cache(
            t as int,
            kmalloc_aligned_idx(*old(sc), idx as int, rep),
        ) == 0 && rep.new_cache.alloc_ok ==> kmalloc_aligned_size(*old(sc), idx as int, rep) != 0,
    ensures
        final(sc).wf(),
        final(sc).slab_state == old(sc).slab_state,
        final(sc).kmalloc_size_index@ == old(sc).kmalloc_size_index@,
        final(sc).kmalloc_info@ == old(sc).kmalloc_info@,
        final(sc).kmem_buckets_cache == old(sc).kmem_buckets_cache,
        final(sc).config_memcg == old(sc).config_memcg,
        final(sc).config_zone_dma == old(sc).config_zone_dma,
        new_kmalloc_effect(*old(sc), *final(sc), idx as int, t, rep),
{
    let mut flags: u32 = 0;
    let minalign: u32 = __kmalloc_minalign(rep.dma_cache_alignment, rep.dma_bounce_unaligned, rep.arch_slab_minalign);
    let mut aligned_size: u32 = sc.kmalloc_info[idx as usize].size;
    let mut aligned_idx: i32 = idx;
    if KMALLOC_RECLAIM != KMALLOC_NORMAL && t == KMALLOC_RECLAIM {
        flags = flags | SLAB_RECLAIM_ACCOUNT;
    } else if sc.config_memcg && t == KMALLOC_CGROUP {
        if rep.memcg_kmem_disabled {
            let normal = sc.kmalloc_caches[KMALLOC_NORMAL as usize * KMALLOC_SLOTS + idx as usize];
            sc.kmalloc_caches.set(t as usize * KMALLOC_SLOTS + aligned_idx as usize, normal);
            proof {
                crate::list::lemma_list_wf_frame(old(sc).links@, sc.links@, crate::registry::SLAB_CACHES, sc.cache_list@);
            }
            return;
        }
        flags = flags | SLAB_ACCOUNT;
    } else if sc.config_zone_dma && t == KMALLOC_DMA {
        flags = flags | SLAB_CACHE_DMA;
    }
    if CONFIG_RANDOM_KMALLOC_CACHES {
        if t >= KMALLOC_RANDOM_START && t <= KMALLOC_RANDOM_END {
            flags = flags | SLAB_NO_MERGE;
        }
    }
    if sc.config_memcg && t == KMALLOC_NORMAL {
        flags = flags | SLAB_NO_MERGE;
    }
    proof {
        lemma_zero_or(SLAB_RECLAIM_ACCOUNT);
        lemma_zero_or(SLAB_ACCOUNT);
        lemma_zero_or(SLAB_CACHE_DMA);
        lemma_zero_or(SLAB_NO_MERGE);
        assert(flags == kmalloc_type_flags(*old(sc), t));
        lemma_type_flags_no_hwcache(*old(sc), t);
    }
    if minalign > ARCH_KMALLOC_MINALIGN {
        aligned_size = align_macro(aligned_size, minalign);
        let k = __kmalloc_index(aligned_size as usize, false);
        proof {
            if aligned_size > 0 {
                crate::kmalloc::lemma_small_fit_index(k as int, aligned_size as int);
            }
        }
        aligned_idx = k as i32;
    }
    let slot = t as usize * KMALLOC_SLOTS + aligned_idx as usize;
    let ghost filled = sc.kmalloc_caches@[slot as int] == 0;
    let ghost mid = sc.kmalloc_caches@;
    if sc.kmalloc_caches[slot] == 0 {
        let name = sc.kmalloc_info[aligned_idx as usize].name[t as usize];
        proof {
            assert(SLAB_KMALLOC & crate::flags::SLAB_HWCACHE_ALIGN == 0) by (bit_vector);
            lemma_or_keeps_bit_clear(flags, SLAB_KMALLOC, crate::flags::SLAB_HWCACHE_ALIGN);
        }
        let c = create_kmalloc_cache(sc, name, aligned_size, flags, rep.new_cache);
        sc.kmalloc_caches.set(slot, c);
    }
    if idx != aligned_idx {
        let v = sc.kmalloc_caches[slot];
        sc.kmalloc_caches.set(slot, v);
    }
    proof {
        if filled {
            assert(sc.kmalloc_caches@ =~= mid.update(
                slot as int,
                if rep.new_cache.alloc_ok { old(sc).next_addr() } else { 0 },
            ));
        } else {
            assert(sc.kmalloc_caches@ =~= old(sc).kmalloc_caches@);
        }
    }
}

proof fn lemma_zero_or(x: u32)
    ensures
        0u32 | x == x,
{
    assert(0u32 | x == x) by (bit_vector);
}

proof fn lemma_or_keeps_bit_clear(x: u32, y: u32, m: u32)
    requires
        x & m == 0,
        y & m == 0,
    ensures
        (x | y) & m == 0,
{
    assert((x | y) & m == 0) by (bit_vector)
        requires
            x & m == 0,
            y & m == 0,
    ;
}

/// The kmalloc caches are never cache-line aligned by their type.
proof fn lemma_type_flags_no_hwcache(sc: SlabCommon, t: u32)
    ensures
        kmalloc_type_flags(sc, t) & crate::flags::SLAB_HWCACHE_ALIGN == 0,
{
    let h = crate::flags::SLAB_HWCACHE_ALIGN;
    assert(SLAB_RECLAIM_ACCOUNT & crate::flags::SLAB_HWCACHE_ALIGN == 0) by (bit_vector);
    assert(SLAB_ACCOUNT & crate::flags::SLAB_HWCACHE_ALIGN == 0) by (bit_vector);
    assert(SLAB_CACHE_DMA & crate::flags::SLAB_HWCACHE_ALIGN == 0) by (bit_vector);
    assert(SLAB_NO_MERGE & crate::flags::SLAB_HWCACHE_ALIGN == 0) by (bit_vector);
    assert(0u32 & crate::flags::SLAB_HWCACHE_ALIGN == 0) by (bit_vector);
    let f1 = if KMALLOC_RECLAIM != KMALLOC_NORMAL && t == KMALLOC_RECLAIM {
        SLAB_RECLAIM_ACCOUNT
    } else if sc.config_memcg && t == KMALLOC_CGROUP {
        SLAB_ACCOUNT
    } else if sc.config_zone_dma && t == KMALLOC_DMA {
        SLAB_CACHE_DMA
    } else {
        0
    };
    lemma_or_keeps_bit_clear(f1, SLAB_NO_MERGE, h);
    let f2 = if CONFIG_RANDOM_KMALLOC_CACHES && KMALLOC_RANDOM_START <= t <= KMALLOC_RANDOM_END {
        f1 | SLAB_NO_MERGE
    } else {
        f1
    };
    lemma_or_keeps_bit_clear(f2, SLAB_NO_MERGE, h);
}

/// A kmalloc boot cache is aligned to at least the largest power of two
/// that divides its size.
pub proof fn law_kmalloc_boot_cache_alignment(
    c: kmem_cache,
    name: usize,
    size: u32,
    flags: u32,
    useroffset: u32,
    usersize: u32,
    create_flags: u32,
)
    requires
        flags & SLAB_KMALLOC != 0,
        boot_args_ok(flags, size),
    ensures
        ({
            let p = 1u32 << ((ffs_spec(size) - 1) as u32);
            &&& size % p == 0
            &&& boot_record(c, name, size, flags, useroffset, usersize, create_flags).align >= p
        }),
{
    let t = vstd::std_specs::bits::u32_trailing_zeros(size);
    vstd::std_specs::bits::axiom_u32_trailing_zeros(size);
    assert(t < 32);
    assert((ffs_spec(size) - 1) as u32 == t);
    let p = 1u32 << t;
    assert(size & (((1u32 << t) - 1) as u32) == 0) by (bit_vector)
        requires
            t < 32,
            size << ((32 - t) as u32) == 0u32,
    ;
    vstd::bits::lemma_u32_pow2_no_overflow(t as nat);
    vstd::bits::lemma_u32_shl_is_mul(1, t);
    assert(p == vstd::arithmetic::power2::pow2(t as nat));
    vstd::bits::lemma_u32_low_bits_mask_is_mod(size, t as nat);
    assert(vstd::bits::low_bits_mask(t as nat) as u32 == ((1u32 << t) - 1) as u32);
    assert(size % p == 0);
    assert(t < 32 ==> (1u32 << t) <= 0x8000_0000u32) by (bit_vector);
    let a = boot_align(flags, size);
    assert(a >= p);
    crate::cache::law_calculate_alignment_idempotent(flags, a, size);
}

/// A boot cache that asks for `SLAB_HWCACHE_ALIGN` gets objects aligned at
/// least to the cache-line alignment of their size, whatever else its
/// flags ask for, and never less than its own boot alignment.
pub proof fn law_boot_cache_honours_hwcache_align(
    c: kmem_cache,
    name: usize,
    size: u32,
    flags: u32,
    useroffset: u32,
    usersize: u32,
    create_flags: u32,
)
    requires
        boot_args_ok(flags, size),
        flags & crate::flags::SLAB_HWCACHE_ALIGN != 0,
    ensures
        boot_record(c, name, size, flags, useroffset, usersize, create_flags).align
            >= crate::cache::hwcache_align(size),
        boot_record(c, name, size, flags, useroffset, usersize, create_flags).align >= boot_align(
            flags,
            size,
        ),
        boot_record(c, name, size, flags, useroffset, usersize, create_flags).align % 8 == 0,
{
    let a = boot_align(flags, size);
    if flags & SLAB_KMALLOC != 0 {
        vstd::std_specs::bits::axiom_u32_trailing_zeros(size);
        let k = (ffs_spec(size) - 1) as u32;
        assert(k < 32);
        assert(k < 32 ==> (1u32 << k) <= 0x8000_0000u32) by (bit_vector);
    }
    assert(a <= 0x8000_0000);
    let hw = crate::cache::hwcache_align(size);
    let a1 = crate::cache::max_u32(a, hw);
    let m = crate::cache::max_u32(a1, ARCH_KMALLOC_MINALIGN);
    crate::cache::lemma_pow2_8();
    crate::align::lemma_round_up_pow2(m, 8);
}

} // verus!
