//! Object alignment, cache merging, and the checks made on a new cache.
use vstd::prelude::*;
use crate::align::{align_macro, round_up, is_pow2};
use crate::flags::{
    SLAB_HWCACHE_ALIGN, ARCH_KMALLOC_MINALIGN, SLAB_NOMERGE, SLAB_NEVER_MERGE, SLAB_MERGE_SAME,
    CONFIG_HARDENED_USERCOPY,
};
use crate::list::{list_wf, pred};
use crate::registry::{SlabCommon, SLAB_CACHES};
use crate::types::kmem_cache;

verus! {

/// Alignment a hardware-cache-aligned cache asks for: the smallest power
/// of two that holds the object, up to a 128-byte cache line.
pub open spec fn hwcache_align(size: u32) -> u32 {
    if size > 64 {
        128
    } else if size > 32 {
        64
    } else if size > 16 {
        32
    } else if size > 8 {
        16
    } else if size > 4 {
        8
    } else if size > 2 {
        4
    } else if size > 1 {
        2
    } else {
        1
    }
}

/// The larger of two numbers.
pub open spec fn max_u32(a: u32, b: u32) -> u32 {
    if a >= b {
        a
    } else {
        b
    }
}

/// Alignment of the objects of a cache: the requested alignment, raised to
/// the cache line when `SLAB_HWCACHE_ALIGN` asks for it, at least the
/// minimum kmalloc alignment, and rounded up to the pointer size.
pub open spec fn calculate_alignment_spec(flags: u32, align: u32, size: u32) -> u32 {
    let a1 = if flags & SLAB_HWCACHE_ALIGN != 0 {
        max_u32(align, hwcache_align(size))
    } else {
        align
    };
    round_up(max_u32(a1, ARCH_KMALLOC_MINALIGN) as int, 8) as u32
}

/// The arguments `calculate_alignment` works on: the alignment leaves room
/// to round up, and a cache-line-aligned cache has objects.
pub open spec fn alignment_args_ok(flags: u32, align: u32, size: u32) -> bool {
    &&& align <= u32::MAX - 7
    &&& flags & SLAB_HWCACHE_ALIGN != 0 ==> size > 0
}

/// 8 is a power of two.
pub proof fn lemma_pow2_8()
    ensures
        is_pow2(8),
{
    assert(8u32 == 1u32 << 3u32) by (bit_vector);
}

/// Figures out the alignment of the objects of a cache from its flags, the
/// requested alignment and the object size.
pub fn calculate_alignment(flags: u32, align: u32, size: u32) -> (r: u32)
    requires
        alignment_args_ok(flags, align, size),
    ensures
        r == calculate_alignment_spec(flags, align, size),
        r % 8 == 0,
        r >= align,
        r >= 8,
{
    let mut align = align;
    if flags & SLAB_HWCACHE_ALIGN != 0 {
        let mut ralign: u32 = 128;
        while size <= ralign / 2
            invariant
                size > 0,
                ralign == 1 || ralign == 2 || ralign == 4 || ralign == 8 || ralign == 16 || ralign
                    == 32 || ralign == 64 || ralign == 128,
                ralign == 128 || size <= ralign,
                hwcache_align(size) <= ralign,
            decreases ralign,
        {
            ralign = ralign / 2;
        }
        if ralign > align {
            align = ralign;
        }
    }
    if ARCH_KMALLOC_MINALIGN > align {
        align = ARCH_KMALLOC_MINALIGN;
    }
    proof {
        lemma_pow2_8();
    }
    align_macro(align, 8)
}

/// The cache may not be merged with another.
pub open spec fn unmergeable_spec(c: kmem_cache) -> bool {
    ||| SLAB_NOMERGE
    ||| c.flags & SLAB_NEVER_MERGE != 0
    ||| c.ctor != 0
    ||| CONFIG_HARDENED_USERCOPY && c.usersize != 0
    ||| c.refcount < 0
}

/// Returns 1 when the cache may not be merged with another, else 0.
pub fn slab_unmergeable(s: &kmem_cache) -> (r: u32)
    ensures
        r == (if unmergeable_spec(*s) { 1u32 } else { 0u32 }),
{
    if SLAB_NOMERGE || (s.flags & SLAB_NEVER_MERGE != 0) {
        return 1;
    }
    if s.ctor != 0 {
        return 1;
    }
    if CONFIG_HARDENED_USERCOPY {
        if s.usersize != 0 {
            return 1;
        }
    }
    if s.refcount < 0 {
        return 1;
    }
    return 0;
}

/// The existing cache `c` can serve objects of `size` bytes with alignment
/// `align` and flags `flags`: it may be merged, its objects are large
/// enough but less than a word larger, it agrees on the flags that must
/// agree, and its size keeps the alignment.
pub open spec fn merge_fits(c: kmem_cache, size: u32, align: u32, flags: u32) -> bool {
    &&& !unmergeable_spec(c)
    &&& size <= c.size
    &&& flags & SLAB_MERGE_SAME == c.flags & SLAB_MERGE_SAME
    &&& c.size & !((align - 1) as u32) == c.size
    &&& c.size - size < 8
}

/// `r` is the cache nearest the tail of the cache list that `merge_fits`,
/// or 0 when none does.
pub open spec fn merge_choice(sc: SlabCommon, size: u32, align: u32, flags: u32, r: usize) -> bool {
    &&& r == 0 ==> forall|i: int|
        0 <= i < sc.cache_list@.len() ==> !merge_fits(
            sc.cache(#[trigger] sc.cache_list@[i]),
            size,
            align,
            flags,
        )
    &&& r != 0 ==> exists|i: int|
        0 <= i < sc.cache_list@.len() && sc.cache_list@[i] == r && merge_fits(
            sc.cache(r),
            size,
            align,
            flags,
        ) && forall|j: int|
            i < j < sc.cache_list@.len() ==> !merge_fits(
                sc.cache(#[trigger] sc.cache_list@[j]),
                size,
                align,
                flags,
            )
}

/// Walks the cache list from its tail and returns the first cache that
/// `merge_fits`, or 0 when none does.
pub fn find_mergeable_in(sc: &SlabCommon, size: u32, align: u32, flags: u32) -> (r: usize)
    requires
        sc.wf(),
        align >= 1,
    ensures
        merge_choice(*sc, size, align, flags, r),
{
    let ghost l = sc.cache_list@;
    let ghost mut k: int = l.len() as int;
    let mut s = sc.links[SLAB_CACHES].prev;
    while s != SLAB_CACHES
        invariant
            sc.wf(),
            align >= 1,
            l == sc.cache_list@,
            0 <= k <= l.len(),
            s == (if k == 0 { SLAB_CACHES } else { l[k - 1] }),
            forall|j: int| k <= j < l.len() ==> !merge_fits(sc.cache(#[trigger] l[j]), size, align, flags),
        decreases k,
    {
        proof {
            assert(k > 0);
            assert(list_wf(sc.links@, SLAB_CACHES, l));
            assert(sc.live(l[k - 1]));
        }
        let c = sc.get_cache(s);
        let prev = sc.links[s].prev;
        proof {
            assert(prev == pred(SLAB_CACHES, l, k - 1));
        }
        if slab_unmergeable(&c) != 0 {
            s = prev;
            proof { k = k - 1; }
            continue;
        }
        if size > c.size {
            s = prev;
            proof { k = k - 1; }
            continue;
        }
        if (flags & SLAB_MERGE_SAME) != (c.flags & SLAB_MERGE_SAME) {
            s = prev;
            proof { k = k - 1; }
            continue;
        }
        if c.size & !(align - 1) != c.size {
            s = prev;
            proof { k = k - 1; }
            continue;
        }
        if c.size - size >= 8 {
            s = prev;
            proof { k = k - 1; }
            continue;
        }
        return s;
    }
    0
}

/// Looks for an existing cache that can take the objects of a new cache.
/// `debug_flags` is the answer of `kmem_cache_flags(flags, name)`, the
/// flags with the boot-time debugging options applied.  With merging
/// switched off (`SLAB_NOMERGE`) no cache is ever found.
pub fn find_mergeable(
    sc: &SlabCommon,
    size: u32,
    align: u32,
    flags: u32,
    name: usize,
    ctor: usize,
    debug_flags: u32,
) -> (r: usize)
    requires
        sc.wf(),
        !SLAB_NOMERGE && ctor == 0 ==> {
            &&& size <= u32::MAX - 8
            &&& alignment_args_ok(flags, align, round_up(size as int, 8) as u32)
            &&& calculate_alignment_spec(flags, align, round_up(size as int, 8) as u32) + size
                + 8 <= u32::MAX
        },
    ensures
        SLAB_NOMERGE ==> r == 0,
        ctor != 0 ==> r == 0,
        debug_flags & SLAB_NEVER_MERGE != 0 ==> r == 0,
        !SLAB_NOMERGE && ctor == 0 && debug_flags & SLAB_NEVER_MERGE == 0 ==> {
            let size8 = round_up(size as int, 8);
            let al = calculate_alignment_spec(flags, align, size8 as u32);
            merge_choice(*sc, round_up(size8, al as int) as u32, al, debug_flags, r)
        },
        r != 0 ==> sc.cache_list@.contains(r),
{
    if SLAB_NOMERGE {
        return 0;
    }
    if ctor != 0 {
        return 0;
    }
    proof {
        lemma_pow2_8();
    }
    let size = align_macro(size, 8);
    let align = calculate_alignment(flags, align, size);
    let size = align_macro(size, align);
    let flags = debug_flags;
    if flags & SLAB_NEVER_MERGE != 0 {
        return 0;
    }
    find_mergeable_in(sc, size, align, flags)
}

/// Checks a new cache's name and size; nothing is ever refused.
pub fn kmem_cache_sanity_check(_name: usize, _size: u32) -> (r: i32)
    ensures
        r == 0,
{
    return 0;
}

/// Aligning an alignment that `calculate_alignment` produced gives it back.
pub proof fn law_calculate_alignment_idempotent(flags: u32, align: u32, size: u32)
    requires
        alignment_args_ok(flags, align, size),
    ensures
        alignment_args_ok(flags, calculate_alignment_spec(flags, align, size), size) ==> calculate_alignment_spec(
            flags,
            calculate_alignment_spec(flags, align, size),
            size,
        ) == calculate_alignment_spec(flags, align, size),
        calculate_alignment_spec(flags, align, size) % 8 == 0,
        calculate_alignment_spec(flags, align, size) >= align,
        flags & SLAB_HWCACHE_ALIGN != 0 ==> calculate_alignment_spec(flags, align, size)
            >= hwcache_align(size),
{
    let a1 = if flags & SLAB_HWCACHE_ALIGN != 0 {
        max_u32(align, hwcache_align(size))
    } else {
        align
    };
    let m = max_u32(a1, ARCH_KMALLOC_MINALIGN);
    lemma_pow2_8();
    crate::align::lemma_round_up_pow2(m, 8);
    let r = calculate_alignment_spec(flags, align, size);
    let b1 = if flags & SLAB_HWCACHE_ALIGN != 0 {
        max_u32(r, hwcache_align(size))
    } else {
        r
    };
    assert(b1 == r);
    assert(max_u32(b1, ARCH_KMALLOC_MINALIGN) == r);
    if r + 7 <= u32::MAX {
        crate::align::lemma_round_up_pow2(r, 8);
        assert(round_up(r as int, 8) == r) by (nonlinear_arith)
            requires
                r % 8 == 0,
                round_up(r as int, 8) % 8 == 0,
                r <= round_up(r as int, 8) < r + 8,
        ;
    }
}

/// A larger requested alignment never gives a smaller object alignment.
pub proof fn law_calculate_alignment_monotone(flags: u32, align1: u32, align2: u32, size: u32)
    requires
        alignment_args_ok(flags, align1, size),
        alignment_args_ok(flags, align2, size),
        align1 <= align2,
    ensures
        calculate_alignment_spec(flags, align1, size) <= calculate_alignment_spec(flags, align2, size),
{
    let b1 = if flags & SLAB_HWCACHE_ALIGN != 0 {
        max_u32(align1, hwcache_align(size))
    } else {
        align1
    };
    let b2 = if flags & SLAB_HWCACHE_ALIGN != 0 {
        max_u32(align2, hwcache_align(size))
    } else {
        align2
    };
    let m1 = max_u32(b1, ARCH_KMALLOC_MINALIGN);
    let m2 = max_u32(b2, ARCH_KMALLOC_MINALIGN);
    assert(m1 <= m2);
    lemma_pow2_8();
    crate::align::lemma_round_up_pow2(m1, 8);
    crate::align::lemma_round_up_pow2(m2, 8);
    let r1 = round_up(m1 as int, 8);
    let r2 = round_up(m2 as int, 8);
    assert(r1 <= r2) by (nonlinear_arith)
        requires
            r1 % 8 == 0,
            r2 % 8 == 0,
            m1 <= r1 < m1 + 8,
            m2 <= r2 < m2 + 8,
            m1 <= m2,
    ;
}

} // verus!
