use vstd::prelude::*;

verus! {

// Build configuration of the slab layer.
pub const CONFIG_SLAB_BUCKETS: bool = true;
pub const CONFIG_SLUB_DEBUG: bool = true;
pub const CONFIG_HARDENED_USERCOPY: bool = true;
pub const CONFIG_RANDOM_KMALLOC_CACHES: bool = true;

/// Cache merging is switched off.
pub const SLAB_NOMERGE: bool = true;

// Error numbers.
pub const ENOMEM: u32 = 12;
pub const EBUSY: u32 = 16;
pub const EINVAL: u32 = 22;

// Cache flags, one bit each.
pub const SLAB_CONSISTENCY_CHECKS: u32 = 0x0000_0001;
pub const SLAB_RED_ZONE: u32 = 0x0000_0002;
pub const SLAB_POISON: u32 = 0x0000_0004;
pub const SLAB_KMALLOC: u32 = 0x0000_0008;
pub const SLAB_HWCACHE_ALIGN: u32 = 0x0000_0010;
pub const SLAB_CACHE_DMA: u32 = 0x0000_0020;
pub const SLAB_CACHE_DMA32: u32 = 0x0000_0040;
pub const SLAB_STORE_USER: u32 = 0x0000_0080;
pub const SLAB_PANIC: u32 = 0x0000_0100;
pub const SLAB_TYPESAFE_BY_RCU: u32 = 0x0000_0200;
pub const SLAB_TRACE: u32 = 0x0000_0400;
pub const SLAB_NOLEAKTRACE: u32 = 0x0000_0800;
pub const SLAB_NO_MERGE: u32 = 0x0000_1000;
pub const SLAB_ACCOUNT: u32 = 0x0000_2000;
pub const SLAB_NO_USER_FLAGS: u32 = 0x0000_4000;
pub const SLAB_RECLAIM_ACCOUNT: u32 = 0x0001_0000;

/// Flags that keep a cache from ever being merged.
pub const SLAB_NEVER_MERGE: u32 = SLAB_RED_ZONE | SLAB_POISON | SLAB_STORE_USER | SLAB_TRACE
    | SLAB_TYPESAFE_BY_RCU | SLAB_NOLEAKTRACE | SLAB_NO_MERGE;

/// Flags that two caches must agree on to be merged.
pub const SLAB_MERGE_SAME: u32 = SLAB_RECLAIM_ACCOUNT | SLAB_CACHE_DMA | SLAB_CACHE_DMA32
    | SLAB_ACCOUNT;

pub const SLAB_CORE_FLAGS: u32 = SLAB_HWCACHE_ALIGN | SLAB_CACHE_DMA | SLAB_CACHE_DMA32
    | SLAB_PANIC | SLAB_TYPESAFE_BY_RCU;

/// Flags a caller may pass when creating a cache.
pub const SLAB_FLAGS_PERMITTED: u32 = SLAB_CORE_FLAGS | SLAB_RED_ZONE | SLAB_POISON
    | SLAB_STORE_USER | SLAB_TRACE | SLAB_CONSISTENCY_CHECKS | SLAB_NOLEAKTRACE
    | SLAB_RECLAIM_ACCOUNT | SLAB_ACCOUNT | SLAB_KMALLOC | SLAB_NO_MERGE | SLAB_NO_USER_FLAGS;

pub const SLAB_DEBUG_FLAGS: u32 = SLAB_RED_ZONE | SLAB_POISON | SLAB_STORE_USER | SLAB_TRACE
    | SLAB_CONSISTENCY_CHECKS;

pub const SLAB_CACHE_FLAGS: u32 = SLAB_NOLEAKTRACE | SLAB_RECLAIM_ACCOUNT | SLAB_ACCOUNT
    | SLAB_NO_USER_FLAGS | SLAB_KMALLOC | SLAB_NO_MERGE;

/// Flags kept on a newly created cache.
pub const CACHE_CREATE_MASK: u32 = SLAB_CORE_FLAGS | SLAB_DEBUG_FLAGS | SLAB_CACHE_FLAGS;

// Page and kmalloc geometry.
pub const PAGE_SHIFT: u32 = 12;
pub const MAX_PAGE_ORDER: u32 = 10;
pub const PAGE_SIZE: u32 = 4096;
pub const KMALLOC_SHIFT_HIGH: u32 = 13;
pub const KMALLOC_MAX_CACHE_SIZE: u32 = 8192;
pub const KMALLOC_SHIFT_MAX: u32 = 22;
pub const KMALLOC_MAX_SIZE: u32 = 0x40_0000;
pub const KMALLOC_SHIFT_LOW: u32 = 3;
pub const KMALLOC_MIN_SIZE: u32 = 8;

/// Minimum alignment of kmalloc objects, and the size of a pointer.
pub const ARCH_KMALLOC_MINALIGN: u32 = 8;

// kmalloc cache types.
pub const KMALLOC_NORMAL: u32 = 0;
pub const KMALLOC_RANDOM_START: u32 = 0;
pub const KMALLOC_RANDOM_END: u32 = 0;
pub const KMALLOC_RECLAIM: u32 = 1;
pub const KMALLOC_DMA: u32 = 2;
pub const KMALLOC_CGROUP: u32 = 3;
pub const NR_KMALLOC_TYPES: u32 = 4;

} // verus!
