use lib::boot::{
    __kmalloc_minalign, create_boot_cache, create_kmalloc_cache, new_kmalloc_cache,
    setup_kmalloc_cache_index_table, KmallocReplies,
};
use lib::buckets::{kmem_buckets_create, BucketReplies};
use lib::create::{CreateReplies, NewCacheReplies};
use lib::flags::{KMALLOC_CGROUP, KMALLOC_DMA, KMALLOC_NORMAL, KMALLOC_RECLAIM, SLAB_ACCOUNT, SLAB_CACHE_DMA, SLAB_KMALLOC, SLAB_NO_MERGE, SLAB_RECLAIM_ACCOUNT};
use lib::kmalloc::{__kmalloc_index, kmalloc_size_roundup};
use lib::registry::{KernelCall, SlabCommon, FIRST_CACHE, KMALLOC_SLOTS, SLAB_CACHES};
use lib::types::{kmalloc_info_struct, kmem_cache};

fn info() -> Vec<kmalloc_info_struct> {
    let mut v = Vec::new();
    for i in 0..22u32 {
        let size = match i {
            0 => 0,
            1 => 96,
            2 => 192,
            _ => 1u32 << i,
        };
        let base = 0x1000 + 0x10 * i as usize;
        v.push(kmalloc_info_struct { name: [base, base + 1, base + 2, base + 3], size });
    }
    v
}

fn ok_new() -> NewCacheReplies {
    NewCacheReplies { alloc_ok: true, create_err: 0, create_flags: 0 }
}

fn plain(memcg_off: bool) -> KmallocReplies {
    KmallocReplies {
        dma_cache_alignment: 8,
        dma_bounce_unaligned: 0,
        arch_slab_minalign: 8,
        memcg_kmem_disabled: memcg_off,
        new_cache: ok_new(),
    }
}

/// Sets up the normal kmalloc caches of classes 1 to 13.
fn boot(sc: &mut SlabCommon) {
    for idx in 1..14 {
        new_kmalloc_cache(sc, idx, KMALLOC_NORMAL, plain(false));
    }
}

#[test]
fn minalign_choices() {
    assert_eq!(__kmalloc_minalign(64, 0, 8), 64);
    assert_eq!(__kmalloc_minalign(64, 1, 8), 8);
    assert_eq!(__kmalloc_minalign(8, 0, 128), 128);
    assert_eq!(__kmalloc_minalign(1, 1, 4), 8);
}

#[test]
fn index_table_setup_keeps_table() {
    let mut sc = SlabCommon::new(info(), false, false);
    let before = sc.kmalloc_size_index.clone();
    setup_kmalloc_cache_index_table(&mut sc);
    assert_eq!(sc.kmalloc_size_index, before);
    assert_eq!(before, vec![3u8, 4, 5, 5, 6, 6, 6, 6, 1, 1, 1, 1, 7, 7, 7, 7, 2, 2, 2, 2, 2, 2, 2, 2]);
}

#[test]
fn boot_cache_alignment_follows_size() {
    let mut sc = SlabCommon::new(info(), false, false);
    let s = sc.alloc_cache();
    assert!(create_boot_cache(&mut sc, s, 9, 96, SLAB_KMALLOC, 0, 96, 0, 7));
    let c = sc.get_cache(s);
    assert_eq!(c.align, 32);
    assert_eq!(c.size, 96);
    assert_eq!(c.object_size, 96);
    assert_eq!(c.refcount, -1);
    assert_eq!(c.flags, 7);
    assert_eq!((c.useroffset, c.usersize), (0, 96));
    let t = sc.alloc_cache();
    assert!(create_boot_cache(&mut sc, t, 9, 100, 0, 0, 0, 0, 0));
    assert_eq!(sc.get_cache(t).align, 8);
    let u = sc.alloc_cache();
    assert!(!create_boot_cache(&mut sc, u, 9, 64, SLAB_KMALLOC, 0, 0, 5, 0));
    assert_eq!(
        sc.calls,
        vec![
            KernelCall::CacheCreate { s, flags: SLAB_KMALLOC },
            KernelCall::CacheCreate { s: t, flags: 0 },
            KernelCall::CacheCreate { s: u, flags: SLAB_KMALLOC },
            KernelCall::Panic
        ]
    );
    assert_eq!(sc.get_cache(u).refcount, 0);
}

#[test]
fn kmalloc_cache_creation() {
    let mut sc = SlabCommon::new(info(), false, false);
    let a = create_kmalloc_cache(&mut sc, 9, 64, 0, ok_new());
    assert_eq!(a, FIRST_CACHE);
    let c = sc.get_cache(a);
    assert_eq!(c.refcount, 1);
    assert_eq!(c.align, 64);
    assert_eq!(sc.links[SLAB_CACHES].next, a);
    let none = create_kmalloc_cache(&mut sc, 9, 64, 0, NewCacheReplies { alloc_ok: false, create_err: 0, create_flags: 0 });
    assert_eq!(none, 0);
    assert_eq!(sc.calls, vec![KernelCall::CacheCreate { s: a, flags: SLAB_KMALLOC }, KernelCall::Panic]);
}

#[test]
fn new_kmalloc_cache_fills_slots() {
    let mut sc = SlabCommon::new(info(), true, true);
    boot(&mut sc);
    for idx in 1..14 {
        let a = sc.kmalloc_caches[idx];
        assert_ne!(a, 0);
        let c = sc.get_cache(a);
        assert_eq!(c.object_size, sc.kmalloc_info[idx].size);
        assert_eq!(c.name, sc.kmalloc_info[idx].name[0]);
        assert_eq!(c.flags, 0);
    }
    assert_eq!(sc.kmalloc_caches[0], 0);
    let existing = sc.kmalloc_caches[5];
    new_kmalloc_cache(&mut sc, 5, KMALLOC_NORMAL, plain(false));
    assert_eq!(sc.kmalloc_caches[5], existing);
}

#[test]
fn kmalloc_type_flags_by_type() {
    let mut sc = SlabCommon::new(info(), true, true);
    let mut rep = plain(false);
    rep.new_cache.create_flags = 0;
    new_kmalloc_cache(&mut sc, 3, KMALLOC_RECLAIM, rep);
    new_kmalloc_cache(&mut sc, 3, KMALLOC_DMA, rep);
    new_kmalloc_cache(&mut sc, 3, KMALLOC_CGROUP, rep);
    new_kmalloc_cache(&mut sc, 3, KMALLOC_NORMAL, rep);
    let reclaim = sc.kmalloc_caches[KMALLOC_RECLAIM as usize * KMALLOC_SLOTS + 3];
    let dma = sc.kmalloc_caches[KMALLOC_DMA as usize * KMALLOC_SLOTS + 3];
    let cg = sc.kmalloc_caches[KMALLOC_CGROUP as usize * KMALLOC_SLOTS + 3];
    let normal = sc.kmalloc_caches[3];
    assert_eq!(sc.get_cache(reclaim).name, sc.kmalloc_info[3].name[1]);
    assert_eq!(sc.get_cache(dma).name, sc.kmalloc_info[3].name[2]);
    assert_eq!(sc.get_cache(cg).name, sc.kmalloc_info[3].name[3]);
    assert_ne!(normal, 0);
    let _ = (SLAB_RECLAIM_ACCOUNT, SLAB_CACHE_DMA, SLAB_ACCOUNT, SLAB_NO_MERGE);
}

#[test]
fn cgroup_shares_normal_when_accounting_off() {
    let mut sc = SlabCommon::new(info(), true, false);
    new_kmalloc_cache(&mut sc, 4, KMALLOC_NORMAL, plain(false));
    let normal = sc.kmalloc_caches[4];
    let n = sc.caches.len();
    new_kmalloc_cache(&mut sc, 4, KMALLOC_CGROUP, plain(true));
    assert_eq!(sc.kmalloc_caches[KMALLOC_CGROUP as usize * KMALLOC_SLOTS + 4], normal);
    assert_eq!(sc.caches.len(), n);
}

#[test]
fn large_minalign_serves_from_bigger_class() {
    let mut sc = SlabCommon::new(info(), false, false);
    let mut rep = plain(false);
    rep.dma_cache_alignment = 128;
    new_kmalloc_cache(&mut sc, 1, KMALLOC_NORMAL, rep);
    assert_eq!(sc.kmalloc_caches[1], 0);
    let a = sc.kmalloc_caches[7];
    assert_ne!(a, 0);
    assert_eq!(sc.get_cache(a).object_size, 128);
    assert_eq!(sc.get_cache(a).name, sc.kmalloc_info[7].name[0]);
}

/// The kernel's answer to `kmalloc_slab` for a request: the normal cache of
/// the request's kmalloc index, for requests the caches serve.
fn slab_for(sc: &SlabCommon, size: usize) -> usize {
    if size == 0 || size > 8192 {
        0
    } else {
        sc.kmalloc_caches[__kmalloc_index(size, false) as usize]
    }
}

/// The kernel's answer to `get_order`: the smallest page order whose block
/// holds the request.
fn order_for(size: usize) -> u32 {
    let mut o = 0u32;
    while o < 19 && (4096usize << o) < size {
        o += 1;
    }
    o
}

fn roundup(sc: &SlabCommon, size: usize) -> usize {
    kmalloc_size_roundup(sc, size, slab_for(sc, size), order_for(size))
}

#[test]
fn roundup_sizes() {
    let mut sc = SlabCommon::new(info(), false, false);
    boot(&mut sc);
    assert_eq!(roundup(&sc, 0), 0);
    assert_eq!(roundup(&sc, 1), 8);
    assert_eq!(roundup(&sc, 65), 96);
    assert_eq!(roundup(&sc, 100), 128);
    assert_eq!(roundup(&sc, 150), 192);
    assert_eq!(roundup(&sc, 8192), 8192);
    assert_eq!(roundup(&sc, 8193), 16384);
    assert_eq!(roundup(&sc, 10000), 16384);
    assert_eq!(roundup(&sc, 4 * 1024 * 1024), 4 * 1024 * 1024);
    assert_eq!(roundup(&sc, 5_000_000), 5_000_000);
}

#[test]
fn roundup_without_kmalloc_caches_uses_pages() {
    let sc = SlabCommon::new(info(), false, false);
    assert_eq!(roundup(&sc, 100), 4096);
    assert_eq!(roundup(&sc, 4097), 8192);
}

#[test]
fn roundup_page_blocks_are_tight() {
    let sc = SlabCommon::new(info(), false, false);
    for size in [8193usize, 12000, 16384, 16385, 1_000_000, 4 * 1024 * 1024] {
        let r = roundup(&sc, size);
        assert!(r >= size && r < 2 * size);
        assert_eq!(r % 4096, 0);
        assert!((r / 4096).is_power_of_two());
    }
}

#[test]
fn roundup_covers_request() {
    let mut sc = SlabCommon::new(info(), false, false);
    boot(&mut sc);
    for size in [1usize, 7, 8, 9, 64, 65, 96, 97, 100, 192, 193, 4096, 8192, 8193, 100_000] {
        let r = roundup(&sc, size);
        assert!(r >= size, "size {} rounded to {}", size, r);
    }
    assert_eq!(roundup(&sc, 65), 96);
    assert_eq!(roundup(&sc, 100), 128);
}

#[test]
fn roundup_keeps_very_large_sizes() {
    let mut sc = SlabCommon::new(info(), false, false);
    boot(&mut sc);
    assert_eq!(roundup(&sc, 4 * 1024 * 1024 + 1), 4 * 1024 * 1024 + 1);
    if usize::BITS == 64 {
        let big = (1usize << 32) + 8;
        assert_eq!(kmalloc_size_roundup(&sc, big, sc.kmalloc_caches[3], 0), big);
        assert_eq!(kmalloc_size_roundup(&sc, 1usize << 32, 0, 0), 1usize << 32);
    }
}

fn bucket_reps(n: usize) -> Vec<BucketReplies> {
    (0..14)
        .map(|i| BucketReplies {
            strchr: 0x5000 + i,
            kasprintf: 0x6000 + i,
            create: CreateReplies {
                alias: 0,
                name_copy: 0x7000 + i + n,
                new_cache: NewCacheReplies { alloc_ok: true, create_err: 0, create_flags: 0 },
            },
        })
        .collect()
}

#[test]
fn buckets_follow_kmalloc_sizes() {
    let mut sc = SlabCommon::new(info(), false, false);
    boot(&mut sc);
    let (b, v) = kmem_buckets_create(&mut sc, 42, 0, 16, 64, 0, 0x9000, &bucket_reps(0), &vec![0; 14]);
    assert_eq!(b, 0x9000);
    assert_eq!(v.len(), 14);
    assert_eq!(v[0], 0);
    for idx in 1..14 {
        assert_ne!(v[idx], 0);
        let c = sc.get_cache(v[idx]);
        let size = sc.kmalloc_info[idx].size;
        assert_eq!(c.object_size, size);
        assert_eq!(c.name, 0x7000 + idx);
        if 16 >= size {
            assert_eq!((c.useroffset, c.usersize), (0, 0));
        } else {
            assert_eq!((c.useroffset, c.usersize), (16, (size - 16).min(64)));
        }
    }
    assert!(sc.calls.contains(&KernelCall::Kfree { addr: 0x6001 }));
}

#[test]
fn buckets_call_log_on_success() {
    let mut sc = SlabCommon::new(info(), false, false);
    boot(&mut sc);
    let before = sc.calls.len();
    let cache = sc.kmem_buckets_cache;
    let (b, _v) = kmem_buckets_create(&mut sc, 42, 0, 0, 0, 0, 0x9000, &bucket_reps(0), &vec![0; 14]);
    assert_eq!(b, 0x9000);
    let log = &sc.calls[before..];
    assert_eq!(log[0], KernelCall::BucketsAlloc { cache });
    let strchr = log.iter().filter(|k| matches!(k, KernelCall::Strchr { .. })).count();
    let kasprintf: Vec<&KernelCall> = log
        .iter()
        .filter(|k| matches!(k, KernelCall::Kasprintf { .. }))
        .collect();
    assert_eq!(strchr, 13);
    assert_eq!(kasprintf.len(), 13);
    assert_eq!(kasprintf[0], &KernelCall::Kasprintf { prefix: 42, dash: 0x5001 });
    assert_eq!(log.last(), Some(&KernelCall::Kfree { addr: 0x600d }));
}

#[test]
fn buckets_fail_without_array() {
    let mut sc = SlabCommon::new(info(), false, false);
    boot(&mut sc);
    let n = sc.caches.len();
    let (b, v) = kmem_buckets_create(&mut sc, 42, 0, 0, 0, 0, 0, &bucket_reps(0), &vec![0; 14]);
    assert_eq!(b, 0);
    assert!(v.is_empty());
    assert_eq!(sc.caches.len(), n);
}

#[test]
fn buckets_failure_destroys_what_was_made() {
    let mut sc = SlabCommon::new(info(), false, false);
    boot(&mut sc);
    let n = sc.caches.len();
    let mut reps = bucket_reps(0);
    reps[5].kasprintf = 0;
    let (b, v) = kmem_buckets_create(&mut sc, 42, 0, 0, 0, 0, 0x9000, &reps, &vec![0; 14]);
    assert_eq!(b, 0);
    assert!(v.is_empty());
    assert_eq!(sc.caches.len(), n + 4);
    for k in n..n + 4 {
        assert!(sc.caches[k].is_none());
    }
    assert_eq!(sc.calls.last(), Some(&KernelCall::Kfree { addr: 0x9000 }));
    let mut a = sc.links[SLAB_CACHES].next;
    let mut count = 0;
    while a != SLAB_CACHES {
        count += 1;
        a = sc.links[a].next;
    }
    assert_eq!(count, 13);
}

#[test]
fn buckets_entries_are_the_caches_made_in_order() {
    let mut sc = SlabCommon::new(info(), false, false);
    boot(&mut sc);
    let first = FIRST_CACHE + sc.caches.len();
    let old: Vec<_> = sc.caches.clone().into_iter().map(|c| c.map(|k| k.object_size)).collect();
    let (b, v) = kmem_buckets_create(&mut sc, 42, 0, 0, 0, 0, 0x9000, &bucket_reps(0), &vec![0; 14]);
    assert_eq!(b, 0x9000);
    assert_eq!(v[0], 0);
    for idx in 1..14 {
        assert_eq!(v[idx], first + idx - 1);
    }
    for (k, c) in old.iter().enumerate() {
        assert_eq!(sc.caches[k].map(|x| x.object_size), *c);
    }
}

#[test]
fn buckets_creation_failure_tears_down() {
    let mut sc = SlabCommon::new(info(), false, false);
    boot(&mut sc);
    let n = sc.caches.len();
    let mut reps = bucket_reps(0);
    reps[3].create.new_cache.create_err = 0xFFFF_FFEA;
    let (b, v) = kmem_buckets_create(&mut sc, 42, 0, 0, 0, 0, 0x9000, &reps, &vec![0; 14]);
    assert_eq!(b, 0);
    assert!(v.is_empty());
    for k in n..sc.caches.len() {
        assert!(sc.caches[k].is_none());
    }
    for i in 1..4usize {
        assert!(sc.calls.contains(&KernelCall::Kfree { addr: 0x6000 + i }));
    }
    assert_eq!(sc.calls.last(), Some(&KernelCall::Kfree { addr: 0x9000 }));
    let mut a = sc.links[SLAB_CACHES].next;
    let mut count = 0;
    while a != SLAB_CACHES {
        count += 1;
        a = sc.links[a].next;
    }
    assert_eq!(count, 13);
}

#[test]
fn zeroed_cache_record() {
    let c = kmem_cache::zeroed();
    assert_eq!(c.size, 0);
    assert_eq!(c.refcount, 0);
    assert_eq!(c.node, [0usize; 16]);
}
