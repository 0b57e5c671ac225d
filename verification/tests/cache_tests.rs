use lib::create::{create_cache, kmem_cache_create, kmem_cache_create_usercopy, CreateReplies, NewCacheReplies, NO_RECORD};
use lib::destroy::{
    kmem_cache_destroy, kmem_cache_release, kmem_cache_shrink, kmem_cache_size, kmem_obj_info,
    shutdown_cache, slab_caches_to_rcu_destroy_workfn, slab_is_available, slab_kmem_cache_release,
};
use lib::flags::{
    SLAB_HWCACHE_ALIGN, SLAB_KMALLOC, SLAB_PANIC, SLAB_POISON, SLAB_STORE_USER, SLAB_TYPESAFE_BY_RCU,
};
use lib::registry::{KernelCall, SlabCommon, FIRST_CACHE, RCU_DESTROY, SLAB_CACHES};
use lib::types::{kmalloc_info_struct, slab_state_t};

fn info() -> Vec<kmalloc_info_struct> {
    let mut v = Vec::new();
    for i in 0..22u32 {
        let size = match i {
            0 => 0,
            1 => 96,
            2 => 192,
            _ => 1u32 << i,
        };
        let base = 0x1000 + 0x10 * i as usize;
        v.push(kmalloc_info_struct { name: [base, base + 1, base + 2, base + 3], size });
    }
    v
}

fn ok_replies(name_copy: usize) -> CreateReplies {
    CreateReplies {
        alias: 0,
        name_copy,
        new_cache: NewCacheReplies { alloc_ok: true, create_err: 0, create_flags: 0 },
    }
}

/// The caches on the list headed by `head`, in list order.
fn walk(sc: &SlabCommon, head: usize) -> Vec<usize> {
    let mut out = Vec::new();
    let mut a = sc.links[head].next;
    while a != head {
        out.push(a);
        a = sc.links[a].next;
    }
    out
}

#[test]
fn new_state_is_empty() {
    let sc = SlabCommon::new(info(), true, true);
    assert!(sc.caches.is_empty());
    assert!(walk(&sc, SLAB_CACHES).is_empty());
    assert!(walk(&sc, RCU_DESTROY).is_empty());
    assert_eq!(sc.slab_state, slab_state_t::DOWN);
    assert_eq!(sc.kmalloc_size_index.len(), 24);
    assert!(sc.kmalloc_caches.iter().all(|&c| c == 0));
    assert!(!slab_is_available(&sc));
}

#[test]
fn create_cache_registers_first() {
    let mut sc = SlabCommon::new(info(), false, false);
    let rep = NewCacheReplies { alloc_ok: true, create_err: 0, create_flags: 0x40 };
    let a = create_cache(&mut sc, 77, 100, 8, 0, 4, 16, 0, 0, rep);
    assert_eq!(a, FIRST_CACHE);
    let b = create_cache(&mut sc, 78, 200, 16, 0, 0, 0, 0, 0, rep);
    assert_eq!(b, FIRST_CACHE + 1);
    assert_eq!(walk(&sc, SLAB_CACHES), vec![b, a]);
    let c = sc.get_cache(a);
    assert_eq!(c.name, 77);
    assert_eq!(c.object_size, 100);
    assert_eq!(c.size, 100);
    assert_eq!(c.align, 8);
    assert_eq!(c.useroffset, 4);
    assert_eq!(c.usersize, 16);
    assert_eq!(c.flags, 0x40);
    assert_eq!(c.refcount, 1);
    assert_eq!(kmem_cache_size(&sc, b), 200);
}

#[test]
fn create_cache_without_record() {
    let mut sc = SlabCommon::new(info(), false, false);
    let rep = NewCacheReplies { alloc_ok: false, create_err: 0, create_flags: 0 };
    assert_eq!(create_cache(&mut sc, 77, 100, 8, 0, 0, 0, 0, 0, rep), NO_RECORD);
    assert_eq!(NO_RECORD, 0xFFFF_FFF3);
    assert!(sc.caches.is_empty());
}

#[test]
fn create_cache_refused_by_allocator() {
    let mut sc = SlabCommon::new(info(), false, false);
    let rep = NewCacheReplies { alloc_ok: true, create_err: 0xFFFF_FFEA, create_flags: 0 };
    assert_eq!(create_cache(&mut sc, 77, 100, 8, 0, 0, 0, 0, 0, rep), 0xFFFF_FFEA);
    assert_eq!(sc.caches.len(), 1);
    assert!(sc.caches[0].is_none());
    assert!(walk(&sc, SLAB_CACHES).is_empty());
}

#[test]
fn create_usercopy_success() {
    let mut sc = SlabCommon::new(info(), false, false);
    let a = kmem_cache_create_usercopy(&mut sc, 5, 100, 0, SLAB_HWCACHE_ALIGN, 8, 32, 0, ok_replies(55));
    assert_eq!(a, FIRST_CACHE);
    let c = sc.get_cache(a);
    assert_eq!(c.name, 55);
    assert_eq!(c.align, 128);
    assert_eq!(c.useroffset, 8);
    assert_eq!(c.usersize, 32);
    assert_eq!(
        sc.calls,
        vec![
            KernelCall::MutexLock,
            KernelCall::KstrdupConst { name: 5 },
            KernelCall::CacheCreate { s: a, flags: SLAB_HWCACHE_ALIGN },
            KernelCall::MutexUnlock
        ]
    );
}

#[test]
fn create_usercopy_fails_closed_on_bad_region() {
    let mut sc = SlabCommon::new(info(), false, false);
    let a = kmem_cache_create_usercopy(&mut sc, 5, 100, 0, 0, 90, 32, 0, ok_replies(55));
    let c = sc.get_cache(a);
    assert_eq!((c.useroffset, c.usersize), (0, 0));
    let b = kmem_cache_create_usercopy(&mut sc, 5, 100, 0, 0, 4, 0, 0, ok_replies(56));
    let d = sc.get_cache(b);
    assert_eq!((d.useroffset, d.usersize), (0, 0));
}

#[test]
fn create_usercopy_debug_flags_switch_on_services() {
    let mut sc = SlabCommon::new(info(), false, false);
    let a = kmem_cache_create_usercopy(&mut sc, 5, 64, 0, SLAB_STORE_USER, 0, 0, 0, ok_replies(55));
    assert_eq!(a, FIRST_CACHE);
    assert_eq!(
        sc.calls,
        vec![
            KernelCall::StaticKeyEnable,
            KernelCall::StackDepotInit,
            KernelCall::MutexLock,
            KernelCall::CacheAlias { name: 5, size: 64, align: 0, flags: SLAB_STORE_USER, ctor: 0 },
            KernelCall::KstrdupConst { name: 5 },
            KernelCall::CacheCreate { s: a, flags: SLAB_STORE_USER },
            KernelCall::MutexUnlock
        ]
    );
}

#[test]
fn create_usercopy_refuses_unknown_flags() {
    let mut sc = SlabCommon::new(info(), false, false);
    assert_eq!(kmem_cache_create_usercopy(&mut sc, 5, 64, 0, 0x8000_0000, 0, 0, 0, ok_replies(55)), 0);
    assert_eq!(sc.calls, vec![KernelCall::MutexLock, KernelCall::MutexUnlock, KernelCall::DumpStack]);
    assert!(sc.caches.is_empty());
    let mut sc = SlabCommon::new(info(), false, false);
    let flags = 0x8000_0000 | SLAB_PANIC;
    assert_eq!(kmem_cache_create_usercopy(&mut sc, 5, 64, 0, flags, 0, 0, 0, ok_replies(55)), 0);
    assert_eq!(sc.calls, vec![KernelCall::MutexLock, KernelCall::MutexUnlock, KernelCall::Panic]);
}

#[test]
fn create_usercopy_reuses_alias_found() {
    let mut sc = SlabCommon::new(info(), false, false);
    let mut rep = ok_replies(55);
    rep.alias = 1234;
    assert_eq!(kmem_cache_create(&mut sc, 5, 64, 0, SLAB_PANIC, 0, rep), 1234);
    assert_eq!(
        sc.calls,
        vec![
            KernelCall::MutexLock,
            KernelCall::CacheAlias { name: 5, size: 64, align: 0, flags: SLAB_PANIC, ctor: 0 },
            KernelCall::MutexUnlock
        ]
    );
    assert!(sc.caches.is_empty());
}

#[test]
fn create_usercopy_ignores_alias_with_region() {
    let mut sc = SlabCommon::new(info(), false, false);
    let mut rep = ok_replies(55);
    rep.alias = 1234;
    assert_eq!(kmem_cache_create_usercopy(&mut sc, 5, 64, 0, 0, 0, 16, 0, rep), FIRST_CACHE);
}

#[test]
fn create_usercopy_fails_without_name_copy() {
    let mut sc = SlabCommon::new(info(), false, false);
    assert_eq!(kmem_cache_create(&mut sc, 5, 64, 0, 0, 0, ok_replies(0)), 0);
    assert_eq!(
        sc.calls,
        vec![
            KernelCall::MutexLock,
            KernelCall::CacheAlias { name: 5, size: 64, align: 0, flags: 0, ctor: 0 },
            KernelCall::KstrdupConst { name: 5 },
            KernelCall::MutexUnlock,
            KernelCall::DumpStack
        ]
    );
}

#[test]
fn create_usercopy_fails_on_allocator_refusal() {
    let mut sc = SlabCommon::new(info(), false, false);
    let mut rep = ok_replies(55);
    rep.new_cache.alloc_ok = false;
    assert_eq!(kmem_cache_create(&mut sc, 5, 64, 0, 0, 0, rep), 0);
    assert_eq!(
        &sc.calls[sc.calls.len() - 3..],
        &[KernelCall::KfreeConst { addr: 55 }, KernelCall::MutexUnlock, KernelCall::DumpStack]
    );
    let mut rep = ok_replies(56);
    rep.new_cache.create_err = 0xFFFF_FFEA;
    assert_eq!(kmem_cache_create(&mut sc, 5, 64, 0, SLAB_PANIC, 0, rep), 0);
    assert_eq!(
        &sc.calls[sc.calls.len() - 3..],
        &[KernelCall::KfreeConst { addr: 56 }, KernelCall::MutexUnlock, KernelCall::Panic]
    );
    assert!(walk(&sc, SLAB_CACHES).is_empty());
}

#[test]
fn destroy_undoes_create() {
    let mut sc = SlabCommon::new(info(), false, false);
    let keep = kmem_cache_create(&mut sc, 5, 64, 0, 0, 0, ok_replies(50));
    let a = kmem_cache_create(&mut sc, 6, 64, 0, 0, 0, ok_replies(60));
    assert_eq!(walk(&sc, SLAB_CACHES), vec![a, keep]);
    sc.calls.clear();
    kmem_cache_destroy(&mut sc, a, 0);
    assert_eq!(walk(&sc, SLAB_CACHES), vec![keep]);
    assert!(sc.caches[a - FIRST_CACHE].is_none());
    assert_eq!(
        sc.calls,
        vec![
            KernelCall::CpusReadLock,
            KernelCall::MutexLock,
            KernelCall::KasanCacheShutdown { s: a },
            KernelCall::CacheShutdown { s: a },
            KernelCall::KfenceShutdownCache { s: a },
            KernelCall::DebugfsSlabRelease { s: a },
            KernelCall::MutexUnlock,
            KernelCall::CpusReadUnlock,
            KernelCall::CacheRelease { s: a },
            KernelCall::KfreeConst { addr: 60 },
        ]
    );
}

#[test]
fn destroy_null_does_nothing() {
    let mut sc = SlabCommon::new(info(), false, false);
    kmem_cache_destroy(&mut sc, 0, 0);
    assert!(sc.calls.is_empty());
}

#[test]
fn destroy_with_other_references_only_drops_one() {
    let mut sc = SlabCommon::new(info(), false, false);
    let a = kmem_cache_create(&mut sc, 5, 64, 0, 0, 0, ok_replies(50));
    let mut c = sc.get_cache(a);
    c.refcount = 2;
    sc.set_cache(a, c);
    sc.calls.clear();
    kmem_cache_destroy(&mut sc, a, 0);
    assert_eq!(sc.get_cache(a).refcount, 1);
    assert_eq!(walk(&sc, SLAB_CACHES), vec![a]);
    assert_eq!(
        sc.calls,
        vec![
            KernelCall::CpusReadLock,
            KernelCall::MutexLock,
            KernelCall::MutexUnlock,
            KernelCall::CpusReadUnlock
        ]
    );
}

#[test]
fn destroy_busy_cache_stays() {
    let mut sc = SlabCommon::new(info(), false, false);
    let a = kmem_cache_create(&mut sc, 5, 64, 0, 0, 0, ok_replies(50));
    kmem_cache_destroy(&mut sc, a, 1);
    assert_eq!(walk(&sc, SLAB_CACHES), vec![a]);
    assert_eq!(sc.get_cache(a).refcount, 0);
}

#[test]
fn destroy_rcu_cache_waits_on_rcu_list() {
    let mut sc = SlabCommon::new(info(), false, false);
    let mut rep = ok_replies(50);
    rep.new_cache.create_flags = SLAB_TYPESAFE_BY_RCU;
    let a = kmem_cache_create(&mut sc, 5, 64, 0, SLAB_TYPESAFE_BY_RCU, 0, rep);
    let b = kmem_cache_create(&mut sc, 6, 64, 0, SLAB_TYPESAFE_BY_RCU, 0, rep);
    sc.calls.clear();
    kmem_cache_destroy(&mut sc, a, 0);
    kmem_cache_destroy(&mut sc, b, 0);
    assert!(walk(&sc, SLAB_CACHES).is_empty());
    assert_eq!(walk(&sc, RCU_DESTROY), vec![a, b]);
    assert!(sc.caches[a - FIRST_CACHE].is_some());
    assert!(sc.calls.contains(&KernelCall::ScheduleRcuDestroyWork));
}

#[test]
fn shutdown_cache_results() {
    let mut sc = SlabCommon::new(info(), false, false);
    let a = kmem_cache_create(&mut sc, 5, 64, 0, 0, 0, ok_replies(50));
    assert_eq!(shutdown_cache(&mut sc, a, 3), -16);
    assert_eq!(walk(&sc, SLAB_CACHES), vec![a]);
    assert_eq!(shutdown_cache(&mut sc, a, 0), 0);
    assert!(walk(&sc, SLAB_CACHES).is_empty());
    assert_eq!(sc.links[a].next, SLAB_CACHES);
    assert_eq!(sc.links[a].prev, SLAB_CACHES);
}

#[test]
fn release_through_sysfs_when_full() {
    let mut sc = SlabCommon::new(info(), false, false);
    let a = kmem_cache_create(&mut sc, 5, 64, 0, 0, 0, ok_replies(50));
    shutdown_cache(&mut sc, a, 0);
    sc.slab_state = slab_state_t::FULL;
    sc.calls.clear();
    kmem_cache_release(&mut sc, a);
    assert_eq!(sc.calls, vec![KernelCall::SysfsSlabUnlink { s: a }, KernelCall::SysfsSlabRelease { s: a }]);
    assert!(sc.caches[a - FIRST_CACHE].is_some());
    sc.calls.clear();
    slab_kmem_cache_release(&mut sc, a);
    assert_eq!(sc.calls, vec![KernelCall::CacheRelease { s: a }, KernelCall::KfreeConst { addr: 50 }]);
    assert!(sc.caches[a - FIRST_CACHE].is_none());
}

#[test]
fn rcu_work_with_nothing_pending() {
    let mut sc = SlabCommon::new(info(), false, false);
    slab_caches_to_rcu_destroy_workfn(&mut sc);
    assert_eq!(sc.calls, vec![KernelCall::MutexLock, KernelCall::MutexUnlock]);
}

#[test]
fn rcu_work_releases_pending_caches_in_order() {
    let mut sc = SlabCommon::new(info(), false, false);
    let mut rep = ok_replies(50);
    rep.new_cache.create_flags = SLAB_TYPESAFE_BY_RCU;
    let keep = kmem_cache_create(&mut sc, 4, 64, 0, 0, 0, ok_replies(40));
    let a = kmem_cache_create(&mut sc, 5, 64, 0, SLAB_TYPESAFE_BY_RCU, 0, rep);
    rep.name_copy = 60;
    let b = kmem_cache_create(&mut sc, 6, 64, 0, SLAB_TYPESAFE_BY_RCU, 0, rep);
    kmem_cache_destroy(&mut sc, a, 0);
    kmem_cache_destroy(&mut sc, b, 0);
    assert_eq!(walk(&sc, RCU_DESTROY), vec![a, b]);
    sc.calls.clear();
    slab_caches_to_rcu_destroy_workfn(&mut sc);
    assert_eq!(
        sc.calls,
        vec![
            KernelCall::MutexLock,
            KernelCall::MutexUnlock,
            KernelCall::RcuBarrier,
            KernelCall::DebugfsSlabRelease { s: a },
            KernelCall::KfenceShutdownCache { s: a },
            KernelCall::CacheRelease { s: a },
            KernelCall::KfreeConst { addr: 50 },
            KernelCall::DebugfsSlabRelease { s: b },
            KernelCall::KfenceShutdownCache { s: b },
            KernelCall::CacheRelease { s: b },
            KernelCall::KfreeConst { addr: 60 }
        ]
    );
    assert!(walk(&sc, RCU_DESTROY).is_empty());
    assert_eq!(walk(&sc, SLAB_CACHES), vec![keep]);
    assert!(sc.caches[a - FIRST_CACHE].is_none());
    assert!(sc.caches[b - FIRST_CACHE].is_none());
    assert!(sc.caches[keep - FIRST_CACHE].is_some());
}

#[test]
fn availability_follows_boot_state() {
    let mut sc = SlabCommon::new(info(), false, false);
    for (st, up) in [
        (slab_state_t::DOWN, false),
        (slab_state_t::PARTIAL, false),
        (slab_state_t::UP, true),
        (slab_state_t::FULL, true),
    ] {
        sc.slab_state = st;
        assert_eq!(slab_is_available(&sc), up);
    }
}

#[test]
fn shrink_and_obj_info_pass_on() {
    let mut sc = SlabCommon::new(info(), false, false);
    assert_eq!(kmem_cache_shrink(&mut sc, 9, 0), 0);
    assert_eq!(kmem_cache_shrink(&mut sc, 9, 3), 3);
    kmem_obj_info(&mut sc, 1, 2, 3, true);
    kmem_obj_info(&mut sc, 1, 2, 3, false);
    assert_eq!(
        sc.calls,
        vec![
            KernelCall::KasanCacheShrink { s: 9 },
            KernelCall::CacheShrink { s: 9 },
            KernelCall::KasanCacheShrink { s: 9 },
            KernelCall::CacheShrink { s: 9 },
            KernelCall::KfenceObjInfo { kpp: 1, object: 2, slab: 3 },
            KernelCall::KfenceObjInfo { kpp: 1, object: 2, slab: 3 },
            KernelCall::KmemObjInfo { kpp: 1, object: 2, slab: 3 }
        ]
    );
}

#[test]
fn poison_and_kmalloc_flags_are_permitted() {
    let mut sc = SlabCommon::new(info(), false, false);
    let a = kmem_cache_create(&mut sc, 5, 64, 0, SLAB_POISON | SLAB_KMALLOC, 0, ok_replies(50));
    assert_eq!(a, FIRST_CACHE);
    assert_eq!(sc.calls[0], KernelCall::StaticKeyEnable);
}
