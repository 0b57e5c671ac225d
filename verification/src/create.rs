//! Creating caches.
use vstd::prelude::*;
use crate::cache::{calculate_alignment, calculate_alignment_spec, alignment_args_ok, kmem_cache_sanity_check};
use crate::errptr::{
    ptr_err, MAX_ERRNO,
};
use crate::flags::{
    CONFIG_HARDENED_USERCOPY, CONFIG_SLUB_DEBUG, ENOMEM, EINVAL, SLAB_DEBUG_FLAGS,
    SLAB_STORE_USER, SLAB_PANIC, SLAB_FLAGS_PERMITTED, CACHE_CREATE_MASK,
};
use crate::registry::{
    SlabCommon, KernelCall, MAX_CACHES, mutex_balance, lemma_mutex_balance_concat, lemma_balance_empty,
    lemma_balance_one, lemma_balance_two,
};
use crate::types::kmem_cache;

verus! {

/// What the kernel answers when a new cache record is set up.
#[derive(Clone, Copy)]
pub struct NewCacheReplies {
    /// The cache of caches handed out a zeroed record.
    pub alloc_ok: bool,
    /// Answer of `__kmem_cache_create`: 0 on success, else a negative
    /// error number, as 32 bits.
    pub create_err: u32,
    /// Flags that `__kmem_cache_create` stored in the record.
    pub create_flags: u32,
}

/// What the kernel answers to the requests of a cache creation.
#[derive(Clone, Copy)]
pub struct CreateReplies {
    /// Answer of `__kmem_cache_alias`: an existing cache to reuse, or 0.
    pub alias: usize,
    /// Answer of `kstrdup_const`: address of the copied name, or 0.
    pub name_copy: usize,
    /// Answers while the new record is set up.
    pub new_cache: NewCacheReplies,
}

/// The allocator answers as documented: 0, or a negative error number
/// that an error address can carry.
pub open spec fn allocator_answer_ok(nc: NewCacheReplies) -> bool {
    nc.create_err == 0 || nc.create_err > u32::MAX - MAX_ERRNO
}

/// The address `create_cache` returns when no record could be had:
/// `!ENOMEM` taken as an address.
pub const NO_RECORD: usize = 0xFFFF_FFF3;

/// `create_cache` reports a failure as a 32-bit error number taken as an
/// address: such an address lies above `u32::MAX - MAX_ERRNO`, and no
/// cache record does.
pub open spec fn is_create_err_spec(s: usize) -> bool {
    s > u32::MAX - MAX_ERRNO
}

/// Tells whether `s`, as returned by `create_cache`, reports a failure
/// (see `is_create_err_spec`).
pub fn is_create_err(s: usize) -> (r: bool)
    ensures
        r == is_create_err_spec(s),
{
    s > 0xFFFF_FFFFusize - MAX_ERRNO
}

/// A failure that `create_cache` reports carries a nonzero error number.
proof fn lemma_create_err_nonzero(s: usize)
    requires
        is_create_err_spec(s),
        s <= u32::MAX,
    ensures
        ((s as isize) as i32) != 0,
{
    assert(s > 0xFFFF_FC17usize && s <= 0xFFFF_FFFFusize ==> ((s as isize) as i32) != 0i32)
        by (bit_vector);
}

/// A creation whose record was set up and accepted by the allocator.
pub open spec fn new_cache_made(nc: NewCacheReplies) -> bool {
    nc.alloc_ok && nc.create_err == 0
}

/// The record of a cache that `create_cache` set up.
pub open spec fn created_record(
    name: usize,
    object_size: u32,
    align: u32,
    ctor: usize,
    useroffset: u32,
    usersize: u32,
    create_flags: u32,
) -> kmem_cache {
    kmem_cache {
        name,
        object_size,
        size: object_size,
        align,
        ctor,
        useroffset: if CONFIG_HARDENED_USERCOPY { useroffset } else { 0 },
        usersize: if CONFIG_HARDENED_USERCOPY { usersize } else { 0 },
        flags: create_flags,
        refcount: 1,
        ..kmem_cache::zeroed_spec()
    }
}

/// Sets up a new cache record and puts it first on the list of all caches.
/// Returns its address; when no record can be had, `NO_RECORD`; when the
/// allocator refuses the cache, its answer taken as an address (the record
/// is then freed).
pub fn create_cache(
    sc: &mut SlabCommon,
    name: usize,
    object_size: u32,
    align: u32,
    flags: u32,
    useroffset: u32,
    usersize: u32,
    ctor: usize,
    _root_cache: usize,
    rep: NewCacheReplies,
) -> (r: usize)
    requires
        old(sc).wf(),
        old(sc).caches@.len() + 1 < MAX_CACHES,
        allocator_answer_ok(rep),
    ensures
        final(sc).wf(),
        is_create_err_spec(r) <==> !new_cache_made(rep),
        is_create_err_spec(r) ==> r <= u32::MAX,
        final(sc).calls@ == old(sc).calls@ + new_cache_calls(old(sc).next_addr(), flags, rep),
        final(sc).same_tables(old(sc)),
        r == new_cache_result(old(sc).next_addr(), rep),
        new_cache_state(
            *old(sc),
            *final(sc),
            created_record(name, object_size, align, ctor, useroffset, usersize, rep.create_flags),
            rep,
        ),
        !rep.alloc_ok ==> final(sc).links@ == old(sc).links@,
{
    let mut err: u32 = !ENOMEM;
    proof {
        assert(!12u32 == 0xFFFF_FFF3u32) by (bit_vector);
    }
    if !rep.alloc_ok {
        return err as usize;
    }
    let s = sc.alloc_cache();
    let mut c = sc.get_cache(s);
    c.name = name;
    c.object_size = object_size;
    c.size = object_size;
    c.align = align;
    c.ctor = ctor;
    if CONFIG_HARDENED_USERCOPY {
        c.useroffset = useroffset;
        c.usersize = usersize;
    }
    sc.set_cache(s, c);
    sc.call(KernelCall::CacheCreate { s, flags });
    err = rep.create_err;
    c.flags = rep.create_flags;
    sc.set_cache(s, c);
    if err != 0 {
        sc.free_cache(s);
        proof {
            assert(sc.caches@ =~= old(sc).caches@.push(None));
        }
        return err as usize;
    }
    c.refcount = 1;
    sc.set_cache(s, c);
    sc.register_cache(s);
    proof {
        assert(c == created_record(name, object_size, align, ctor, useroffset, usersize, rep.create_flags));
        assert(sc.caches@ =~= old(sc).caches@.push(Some(c)));
    }
    return s;
}

/// The kernel services `create_cache` calls: the allocator sets up the new
/// record at `next` with `flags`, once there is a record.
pub open spec fn new_cache_calls(next: usize, flags: u32, nc: NewCacheReplies) -> Seq<KernelCall> {
    if nc.alloc_ok {
        seq![KernelCall::CacheCreate { s: next, flags }]
    } else {
        Seq::empty()
    }
}

/// The address `create_cache` returns, for the address the new record
/// gets and the kernel's answers.
pub open spec fn new_cache_result(next: usize, nc: NewCacheReplies) -> usize {
    if !nc.alloc_ok {
        NO_RECORD
    } else if nc.create_err != 0 {
        nc.create_err as usize
    } else {
        next
    }
}

/// The cache records and lists of `new` are those `create_cache` leaves
/// from `old` when it sets up `rec` with the answers `nc`.
pub open spec fn new_cache_state(
    old: SlabCommon,
    new: SlabCommon,
    rec: kmem_cache,
    nc: NewCacheReplies,
) -> bool {
    &&& new.rcu_list@ == old.rcu_list@
    &&& !nc.alloc_ok ==> new.caches@ == old.caches@ && new.cache_list@ == old.cache_list@
    &&& nc.alloc_ok && nc.create_err != 0 ==> new.caches@ == old.caches@.push(None)
        && new.cache_list@ == old.cache_list@
    &&& nc.alloc_ok && nc.create_err == 0 ==> new.caches@ == old.caches@.push(Some(rec))
        && new.cache_list@ == seq![old.next_addr()] + old.cache_list@
}

/// How a failed creation is reported: a panic when the caller asked for
/// one with `SLAB_PANIC`, else a stack trace.
pub open spec fn failure_report(flags: u32) -> KernelCall {
    if flags & SLAB_PANIC != 0 {
        KernelCall::Panic
    } else {
        KernelCall::DumpStack
    }
}

/// The debugging services a creation with `flags` switches on.
pub open spec fn debug_setup_calls(flags: u32) -> Seq<KernelCall> {
    let a = if CONFIG_SLUB_DEBUG && flags & SLAB_DEBUG_FLAGS != 0 {
        seq![KernelCall::StaticKeyEnable]
    } else {
        Seq::empty()
    };
    let b = if CONFIG_SLUB_DEBUG && flags & SLAB_STORE_USER != 0 {
        seq![KernelCall::StackDepotInit]
    } else {
        Seq::empty()
    };
    a + b
}

/// The user-copy region kept: the one asked for when it is nonempty or at
/// offset 0 and lies within the object, else none.
pub open spec fn usercopy_region(size: u32, useroffset: u32, usersize: u32) -> (u32, u32) {
    if !CONFIG_HARDENED_USERCOPY || (usersize == 0 && useroffset != 0) || (size < usersize || size
        - usersize < useroffset) {
        (0, 0)
    } else {
        (useroffset, usersize)
    }
}

/// The creation is refused for its flags: some are not permitted.
pub open spec fn flags_refused(flags: u32) -> bool {
    flags & !SLAB_FLAGS_PERMITTED != 0
}

/// The creation gets as far as setting up a new record.
pub open spec fn usercopy_reaches_create(flags: u32, size: u32, useroffset: u32, usersize: u32, rep: CreateReplies) -> bool {
    &&& !flags_refused(flags)
    &&& (usercopy_region(size, useroffset, usersize).1 == 0 ==> rep.alias == 0)
    &&& rep.name_copy != 0
}

/// The kernel services a creation calls once it holds the mutex and its
/// flags are accepted: the alias lookup (for caches without a user-copy
/// region), the name copy, the set-up of the record, and the mutex release
/// with, on failure, the failure report.
pub open spec fn locked_calls(
    next: usize,
    name: usize,
    size: u32,
    align: u32,
    cflags: u32,
    region: (u32, u32),
    ctor: usize,
    rep: CreateReplies,
) -> Seq<KernelCall> {
    let alias = if region.1 == 0 {
        seq![KernelCall::CacheAlias { name, size, align, flags: cflags, ctor }]
    } else {
        Seq::empty()
    };
    let fail = seq![KernelCall::MutexUnlock, failure_report(cflags)];
    if region.1 == 0 && rep.alias != 0 {
        alias + seq![KernelCall::MutexUnlock]
    } else if rep.name_copy == 0 {
        alias + seq![KernelCall::KstrdupConst { name }] + fail
    } else {
        let made = alias + seq![KernelCall::KstrdupConst { name }] + new_cache_calls(
            next,
            cflags,
            rep.new_cache,
        );
        if !new_cache_made(rep.new_cache) {
            made + seq![KernelCall::KfreeConst { addr: rep.name_copy }] + fail
        } else {
            made + seq![KernelCall::MutexUnlock]
        }
    }
}

/// The kernel services a creation calls, in order: the debugging set-up,
/// the mutex, then either the refusal of its flags or `locked_calls`.
pub open spec fn usercopy_calls(
    next: usize,
    name: usize,
    size: u32,
    align: u32,
    flags: u32,
    useroffset: u32,
    usersize: u32,
    ctor: usize,
    rep: CreateReplies,
) -> Seq<KernelCall> {
    let start = debug_setup_calls(flags) + seq![KernelCall::MutexLock];
    if flags_refused(flags) {
        start + seq![KernelCall::MutexUnlock, failure_report(flags)]
    } else {
        start + locked_calls(
            next,
            name,
            size,
            align,
            flags & CACHE_CREATE_MASK,
            usercopy_region(size, useroffset, usersize),
            ctor,
            rep,
        )
    }
}

/// Once it holds the mutex, a creation releases it exactly once.
proof fn lemma_locked_calls_balanced(
    next: usize,
    name: usize,
    size: u32,
    align: u32,
    cflags: u32,
    region: (u32, u32),
    ctor: usize,
    rep: CreateReplies,
)
    ensures
        mutex_balance(locked_calls(next, name, size, align, cflags, region, ctor, rep)) == -1,
{
    let alias = if region.1 == 0 {
        seq![KernelCall::CacheAlias { name, size, align, flags: cflags, ctor }]
    } else {
        Seq::<KernelCall>::empty()
    };
    let dup = seq![KernelCall::KstrdupConst { name }];
    let made = new_cache_calls(next, cflags, rep.new_cache);
    let fail = seq![KernelCall::MutexUnlock, failure_report(cflags)];
    let freed = seq![KernelCall::KfreeConst { addr: rep.name_copy }];
    let unlock = seq![KernelCall::MutexUnlock];
    lemma_balance_empty();
    if region.1 == 0 {
        lemma_balance_one(KernelCall::CacheAlias { name, size, align, flags: cflags, ctor });
    }
    if rep.new_cache.alloc_ok {
        lemma_balance_one(KernelCall::CacheCreate { s: next, flags: cflags });
    }
    lemma_balance_two(KernelCall::MutexUnlock, failure_report(cflags));
    lemma_balance_one(KernelCall::MutexUnlock);
    lemma_balance_one(KernelCall::KstrdupConst { name });
    lemma_balance_one(KernelCall::KfreeConst { addr: rep.name_copy });
    lemma_mutex_balance_concat(alias, fail);
    lemma_mutex_balance_concat(alias, unlock);
    lemma_mutex_balance_concat(alias, dup);
    lemma_mutex_balance_concat(alias + dup, fail);
    lemma_mutex_balance_concat(alias + dup, made);
    lemma_mutex_balance_concat(alias + dup + made, freed);
    lemma_mutex_balance_concat(alias + dup + made + freed, fail);
    lemma_mutex_balance_concat(alias + dup + made, unlock);
}

/// A whole creation leaves the mutex balance as it found it.
proof fn lemma_usercopy_calls_balanced(
    old: Seq<KernelCall>,
    next: usize,
    name: usize,
    size: u32,
    align: u32,
    flags: u32,
    useroffset: u32,
    usersize: u32,
    ctor: usize,
    rep: CreateReplies,
)
    ensures
        mutex_balance(
            old + usercopy_calls(next, name, size, align, flags, useroffset, usersize, ctor, rep),
        ) == mutex_balance(old),
{
    let d = debug_setup_calls(flags);
    let lock = seq![KernelCall::MutexLock];
    lemma_balance_empty();
    assert(mutex_balance(d) == 0) by {
        if d.len() == 2 {
            lemma_balance_two(KernelCall::StaticKeyEnable, KernelCall::StackDepotInit);
            assert(d =~= seq![KernelCall::StaticKeyEnable, KernelCall::StackDepotInit]);
        } else if d.len() == 1 {
            lemma_balance_one(d[0]);
            assert(d =~= seq![d[0]]);
        } else {
            assert(d =~= Seq::<KernelCall>::empty());
        }
    }
    lemma_balance_one(KernelCall::MutexLock);
    lemma_mutex_balance_concat(old, d);
    lemma_mutex_balance_concat(old + d, lock);
    let rest = if flags_refused(flags) {
        seq![KernelCall::MutexUnlock, failure_report(flags)]
    } else {
        locked_calls(
            next,
            name,
            size,
            align,
            flags & CACHE_CREATE_MASK,
            usercopy_region(size, useroffset, usersize),
            ctor,
            rep,
        )
    };
    lemma_balance_two(KernelCall::MutexUnlock, failure_report(flags));
    lemma_locked_calls_balanced(
        next,
        name,
        size,
        align,
        flags & CACHE_CREATE_MASK,
        usercopy_region(size, useroffset, usersize),
        ctor,
        rep,
    );
    lemma_mutex_balance_concat(old + d + lock, rest);
    assert(old + usercopy_calls(next, name, size, align, flags, useroffset, usersize, ctor, rep)
        =~= old + d + lock + rest);
}

/// The part of a creation made while holding the mutex, once the flags are
/// accepted: `flags` are the kept flags and `useroffset`, `usersize` the
/// kept user-copy region.
fn create_locked(
    sc: &mut SlabCommon,
    name: usize,
    size: u32,
    align: u32,
    flags: u32,
    useroffset: u32,
    usersize: u32,
    ctor: usize,
    rep: CreateReplies,
) -> (r: usize)
    requires
        old(sc).wf(),
        old(sc).caches@.len() + 1 < MAX_CACHES,
        (usersize == 0 ==> rep.alias == 0) && rep.name_copy != 0 ==> alignment_args_ok(
            flags,
            align,
            size,
        ),
        allocator_answer_ok(rep.new_cache),
    ensures
        final(sc).wf(),
        final(sc).same_tables(old(sc)),
        final(sc).calls@ == old(sc).calls@ + locked_calls(
            old(sc).next_addr(),
            name,
            size,
            align,
            flags,
            (useroffset, usersize),
            ctor,
            rep,
        ),
        ({
            if (usersize == 0 && rep.alias != 0) || rep.name_copy == 0 {
                &&& r == (if usersize == 0 { rep.alias } else { 0 })
                &&& final(sc).links@ == old(sc).links@
                &&& final(sc).same_caches(old(sc))
            } else {
                let nc = rep.new_cache;
                &&& r == (if new_cache_made(nc) { old(sc).next_addr() } else { 0 })
                &&& new_cache_state(
                    *old(sc),
                    *final(sc),
                    created_record(
                        rep.name_copy,
                        size,
                        calculate_alignment_spec(flags, align, size),
                        ctor,
                        useroffset,
                        usersize,
                        nc.create_flags,
                    ),
                    nc,
                )
            }
        }),
{
    let ghost expected = locked_calls(
        old(sc).next_addr(),
        name,
        size,
        align,
        flags,
        (useroffset, usersize),
        ctor,
        rep,
    );
    let mut s: usize = 0;
    let mut err: i32 = 0;
    if usersize == 0 {
        sc.call(KernelCall::CacheAlias { name, size, align, flags, ctor });
        s = rep.alias;
    }
    if s != 0 {
        sc.call(KernelCall::MutexUnlock);
        proof {
            assert(sc.calls@ =~= old(sc).calls@ + expected);
        }
        return s;
    }
    sc.call(KernelCall::KstrdupConst { name });
    let cache_name = rep.name_copy;
    if cache_name == 0 {
        err = -(ENOMEM as i32);
        sc.call(KernelCall::MutexUnlock);
        if flags & SLAB_PANIC != 0 {
            sc.call(KernelCall::Panic);
        } else {
            sc.call(KernelCall::DumpStack);
        }
        proof {
            assert(sc.calls@ =~= old(sc).calls@ + expected);
        }
        return 0;
    }
    let a = calculate_alignment(flags, align, size);
    let ghost before = sc.calls@;
    s = create_cache(sc, cache_name, size, a, flags, useroffset, usersize, ctor, 0, rep.new_cache);
    if is_create_err(s) {
        proof {
            lemma_create_err_nonzero(s);
        }
        err = ptr_err(s) as i32;
        sc.call(KernelCall::KfreeConst { addr: cache_name });
    }
    if err != 0 {
        sc.call(KernelCall::MutexUnlock);
        if flags & SLAB_PANIC != 0 {
            sc.call(KernelCall::Panic);
        } else {
            sc.call(KernelCall::DumpStack);
        }
        proof {
            assert(sc.calls@ =~= old(sc).calls@ + expected);
        }
        return 0;
    }
    sc.call(KernelCall::MutexUnlock);
    proof {
        assert(sc.calls@ =~= old(sc).calls@ + expected);
    }
    s
}

/// What a creation leaves behind, from `old` to `new`, and returns.  When
/// the flags are refused, no name copy can be had, or (for a cache without
/// a user-copy region) an existing cache can be reused, nothing changes and
/// the result is that existing cache, or 0.  Otherwise `create_cache` sets
/// up the record; the result is its address when the allocator accepted
/// it, else 0.
pub open spec fn usercopy_outcome(
    old: SlabCommon,
    new: SlabCommon,
    r: usize,
    size: u32,
    align: u32,
    flags: u32,
    useroffset: u32,
    usersize: u32,
    ctor: usize,
    rep: CreateReplies,
) -> bool {
    let cflags = flags & CACHE_CREATE_MASK;
    let region = usercopy_region(size, useroffset, usersize);
    if !usercopy_reaches_create(flags, size, useroffset, usersize, rep) {
        &&& r == (if !flags_refused(flags) && region.1 == 0 && rep.alias != 0 {
            rep.alias
        } else {
            0
        })
        &&& new.links@ == old.links@
        &&& new.same_caches(&old)
    } else {
        let nc = rep.new_cache;
        &&& r == (if new_cache_made(nc) { old.next_addr() } else { 0 })
        &&& new_cache_state(
            old,
            new,
            created_record(
                rep.name_copy,
                size,
                calculate_alignment_spec(cflags, align, size),
                ctor,
                region.0,
                region.1,
                nc.create_flags,
            ),
            nc,
        )
    }
}

/// Creates a cache whose objects have `size` bytes, of which the region at
/// `useroffset` of `usersize` bytes may be copied to and from user space.
/// Returns the new cache, an existing cache that can be reused, or 0 when
/// the creation fails; a failure is reported by a panic or a stack trace
/// (`failure_report`) and leaves the name copy freed.
#[verifier::spinoff_prover]
#[verifier::rlimit(50)]
pub fn kmem_cache_create_usercopy(
    sc: &mut SlabCommon,
    name: usize,
    size: u32,
    align: u32,
    flags: u32,
    useroffset: u32,
    usersize: u32,
    ctor: usize,
    rep: CreateReplies,
) -> (r: usize)
    requires
        old(sc).wf(),
        old(sc).caches@.len() + 1 < MAX_CACHES,
        usercopy_reaches_create(flags, size, useroffset, usersize, rep) ==> alignment_args_ok(
            flags & CACHE_CREATE_MASK,
            align,
            size,
        ),
        allocator_answer_ok(rep.new_cache),
    ensures
        final(sc).wf(),
        final(sc).same_tables(old(sc)),
        mutex_balance(final(sc).calls@) == mutex_balance(old(sc).calls@),
        final(sc).calls@ == old(sc).calls@ + usercopy_calls(
            old(sc).next_addr(),
            name,
            size,
            align,
            flags,
            useroffset,
            usersize,
            ctor,
            rep,
        ),
        usercopy_outcome(
            *old(sc),
            *final(sc),
            r,
            size,
            align,
            flags,
            useroffset,
            usersize,
            ctor,
            rep,
        ),
{
    let ghost expected = usercopy_calls(
        old(sc).next_addr(),
        name,
        size,
        align,
        flags,
        useroffset,
        usersize,
        ctor,
        rep,
    );
    proof {
        lemma_usercopy_calls_balanced(
            old(sc).calls@,
            old(sc).next_addr(),
            name,
            size,
            align,
            flags,
            useroffset,
            usersize,
            ctor,
            rep,
        );
    }
    let ghost flags0 = flags;
    let ghost useroffset0 = useroffset;
    let ghost usersize0 = usersize;
    let mut flags = flags;
    let mut useroffset = useroffset;
    let mut usersize = usersize;
    if CONFIG_SLUB_DEBUG {
        if flags & SLAB_DEBUG_FLAGS != 0 {
            sc.call(KernelCall::StaticKeyEnable);
        }
        if flags & SLAB_STORE_USER != 0 {
            sc.call(KernelCall::StackDepotInit);
        }
    }
    proof {
        assert(sc.calls@ =~= old(sc).calls@ + debug_setup_calls(flags));
    }
    sc.call(KernelCall::MutexLock);
    let mut err: i32 = kmem_cache_sanity_check(name, size);
    if err != 0 {
        sc.call(KernelCall::MutexUnlock);
        if flags & SLAB_PANIC != 0 {
            sc.call(KernelCall::Panic);
        } else {
            sc.call(KernelCall::DumpStack);
        }
        return 0;
    }
    if flags & !SLAB_FLAGS_PERMITTED != 0 {
        err = -(EINVAL as i32);
        sc.call(KernelCall::MutexUnlock);
        if flags & SLAB_PANIC != 0 {
            sc.call(KernelCall::Panic);
        } else {
            sc.call(KernelCall::DumpStack);
        }
        proof {
            assert(sc.calls@ =~= old(sc).calls@ + expected);
        }
        return 0;
    }
    flags = flags & CACHE_CREATE_MASK;
    if (!CONFIG_HARDENED_USERCOPY) || (usersize == 0 && useroffset != 0) || (size < usersize || size
        - usersize < useroffset) {
        usersize = 0;
        useroffset = 0;
    }
    proof {
        assert((useroffset, usersize) == usercopy_region(size, useroffset0, usersize0));
        assert(flags == flags0 & CACHE_CREATE_MASK);
        assert(!flags_refused(flags0));
        assert(expected == debug_setup_calls(flags0) + seq![KernelCall::MutexLock] + locked_calls(
            old(sc).next_addr(),
            name,
            size,
            align,
            flags,
            (useroffset, usersize),
            ctor,
            rep,
        ));
    }
    let r = create_locked(sc, name, size, align, flags, useroffset, usersize, ctor, rep);
    proof {
        assert(sc.calls@ =~= old(sc).calls@ + expected);
    }
    r
}

/// Creates a cache with no user-copy region: the same as
/// `kmem_cache_create_usercopy` with an empty region, in result, effects
/// and kernel calls.
pub fn kmem_cache_create(
    sc: &mut SlabCommon,
    name: usize,
    size: u32,
    align: u32,
    flags: u32,
    ctor: usize,
    rep: CreateReplies,
) -> (r: usize)
    requires
        old(sc).wf(),
        old(sc).caches@.len() + 1 < MAX_CACHES,
        usercopy_reaches_create(flags, size, 0, 0, rep) ==> alignment_args_ok(
            flags & CACHE_CREATE_MASK,
            align,
            size,
        ),
        allocator_answer_ok(rep.new_cache),
    ensures
        final(sc).wf(),
        final(sc).same_tables(old(sc)),
        mutex_balance(final(sc).calls@) == mutex_balance(old(sc).calls@),
        final(sc).calls@ == old(sc).calls@ + usercopy_calls(
            old(sc).next_addr(),
            name,
            size,
            align,
            flags,
            0,
            0,
            ctor,
            rep,
        ),
        usercopy_outcome(*old(sc), *final(sc), r, size, align, flags, 0, 0, ctor, rep),
{
    kmem_cache_create_usercopy(sc, name, size, align, flags, 0, 0, ctor, rep)
}

/// The user-copy region a new cache keeps lies within its objects.
pub proof fn law_usercopy_region_within_object(size: u32, useroffset: u32, usersize: u32)
    ensures
        usercopy_region(size, useroffset, usersize).0 + usercopy_region(size, useroffset, usersize).1
            <= size,
        usercopy_region(size, useroffset, usersize).1 == 0 ==> usercopy_region(
            size,
            useroffset,
            usersize,
        ).0 == 0,
{
}

/// A user-copy region that lies within the object, and is not empty at a
/// nonzero offset, is kept exactly as asked; only a region that does not
/// fit, or an empty one at a nonzero offset, is dropped.
pub proof fn law_usercopy_region_kept(size: u32, useroffset: u32, usersize: u32)
    ensures
        useroffset + usersize <= size && (usersize != 0 || useroffset == 0) ==> usercopy_region(
            size,
            useroffset,
            usersize,
        ) == (useroffset, usersize),
        useroffset + usersize > size || (usersize == 0 && useroffset != 0) ==> usercopy_region(
            size,
            useroffset,
            usersize,
        ) == (0u32, 0u32),
{
}

/// A cache made by `kmem_cache_create_usercopy` with a user-copy region that
/// lies within the object keeps that region, and takes the copy of the
/// name as its name.
pub proof fn law_created_cache_keeps_region(
    old: SlabCommon,
    new: SlabCommon,
    r: usize,
    size: u32,
    align: u32,
    flags: u32,
    useroffset: u32,
    usersize: u32,
    ctor: usize,
    rep: CreateReplies,
)
    requires
        old.wf(),
        usercopy_outcome(old, new, r, size, align, flags, useroffset, usersize, ctor, rep),
        usercopy_reaches_create(flags, size, useroffset, usersize, rep),
        new_cache_made(rep.new_cache),
        useroffset + usersize <= size,
        usersize != 0 || useroffset == 0,
    ensures
        r == old.next_addr(),
        new.live(r),
        new.cache(r).useroffset == useroffset,
        new.cache(r).usersize == usersize,
        new.cache(r).name == rep.name_copy,
        new.cache(r).object_size == size,
        new.cache_list@[0] == r,
{
    assert(old.next_addr() - 4 == old.caches@.len());
    assert(new.caches@[old.caches@.len() as int] == Some(
        created_record(
            rep.name_copy,
            size,
            calculate_alignment_spec(flags & CACHE_CREATE_MASK, align, size),
            ctor,
            useroffset,
            usersize,
            rep.new_cache.create_flags,
        ),
    ));
}

} // verus!
