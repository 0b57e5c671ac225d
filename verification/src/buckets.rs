//! Sets of caches for dynamically sized allocations, one per kmalloc size.
use vstd::prelude::*;
use crate::cache::calculate_alignment_spec;
use crate::create::{
    kmem_cache_create_usercopy, CreateReplies, created_record, usercopy_calls,
    usercopy_reaches_create, usercopy_region, allocator_answer_ok, new_cache_made,
};
use crate::destroy::{kmem_cache_destroy, destroy_ok, destroy_state};
use crate::flags::{CONFIG_SLAB_BUCKETS, SLAB_NO_MERGE, CACHE_CREATE_MASK};
use crate::registry::{SlabCommon, KernelCall, MAX_CACHES, KMALLOC_SLOTS};
use crate::types::kmem_cache;

verus! {

/// What the kernel answers while the bucket of one kmalloc size is set up.
#[derive(Clone, Copy)]
pub struct BucketReplies {
    /// Answer of `strchr` for the '-' in the kmalloc cache's name.
    pub strchr: usize,
    /// Answer of `kasprintf` for the bucket cache's name.
    pub kasprintf: usize,
    /// Answers while the bucket cache is created.
    pub create: CreateReplies,
}

/// Object size of the normal kmalloc cache of index `idx`, or 0 when that
/// cache is not set up.
pub open spec fn bucket_size(sc: SlabCommon, idx: int) -> u32 {
    let k = sc.kmalloc_cache(0, idx);
    if k == 0 {
        0
    } else {
        sc.cache(k).object_size
    }
}

/// User-copy region of a bucket cache whose objects have `size` bytes.
pub open spec fn bucket_region(size: u32, useroffset: u32, usersize: u32) -> (u32, u32) {
    if useroffset >= size {
        (0, 0)
    } else if size - useroffset <= usersize {
        ((useroffset, (size - useroffset) as u32))
    } else {
        (useroffset, usersize)
    }
}

/// The bucket of index `idx` is set up, or has no kmalloc cache to follow.
pub open spec fn bucket_step_ok(
    sc: SlabCommon,
    idx: int,
    flags: u32,
    useroffset: u32,
    usersize: u32,
    rep: BucketReplies,
) -> bool {
    let size = bucket_size(sc, idx);
    let region = bucket_region(size, useroffset, usersize);
    size != 0 ==> {
        &&& rep.strchr != 0
        &&& rep.kasprintf != 0
        &&& usercopy_reaches_create(flags | SLAB_NO_MERGE, size, region.0, region.1, rep.create)
        &&& new_cache_made(rep.create.new_cache)
    }
}

/// The buckets of all indices below `n` are set up.
pub open spec fn buckets_ok_below(
    sc: SlabCommon,
    n: int,
    flags: u32,
    useroffset: u32,
    usersize: u32,
    replies: Seq<BucketReplies>,
) -> bool {
    forall|j: int| 0 <= j < n ==> bucket_step_ok(sc, j, flags, useroffset, usersize, #[trigger] replies[j])
}

/// Record of the bucket cache of index `idx`.
pub open spec fn bucket_record(
    sc: SlabCommon,
    idx: int,
    flags: u32,
    useroffset: u32,
    usersize: u32,
    ctor: usize,
    rep: BucketReplies,
) -> kmem_cache {
    let size = bucket_size(sc, idx);
    let region = bucket_region(size, useroffset, usersize);
    let kept = usercopy_region(size, region.0, region.1);
    created_record(
        rep.create.name_copy,
        size,
        calculate_alignment_spec((flags | SLAB_NO_MERGE) & CACHE_CREATE_MASK, 0, size),
        ctor,
        kept.0,
        kept.1,
        rep.create.new_cache.create_flags,
    )
}

/// Number of indices below `idx` whose bucket gets a cache.
pub open spec fn created_before(sc: SlabCommon, idx: nat) -> nat
    decreases idx,
{
    if idx == 0 {
        0
    } else {
        created_before(sc, (idx - 1) as nat) + if bucket_size(sc, idx - 1) != 0 {
            1nat
        } else {
            0nat
        }
    }
}

/// At most one cache per index is created.
proof fn lemma_created_before_bound(sc: SlabCommon, n: nat)
    ensures
        created_before(sc, n) <= n,
    decreases n,
{
    if n > 0 {
        lemma_created_before_bound(sc, (n - 1) as nat);
    }
}

/// Address of the bucket cache of index `idx` once all buckets below it
/// are set up.
pub open spec fn bucket_addr(sc: SlabCommon, idx: int) -> usize {
    (sc.next_addr() + created_before(sc, idx as nat)) as usize
}

/// The kernel calls made while the bucket of index `idx` is set up, when
/// its cache would be created at address `next`, up to the first step that
/// fails: the name of the kmalloc cache is searched for its '-', the
/// bucket cache's name is printed, the cache is created, and the printed
/// name is freed again.
pub open spec fn bucket_step_calls(
    sc: SlabCommon,
    idx: int,
    next: usize,
    name: usize,
    flags: u32,
    useroffset: u32,
    usersize: u32,
    ctor: usize,
    rep: BucketReplies,
) -> Seq<KernelCall> {
    let size = bucket_size(sc, idx);
    let region = bucket_region(size, useroffset, usersize);
    if size == 0 {
        Seq::empty()
    } else {
        seq![KernelCall::Strchr { name: sc.cache(sc.kmalloc_cache(0, idx)).name }] + if rep.strchr
            == 0 {
            Seq::empty()
        } else {
            seq![KernelCall::Kasprintf { prefix: name, dash: rep.strchr }] + if rep.kasprintf == 0 {
                Seq::empty()
            } else {
                usercopy_calls(
                    next,
                    rep.kasprintf,
                    size,
                    0,
                    flags | SLAB_NO_MERGE,
                    region.0,
                    region.1,
                    ctor,
                    rep.create,
                ) + seq![KernelCall::Kfree { addr: rep.kasprintf }]
            }
        }
    }
}

/// The kernel calls made while the buckets of the indices below `idx` are
/// set up, each of them succeeding.
pub open spec fn buckets_calls(
    sc: SlabCommon,
    idx: nat,
    name: usize,
    flags: u32,
    useroffset: u32,
    usersize: u32,
    ctor: usize,
    replies: Seq<BucketReplies>,
) -> Seq<KernelCall>
    decreases idx,
{
    if idx == 0 {
        Seq::empty()
    } else {
        let i = (idx - 1) as nat;
        buckets_calls(sc, i, name, flags, useroffset, usersize, ctor, replies) + bucket_step_calls(
            sc,
            i as int,
            bucket_addr(sc, i as int),
            name,
            flags,
            useroffset,
            usersize,
            ctor,
            replies[i as int],
        )
    }
}

/// The bucket entries are 0 or distinct caches that can be destroyed.
pub open spec fn buckets_destroyable(sc: SlabCommon, b: Seq<usize>, from: int) -> bool {
    &&& forall|j: int| from <= j < b.len() ==> destroy_ok(sc, #[trigger] b[j])
    &&& forall|j: int|
        from <= j < b.len() && b[j] != 0 ==> sc.cache(#[trigger] b[j]).refcount == 1
    &&& forall|j1: int, j2: int|
        from <= j1 < b.len() && from <= j2 < b.len() && j1 != j2 && b[j1] != 0 ==> #[trigger] b[j1]
            != #[trigger] b[j2]
}

/// `st` are the states as the caches `b` are destroyed in order, with the
/// shutdown answers `replies`: each step is a `kmem_cache_destroy`.
pub open spec fn destroy_chain(st: Seq<SlabCommon>, b: Seq<usize>, replies: Seq<i32>) -> bool {
    &&& st.len() == b.len() + 1
    &&& forall|j: int|
        0 <= j < b.len() ==> destroy_state(#[trigger] st[j], st[j + 1], b[j], replies[j])
}

/// `new` is what the teardown of a failed bucket set leaves from `old`:
/// the caches `b` destroyed in order with the shutdown answers `replies`,
/// then the bucket array at `array` freed.
#[verifier::opaque]
pub open spec fn teardown(
    old: SlabCommon,
    new: SlabCommon,
    b: Seq<usize>,
    replies: Seq<i32>,
    array: usize,
) -> bool {
    exists|st: Seq<SlabCommon>|
        #[trigger] destroy_chain(st, b, replies) && st[0] == old && new.calls@ == st.last().calls@.push(
            KernelCall::Kfree { addr: array },
        ) && new.caches@ == st.last().caches@ && new.cache_list@ == st.last().cache_list@
            && new.rcu_list@ == st.last().rcu_list@
}

/// The entries of the bucket array when the bucket of index `f` fails: the
/// caches made for the indices below it.
pub open spec fn failed_entries(sc: SlabCommon, f: int) -> Seq<usize> {
    Seq::new(
        KMALLOC_SLOTS as nat,
        |j: int|
            if j < f && bucket_size(sc, j) != 0 {
                bucket_addr(sc, j)
            } else {
                0
            },
    )
}

/// The state `mid` when the bucket of index `f` fails, from `old`: the
/// calls so far are `done`, the older records and caches are still there,
/// and the caches made for the indices below `f` are live, listed and hold
/// their bucket records.
#[verifier::opaque]
pub open spec fn failure_state(
    old: SlabCommon,
    mid: SlabCommon,
    f: int,
    done: Seq<KernelCall>,
    flags: u32,
    useroffset: u32,
    usersize: u32,
    ctor: usize,
    replies: Seq<BucketReplies>,
) -> bool {
    &&& mid.calls@ == done
    &&& mid.same_tables(&old)
    &&& forall|i: int| 0 <= i < old.caches@.len() ==> #[trigger] mid.caches@[i] == old.caches@[i]
    &&& forall|x: usize| #[trigger] old.cache_list@.contains(x) ==> mid.cache_list@.contains(x)
    &&& forall|j: int|
        0 <= j < f && bucket_size(old, j) != 0 ==> {
            &&& mid.live(#[trigger] bucket_addr(old, j))
            &&& mid.cache_list@.contains(bucket_addr(old, j))
            &&& mid.cache(bucket_addr(old, j)) == bucket_record(
                old,
                j,
                flags,
                useroffset,
                usersize,
                ctor,
                replies[j],
            )
        }
}

/// Removing an entry from a list without repeats keeps exactly the others.
proof fn lemma_remove_keeps_others(l: Seq<usize>, a: usize, x: usize)
    requires
        l.no_duplicates(),
        l.contains(a),
    ensures
        l.remove(l.index_of(a)).contains(x) <==> (l.contains(x) && x != a),
{
    let k = l.index_of(a);
    let r = l.remove(k);
    if r.contains(x) {
        let j = choose|j: int| 0 <= j < r.len() && r[j] == x;
        let j2 = if j < k { j } else { j + 1 };
        assert(l[j2] == x);
    }
    if l.contains(x) && x != a {
        let j = choose|j: int| 0 <= j < l.len() && l[j] == x;
        assert(j != k);
        let j2 = if j < k { j } else { j - 1 };
        assert(r[j2] == x);
    }
}

/// Destroys every cache of a bucket array that failed to be set up, then
/// frees the array.  `replies` are the answers of `__kmem_cache_shutdown`,
/// one per entry: each cache leaves the list of all caches unless its
/// shutdown was refused.
#[verifier::rlimit(40)]
fn release_buckets(sc: &mut SlabCommon, array: usize, b: &Vec<usize>, replies: &Vec<i32>)
    requires
        old(sc).wf(),
        b@.len() == KMALLOC_SLOTS,
        replies@.len() == KMALLOC_SLOTS,
        buckets_destroyable(*old(sc), b@, 0),
    ensures
        final(sc).wf(),
        final(sc).same_tables(old(sc)),
        final(sc).calls@.len() > old(sc).calls@.len(),
        final(sc).calls@.subrange(0, old(sc).calls@.len() as int) == old(sc).calls@,
        final(sc).calls@.last() == (KernelCall::Kfree { addr: array }),
        forall|j: int|
            0 <= j < KMALLOC_SLOTS && #[trigger] b@[j] != 0 ==> (final(sc).cache_list@.contains(b@[j])
                <==> replies@[j] != 0),
        forall|x: usize|
            #[trigger] old(sc).cache_list@.contains(x) && !b@.contains(x) ==> final(sc).cache_list@.contains(x),
        teardown(*old(sc), *final(sc), b@, replies@, array),
{
    let ghost mut st: Seq<SlabCommon> = seq![*old(sc)];
    let mut idx: usize = 0;
    while idx < KMALLOC_SLOTS
        invariant
            sc.wf(),
            sc.same_tables(old(sc)),
            idx <= KMALLOC_SLOTS,
            b@.len() == KMALLOC_SLOTS,
            replies@.len() == KMALLOC_SLOTS,
            buckets_destroyable(*sc, b@, idx as int),
            forall|j1: int, j2: int|
                0 <= j1 < KMALLOC_SLOTS && 0 <= j2 < KMALLOC_SLOTS && j1 != j2 && b@[j1] != 0
                    ==> #[trigger] b@[j1] != #[trigger] b@[j2],
            st.len() == idx + 1,
            st[0] == *old(sc),
            st[idx as int] == *sc,
            forall|j: int|
                0 <= j < idx ==> destroy_state(#[trigger] st[j], st[j + 1], b@[j], replies@[j]),
            sc.calls@.len() >= old(sc).calls@.len(),
            sc.calls@.subrange(0, old(sc).calls@.len() as int) == old(sc).calls@,
            forall|j: int|
                0 <= j < idx && #[trigger] b@[j] != 0 ==> (sc.cache_list@.contains(b@[j])
                    <==> replies@[j] != 0),
            forall|j: int| idx <= j < KMALLOC_SLOTS && #[trigger] b@[j] != 0 ==> sc.cache_list@.contains(b@[j]),
            forall|x: usize|
                #[trigger] old(sc).cache_list@.contains(x) && !b@.contains(x) ==> sc.cache_list@.contains(x),
        decreases KMALLOC_SLOTS - idx,
    {
        let ghost before = *sc;
        let a = b[idx];
        proof {
            assert(destroy_ok(before, b@[idx as int]));
            if a != 0 {
                assert(before.cache_list@.contains(a));
            }
        }
        kmem_cache_destroy(sc, a, replies[idx]);
        proof {
            let st0 = st;
            st = st.push(*sc);
            assert forall|j: int| 0 <= j < idx + 1 implies destroy_state(#[trigger] st[j], st[j + 1], b@[j],
                replies@[j]) by {
                if j < idx {
                    assert(st[j] == st0[j] && st[j + 1] == st0[j + 1]);
                } else {
                    assert(st[j] == before);
                }
            }
            let l = before.cache_list@;
            assert(l.no_duplicates());
            assert forall|x: usize| x != a implies (sc.cache_list@.contains(x) <==> l.contains(x)) by {
                if a != 0 && replies@[idx as int] == 0 {
                    lemma_remove_keeps_others(l, a, x);
                }
            }
            if a != 0 && replies@[idx as int] == 0 {
                lemma_remove_keeps_others(l, a, a);
            }
            assert(sc.calls@.subrange(0, before.calls@.len() as int) == before.calls@);
            assert(sc.calls@.subrange(0, old(sc).calls@.len() as int) =~= old(sc).calls@);
            assert forall|j: int| idx + 1 <= j < b@.len() implies destroy_ok(*sc, #[trigger] b@[j]) && (
            b@[j] != 0 ==> sc.cache(b@[j]).refcount == 1) by {
                assert(destroy_ok(before, b@[j]));
                if b@[j] != 0 {
                    if a != 0 {
                        assert(b@[j] != a);
                        if before.cache(a).refcount - 1 == 0 {
                            lemma_remove_keeps_others(l, a, b@[j]);
                        }
                    }
                }
            }
            assert forall|j: int| 0 <= j <= idx && #[trigger] b@[j] != 0 implies (sc.cache_list@.contains(b@[j])
                <==> replies@[j] != 0) by {
                if j < idx {
                    assert(b@[j] != a);
                }
            }
            assert forall|x: usize| #[trigger] old(sc).cache_list@.contains(x) && !b@.contains(x)
                implies sc.cache_list@.contains(x) by {
                if x == a {
                    assert(b@[idx as int] == x);
                }
            }
        }
        idx = idx + 1;
    }
    let ghost last = *sc;
    sc.call(KernelCall::Kfree { addr: array });
    proof {
        assert(sc.calls@.subrange(0, old(sc).calls@.len() as int) =~= old(sc).calls@);
        assert(st.last() == last);
        assert(destroy_chain(st, b@, replies@));
        reveal(teardown);
    }
}

/// Sets up the bucket of index `idx`: when the normal kmalloc cache of that
/// index is set up, a cache of its object size, never merged, with the
/// user-copy region cut to the object.  Returns `Some` of the new cache (0
/// when there is no kmalloc cache to follow), or `None` when a step fails.
#[verifier::rlimit(40)]
fn bucket_step(
    sc: &mut SlabCommon,
    idx: usize,
    name: usize,
    flags: u32,
    useroffset: u32,
    usersize: u32,
    ctor: usize,
    rep: BucketReplies,
) -> (r: Option<usize>)
    requires
        old(sc).wf(),
        idx < KMALLOC_SLOTS,
        old(sc).caches@.len() + 1 < MAX_CACHES,
        old(sc).kmalloc_cache(0, idx as int) != 0 ==> old(sc).live(old(sc).kmalloc_cache(0, idx as int)),
        allocator_answer_ok(rep.create.new_cache),
        rep.create.alias == 0,
    ensures
        final(sc).wf(),
        final(sc).same_tables(old(sc)),
        final(sc).calls@ == old(sc).calls@ + bucket_step_calls(
            *old(sc),
            idx as int,
            old(sc).next_addr(),
            name,
            flags,
            useroffset,
            usersize,
            ctor,
            rep,
        ),
        r is Some <==> bucket_step_ok(*old(sc), idx as int, flags, useroffset, usersize, rep),
        bucket_size(*old(sc), idx as int) == 0 ==> r == Some(0usize) && final(sc).same_caches(old(sc)),
        bucket_size(*old(sc), idx as int) != 0 && r is Some ==> {
            &&& r == Some(old(sc).next_addr())
            &&& final(sc).caches@ == old(sc).caches@.push(
                Some(bucket_record(*old(sc), idx as int, flags, useroffset, usersize, ctor, rep)),
            )
            &&& final(sc).cache_list@ == seq![old(sc).next_addr()] + old(sc).cache_list@
        },
        r is None ==> {
            &&& final(sc).cache_list@ == old(sc).cache_list@
            &&& final(sc).caches@.len() >= old(sc).caches@.len()
            &&& forall|i: int|
                0 <= i < old(sc).caches@.len() ==> #[trigger] final(sc).caches@[i] == old(sc).caches@[i]
        },
{
    proof {
        assert(0 * KMALLOC_SLOTS + idx == idx);
    }
    let kc = sc.kmalloc_caches[idx];
    if kc == 0 {
        proof {
            assert(sc.calls@ =~= old(sc).calls@);
        }
        return Some(0);
    }
    let size: u32 = sc.get_cache(kc).object_size;
    if size == 0 {
        proof {
            assert(sc.calls@ =~= old(sc).calls@);
        }
        return Some(0);
    }
    let kname = sc.get_cache(kc).name;
    sc.call(KernelCall::Strchr { name: kname });
    if rep.strchr == 0 {
        proof {
            assert(sc.calls@ =~= old(sc).calls@ + bucket_step_calls(*old(sc), idx as int,
                old(sc).next_addr(), name, flags, useroffset, usersize, ctor, rep));
        }
        return None;
    }
    sc.call(KernelCall::Kasprintf { prefix: name, dash: rep.strchr });
    let cache_name = rep.kasprintf;
    if cache_name == 0 {
        proof {
            assert(sc.calls@ =~= old(sc).calls@ + bucket_step_calls(*old(sc), idx as int,
                old(sc).next_addr(), name, flags, useroffset, usersize, ctor, rep));
        }
        return None;
    }
    let cache_useroffset: u32;
    let cache_usersize: u32;
    if useroffset >= size {
        cache_useroffset = 0;
        cache_usersize = 0;
    } else {
        cache_useroffset = useroffset;
        if size - cache_useroffset <= usersize {
            cache_usersize = size - cache_useroffset;
        } else {
            cache_usersize = usersize;
        }
    }
    let bflags = flags | SLAB_NO_MERGE;
    proof {
        assert((cache_useroffset, cache_usersize) == bucket_region(size, useroffset, usersize));
    }
    let ghost before = *sc;
    let c = kmem_cache_create_usercopy(
        sc,
        cache_name,
        size,
        0,
        bflags,
        cache_useroffset,
        cache_usersize,
        ctor,
        rep.create,
    );
    sc.call(KernelCall::Kfree { addr: cache_name });
    proof {
        assert(sc.calls@ =~= old(sc).calls@ + bucket_step_calls(*old(sc), idx as int,
            old(sc).next_addr(), name, flags, useroffset, usersize, ctor, rep));
    }
    if c == 0 {
        return None;
    }
    proof {
        assert(usercopy_reaches_create(bflags, size, cache_useroffset, cache_usersize, rep.create));
    }
    Some(c)
}

/// A state that keeps the kmalloc tables and the records of `old` sees the
/// bucket of index `i` as `old` does.
proof fn lemma_step_as_before(
    old: SlabCommon,
    cur: SlabCommon,
    i: int,
    name: usize,
    flags: u32,
    useroffset: u32,
    usersize: u32,
    ctor: usize,
    rep: BucketReplies,
)
    requires
        old.wf(),
        cur.same_tables(&old),
        0 <= i < KMALLOC_SLOTS,
        old.kmalloc_cache(0, i) != 0 ==> old.live(old.kmalloc_cache(0, i)),
        forall|j: int| 0 <= j < old.caches@.len() ==> cur.caches@[j] == old.caches@[j],
        cur.caches@.len() == old.caches@.len() + created_before(old, i as nat),
    ensures
        bucket_size(cur, i) == bucket_size(old, i),
        cur.next_addr() == bucket_addr(old, i),
        bucket_addr(old, i) >= old.next_addr(),
        bucket_step_calls(cur, i, cur.next_addr(), name, flags, useroffset, usersize, ctor, rep)
            == bucket_step_calls(old, i, bucket_addr(old, i), name, flags, useroffset, usersize, ctor, rep),
        bucket_step_ok(cur, i, flags, useroffset, usersize, rep) == bucket_step_ok(old, i, flags, useroffset, usersize, rep),
        bucket_record(cur, i, flags, useroffset, usersize, ctor, rep) == bucket_record(old, i, flags,
            useroffset, usersize, ctor, rep),
{
    let kc = old.kmalloc_cache(0, i);
    assert(cur.kmalloc_cache(0, i) == kc);
    if kc != 0 {
        assert(cur.caches@[kc - 4] == old.caches@[kc - 4]);
    }
    lemma_created_before_bound(old, i as nat);
}

/// Creates a set of caches for dynamically sized allocations: one per
/// normal kmalloc cache, with that cache's object size, never merged, and
/// with the user-copy region cut to the object.  `array` is the answer of
/// the allocation of the bucket array (0 when none could be had),
/// `replies` the answers for each index (a cache flagged `SLAB_NO_MERGE`
/// is never an alias of another, so the alias lookups find none) and
/// `shutdown_replies` those of `__kmem_cache_shutdown` when a failed set is
/// destroyed.  Returns the array's address and its entries, or 0 when the
/// set could not be made; then each printed name has been freed, every
/// entry of the array is destroyed in order with `kmem_cache_destroy`
/// (`teardown`: a cache made so far leaves the list of all caches unless
/// its shutdown is refused) and the array is freed last.  The array is
/// asked of `kmem_buckets_cache` whatever that holds, 0 included: no test
/// of the buckets cache comes first.
#[verifier::rlimit(100)]
pub fn kmem_buckets_create(
    sc: &mut SlabCommon,
    name: usize,
    flags: u32,
    useroffset: u32,
    usersize: u32,
    ctor: usize,
    array: usize,
    replies: &Vec<BucketReplies>,
    shutdown_replies: &Vec<i32>,
) -> (r: (usize, Vec<usize>))
    requires
        old(sc).wf(),
        old(sc).caches@.len() + KMALLOC_SLOTS + 1 < MAX_CACHES,
        replies@.len() == KMALLOC_SLOTS,
        shutdown_replies@.len() == KMALLOC_SLOTS,
        forall|i: int|
            0 <= i < KMALLOC_SLOTS ==> old(sc).kmalloc_cache(0, i) != 0 ==> old(sc).live(
                #[trigger] old(sc).kmalloc_cache(0, i),
            ),
        forall|i: int|
            0 <= i < KMALLOC_SLOTS ==> allocator_answer_ok((#[trigger] replies@[i]).create.new_cache)
                && replies@[i].create.alias == 0,
    ensures
        final(sc).wf(),
        final(sc).same_tables(old(sc)),
        !CONFIG_SLAB_BUCKETS ==> r.0 == 16,
        CONFIG_SLAB_BUCKETS ==> (r.0 != 0 <==> array != 0 && buckets_ok_below(
            *old(sc),
            KMALLOC_SLOTS as int,
            flags,
            useroffset,
            usersize,
            replies@,
        )),
        CONFIG_SLAB_BUCKETS && array == 0 ==> final(sc).calls@ == old(sc).calls@.push(
            KernelCall::BucketsAlloc { cache: old(sc).kmem_buckets_cache },
        ),
        CONFIG_SLAB_BUCKETS && array != 0 && r.0 == 0 ==> {
            &&& final(sc).calls@.last() == (KernelCall::Kfree { addr: array })
            &&& forall|x: usize|
                #[trigger] old(sc).cache_list@.contains(x) ==> final(sc).cache_list@.contains(x)
            &&& forall|f: int|
                0 <= f < KMALLOC_SLOTS && buckets_ok_below(
                    *old(sc),
                    f,
                    flags,
                    useroffset,
                    usersize,
                    replies@,
                ) && !bucket_step_ok(*old(sc), f, flags, useroffset, usersize, #[trigger] replies@[f])
                    ==> {
                    let done = old(sc).calls@.push(
                        KernelCall::BucketsAlloc { cache: old(sc).kmem_buckets_cache },
                    ) + buckets_calls(
                        *old(sc),
                        f as nat,
                        name,
                        flags,
                        useroffset,
                        usersize,
                        ctor,
                        replies@,
                    ) + bucket_step_calls(
                        *old(sc),
                        f,
                        bucket_addr(*old(sc), f),
                        name,
                        flags,
                        useroffset,
                        usersize,
                        ctor,
                        replies@[f],
                    );
                    &&& final(sc).calls@.len() > done.len()
                    &&& final(sc).calls@.subrange(0, done.len() as int) == done
                    &&& exists|mid: SlabCommon|
                        #[trigger] failure_state(
                            *old(sc),
                            mid,
                            f,
                            done,
                            flags,
                            useroffset,
                            usersize,
                            ctor,
                            replies@,
                        ) && teardown(
                            mid,
                            *final(sc),
                            failed_entries(*old(sc), f),
                            shutdown_replies@,
                            array,
                        )
                    &&& forall|j: int|
                        0 <= j < f && bucket_size(*old(sc), j) != 0 ==> (final(sc).cache_list@.contains(#[trigger] bucket_addr(*old(sc), j))
                            <==> shutdown_replies@[j] != 0)
                }
        },
        CONFIG_SLAB_BUCKETS && r.0 != 0 ==> {
            &&& r.0 == array
            &&& final(sc).calls@ == old(sc).calls@.push(
                KernelCall::BucketsAlloc { cache: old(sc).kmem_buckets_cache },
            ) + buckets_calls(
                *old(sc),
                KMALLOC_SLOTS as nat,
                name,
                flags,
                useroffset,
                usersize,
                ctor,
                replies@,
            )
            &&& r.1@.len() == KMALLOC_SLOTS
            &&& forall|i: int|
                0 <= i < KMALLOC_SLOTS ==> #[trigger] r.1@[i] == (if bucket_size(*old(sc), i) == 0 {
                    0
                } else {
                    bucket_addr(*old(sc), i)
                })
            &&& forall|i: int|
                0 <= i < KMALLOC_SLOTS ==> (#[trigger] r.1@[i] == 0 <==> bucket_size(*old(sc), i)
                    == 0)
            &&& final(sc).caches@.len() == old(sc).caches@.len() + created_before(
                *old(sc),
                KMALLOC_SLOTS as nat,
            )
            &&& forall|j: int|
                0 <= j < old(sc).caches@.len() ==> #[trigger] final(sc).caches@[j] == old(sc).caches@[j]
            &&& forall|i: int|
                0 <= i < KMALLOC_SLOTS && #[trigger] r.1@[i] != 0 ==> {
                    &&& final(sc).live(r.1@[i])
                    &&& final(sc).cache_list@.contains(r.1@[i])
                    &&& final(sc).cache(r.1@[i]) == bucket_record(
                        *old(sc),
                        i,
                        flags,
                        useroffset,
                        usersize,
                        ctor,
                        replies@[i],
                    )
                }
        },
{
    if !CONFIG_SLAB_BUCKETS {
        return (16, Vec::new());
    }
    sc.call(KernelCall::BucketsAlloc { cache: sc.kmem_buckets_cache });
    if array == 0 {
        return (0, Vec::new());
    }
    let mut b: Vec<usize> = Vec::new();
    let mut k: usize = 0;
    while k < KMALLOC_SLOTS
        invariant
            k <= KMALLOC_SLOTS,
            b@.len() == k,
            forall|j: int| 0 <= j < k ==> b@[j] == 0,
        decreases KMALLOC_SLOTS - k,
    {
        b.push(0);
        k = k + 1;
    }
    let mut idx: usize = 0;
    while idx < KMALLOC_SLOTS
        invariant
            sc.wf(),
            old(sc).wf(),
            sc.same_tables(old(sc)),
            idx <= KMALLOC_SLOTS,
            array != 0,
            sc.caches@.len() == old(sc).caches@.len() + created_before(*old(sc), idx as nat),
            created_before(*old(sc), idx as nat) <= idx,
            sc.calls@ == old(sc).calls@.push(
                KernelCall::BucketsAlloc { cache: old(sc).kmem_buckets_cache },
            ) + buckets_calls(
                *old(sc),
                idx as nat,
                name,
                flags,
                useroffset,
                usersize,
                ctor,
                replies@,
            ),
            old(sc).caches@.len() + KMALLOC_SLOTS + 1 < MAX_CACHES,
            forall|j: int| 0 <= j < old(sc).caches@.len() ==> sc.caches@[j] == old(sc).caches@[j],
            forall|x: usize| #[trigger] old(sc).cache_list@.contains(x) ==> sc.cache_list@.contains(x),
            forall|x: usize| #[trigger] old(sc).cache_list@.contains(x) ==> x < old(sc).next_addr(),
            b@.len() == KMALLOC_SLOTS,
            replies@.len() == KMALLOC_SLOTS,
            shutdown_replies@.len() == KMALLOC_SLOTS,
            forall|j: int| idx <= j < KMALLOC_SLOTS ==> b@[j] == 0,
            forall|j: int|
                0 <= j < idx ==> #[trigger] b@[j] == (if bucket_size(*old(sc), j) == 0 {
                    0
                } else {
                    bucket_addr(*old(sc), j)
                }),
            forall|j: int|
                0 <= j < idx && #[trigger] b@[j] != 0 ==> {
                    &&& b@[j] >= old(sc).next_addr()
                    &&& sc.live(b@[j])
                    &&& sc.cache_list@.contains(b@[j])
                    &&& sc.cache(b@[j]) == bucket_record(
                        *old(sc),
                        j,
                        flags,
                        useroffset,
                        usersize,
                        ctor,
                        replies@[j],
                    )
                },
            buckets_ok_below(*old(sc), idx as int, flags, useroffset, usersize, replies@),
            buckets_destroyable(*sc, b@, 0),
            forall|i: int|
                0 <= i < KMALLOC_SLOTS ==> old(sc).kmalloc_cache(0, i) != 0 ==> old(sc).live(
                    #[trigger] old(sc).kmalloc_cache(0, i),
                ),
            forall|i: int|
                0 <= i < KMALLOC_SLOTS ==> allocator_answer_ok((#[trigger] replies@[i]).create.new_cache)
                    && replies@[i].create.alias == 0,
        decreases KMALLOC_SLOTS - idx,
    {
        let ghost before = *sc;
        let ghost i = idx as int;
        proof {
            lemma_step_as_before(*old(sc), *sc, i, name, flags, useroffset, usersize, ctor, replies@[i]);
        }
        let step = bucket_step(sc, idx, name, flags, useroffset, usersize, ctor, replies[idx]);
        match step {
            None => {
                proof {
                    assert forall|j: int| 0 <= j < b@.len() && b@[j] != 0 implies #[trigger] sc.live(b@[j])
                        && sc.cache(b@[j]) == before.cache(b@[j]) && sc.cache_list@.contains(b@[j]) by {
                        assert(before.live(b@[j]));
                    }
                    assert(buckets_destroyable(*sc, b@, 0));
                }
                let ghost done = sc.calls@;
                let ghost pre = *sc;
                proof {
                    assert(failure_state(*old(sc), pre, i, done, flags, useroffset, usersize, ctor,
                        replies@)) by {
                        reveal(failure_state);
                        assert forall|j: int| 0 <= j < i && bucket_size(*old(sc), j) != 0 implies {
                            &&& pre.live(#[trigger] bucket_addr(*old(sc), j))
                            &&& pre.cache_list@.contains(bucket_addr(*old(sc), j))
                            &&& pre.cache(bucket_addr(*old(sc), j)) == bucket_record(*old(sc), j,
                                flags, useroffset, usersize, ctor, replies@[j])
                        } by {
                            lemma_created_before_bound(*old(sc), j as nat);
                            assert(b@[j] == bucket_addr(*old(sc), j));
                        }
                    }
                    assert(b@ =~= failed_entries(*old(sc), i)) by {
                        assert forall|j: int| 0 <= j < KMALLOC_SLOTS implies b@[j] == failed_entries(
                            *old(sc),
                            i,
                        )[j] by {
                            if j < i {
                                assert(b@[j] == (if bucket_size(*old(sc), j) == 0 {
                                    0
                                } else {
                                    bucket_addr(*old(sc), j)
                                }));
                            }
                        }
                    }
                }
                release_buckets(sc, array, &b, shutdown_replies);
                proof {
                    assert forall|f: int|
                        0 <= f < KMALLOC_SLOTS && buckets_ok_below(*old(sc), f, flags, useroffset,
                            usersize, replies@) && !bucket_step_ok(*old(sc), f, flags, useroffset,
                            usersize, #[trigger] replies@[f]) implies f == i by {
                        if f < i {
                            assert(bucket_step_ok(*old(sc), f, flags, useroffset, usersize, replies@[f]));
                        }
                        if f > i {
                            assert(bucket_step_ok(*old(sc), i, flags, useroffset, usersize, replies@[i]));
                        }
                    }
                    assert(sc.calls@.subrange(0, done.len() as int) == done);
                    assert forall|x: usize| #[trigger] old(sc).cache_list@.contains(x) implies sc.cache_list@.contains(x) by {
                        if b@.contains(x) {
                            let j = choose|j: int| 0 <= j < b@.len() && b@[j] == x;
                            assert(b@[j] >= old(sc).next_addr());
                        }
                    }
                    assert forall|j: int| 0 <= j < i && bucket_size(*old(sc), j) != 0 implies (
                        sc.cache_list@.contains(#[trigger] bucket_addr(*old(sc), j))
                            <==> shutdown_replies@[j] != 0) by {
                        assert(b@[j] == bucket_addr(*old(sc), j));
                        lemma_created_before_bound(*old(sc), j as nat);
                    }
                }
                return (0, Vec::new());
            },
            Some(c) => {
                let ghost b_before = b@;
                b.set(idx, c);
                proof {
                    if bucket_size(*old(sc), i) != 0 {
                        assert(c == before.next_addr());
                        assert(sc.live(c));
                        assert(sc.cache_list@.contains(c)) by {
                            assert(sc.cache_list@[0] == c);
                        }
                        assert forall|j: int| 0 <= j < b@.len() && b@[j] != 0 && j != i implies #[trigger] b@[j]
                            < before.next_addr() && sc.live(b@[j]) && sc.cache(b@[j]) == before.cache(b@[j])
                            && sc.cache_list@.contains(b@[j]) by {
                            assert(b@[j] == b_before[j]);
                            assert(destroy_ok(before, b_before[j]));
                            assert(before.live(b_before[j]));
                            let k = before.cache_list@.index_of(b@[j]);
                            assert(sc.cache_list@[k + 1] == b@[j]);
                        }
                        assert forall|x: usize| #[trigger] old(sc).cache_list@.contains(x) implies sc.cache_list@.contains(x) by {
                            assert(before.cache_list@.contains(x));
                            let k = before.cache_list@.index_of(x);
                            assert(sc.cache_list@[k + 1] == x);
                        }
                    } else {
                        assert(c == 0);
                    }
                    assert(buckets_destroyable(*sc, b@, 0));
                    lemma_created_before_bound(*old(sc), i as nat);
                    assert(sc.calls@ =~= old(sc).calls@.push(
                        KernelCall::BucketsAlloc { cache: old(sc).kmem_buckets_cache },
                    ) + buckets_calls(*old(sc), (idx + 1) as nat, name, flags, useroffset, usersize,
                        ctor, replies@));
                }
            },
        }
        idx = idx + 1;
    }
    proof {
        assert forall|i: int| 0 <= i < KMALLOC_SLOTS implies (#[trigger] b@[i] == 0 <==> bucket_size(
            *old(sc),
            i,
        ) == 0) by {
            lemma_created_before_bound(*old(sc), i as nat);
        }
    }
    (array, b)
}

/// Each bucket cache is created under the name printed for it (the
/// `kasprintf` answer, the prefix followed by the size), not under the
/// caller's prefix: that printed name is what the name copy is made of.
pub proof fn law_bucket_cache_named_by_kasprintf(
    sc: SlabCommon,
    idx: int,
    next: usize,
    name: usize,
    flags: u32,
    useroffset: u32,
    usersize: u32,
    ctor: usize,
    rep: BucketReplies,
)
    requires
        bucket_size(sc, idx) != 0,
        rep.strchr != 0,
        rep.kasprintf != 0,
        !crate::create::flags_refused(flags | SLAB_NO_MERGE),
        rep.create.alias == 0,
    ensures
        bucket_step_calls(sc, idx, next, name, flags, useroffset, usersize, ctor, rep).contains(
            KernelCall::KstrdupConst { name: rep.kasprintf },
        ),
{
    let size = bucket_size(sc, idx);
    let region = bucket_region(size, useroffset, usersize);
    let bflags = flags | SLAB_NO_MERGE;
    let cflags = bflags & CACHE_CREATE_MASK;
    let kept = usercopy_region(size, region.0, region.1);
    let alias = if kept.1 == 0 {
        seq![KernelCall::CacheAlias { name: rep.kasprintf, size, align: 0, flags: cflags, ctor }]
    } else {
        Seq::<KernelCall>::empty()
    };
    let dup = seq![KernelCall::KstrdupConst { name: rep.kasprintf }];
    let locked = crate::create::locked_calls(
        next,
        rep.kasprintf,
        size,
        0,
        cflags,
        kept,
        ctor,
        rep.create,
    );
    let tail = locked.subrange(alias.len() + 1int, locked.len() as int);
    assert(locked =~= alias + dup + tail);
    let start = crate::create::debug_setup_calls(bflags) + seq![KernelCall::MutexLock];
    let uc = usercopy_calls(next, rep.kasprintf, size, 0, bflags, region.0, region.1, ctor, rep.create);
    assert(uc == start + locked);
    let calls = bucket_step_calls(sc, idx, next, name, flags, useroffset, usersize, ctor, rep);
    let head = seq![
        KernelCall::Strchr { name: sc.cache(sc.kmalloc_cache(0, idx)).name },
        KernelCall::Kasprintf { prefix: name, dash: rep.strchr },
    ];
    assert(calls =~= head + uc + seq![KernelCall::Kfree { addr: rep.kasprintf }]);
    let k = head.len() + start.len() + alias.len();
    assert(calls[k as int] == KernelCall::KstrdupConst { name: rep.kasprintf });
}

} // verus!
