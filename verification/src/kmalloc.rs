//! The kmalloc size classes: size-to-index mapping, rounding of request
//! sizes, and setting up the kmalloc caches.
use vstd::prelude::*;
use vstd::arithmetic::power2::{pow2, lemma_pow2_unfold, lemma2_to64};
use vstd::std_specs::bits::{u32_leading_zeros, axiom_u32_leading_zeros};
use vstd::bits::{lemma_u32_shl_is_mul, lemma_u32_shr_is_div, lemma_u32_pow2_no_overflow};
use crate::flags::{
    KMALLOC_MIN_SIZE, KMALLOC_SHIFT_LOW, PAGE_SIZE, KMALLOC_MAX_CACHE_SIZE, KMALLOC_MAX_SIZE,
    KMALLOC_NORMAL,
};
use crate::registry::{SlabCommon, KMALLOC_SLOTS};

verus! {

/// Entry of the small-size index table for a request of `bytes` bytes.
pub fn size_index_elem(bytes: u32) -> (r: u32)
    requires
        bytes >= 1,
    ensures
        r == (bytes - 1) / 8,
{
    (bytes - 1) / 8
}

/// Object size of kmalloc size class `i`: 96 and 192 for classes 1 and 2,
/// `2^i` for classes 3 to 21, and 0 for any other.
pub open spec fn kmalloc_class_size(i: int) -> int {
    if i == 1 {
        96
    } else if i == 2 {
        192
    } else if 3 <= i <= 21 {
        pow2(i as nat) as int
    } else {
        0
    }
}

/// Largest request a kmalloc size class holds.
pub const KMALLOC_LARGEST_CLASS: usize = 0x20_0000;

/// Class `i` exists and holds `size` bytes.
pub open spec fn class_fits(i: int, size: int) -> bool {
    1 <= i <= 21 && kmalloc_class_size(i) >= size
}

/// `i` is the smallest size class that holds `size` bytes.
pub open spec fn is_smallest_fit(i: int, size: int) -> bool {
    &&& class_fits(i, size)
    &&& forall|j: int| #[trigger] class_fits(j, size) ==> kmalloc_class_size(i) <= kmalloc_class_size(j)
}

proof fn lemma_class_sizes()
    ensures
        kmalloc_class_size(1) == 96,
        kmalloc_class_size(2) == 192,
        kmalloc_class_size(3) == 8,
        kmalloc_class_size(4) == 16,
        kmalloc_class_size(5) == 32,
        kmalloc_class_size(6) == 64,
        kmalloc_class_size(7) == 128,
        kmalloc_class_size(8) == 256,
        kmalloc_class_size(9) == 512,
        kmalloc_class_size(10) == 1024,
        kmalloc_class_size(11) == 2048,
        kmalloc_class_size(12) == 4096,
        kmalloc_class_size(13) == 8192,
        kmalloc_class_size(14) == 16384,
        kmalloc_class_size(15) == 32768,
        kmalloc_class_size(16) == 65536,
        kmalloc_class_size(17) == 131072,
        kmalloc_class_size(18) == 262144,
        kmalloc_class_size(19) == 524288,
        kmalloc_class_size(20) == 1048576,
        kmalloc_class_size(21) == 2097152,
{
    lemma2_to64();
}

/// Index of the kmalloc size class for a request of `size` bytes: 0 for
/// no bytes, the smallest class that holds the request, or `u32::MAX`
/// when no class does.
pub open spec fn kmalloc_index_spec(size: int) -> u32 {
    if size == 0 {
        0
    } else if size > KMALLOC_LARGEST_CLASS {
        u32::MAX
    } else {
        choose|i: u32| is_smallest_fit(i as int, size)
    }
}

/// Two classes that are both the smallest to hold a size are the same.
pub proof fn lemma_smallest_fit_unique(i: int, j: int, size: int)
    requires
        is_smallest_fit(i, size),
        is_smallest_fit(j, size),
    ensures
        i == j,
{
    lemma_class_sizes();
    assert(kmalloc_class_size(i) <= kmalloc_class_size(j));
    assert(kmalloc_class_size(j) <= kmalloc_class_size(i));
}

/// Index of the kmalloc size class for a request of `size` bytes (see
/// `kmalloc_index_spec`).
pub fn __kmalloc_index(size: usize, size_is_constant: bool) -> (r: u32)
    ensures
        r == kmalloc_index_spec(size as int),
        0 < size <= KMALLOC_LARGEST_CLASS ==> is_smallest_fit(r as int, size as int),
        size == 0 ==> r == 0,
        size > KMALLOC_LARGEST_CLASS ==> r == u32::MAX,
        0 < size <= KMALLOC_LARGEST_CLASS ==> is_smallest_fit(r as int, size as int),
{
    let r = kmalloc_index_chain(size);
    proof {
        if 0 < size <= KMALLOC_LARGEST_CLASS {
            let c = choose|i: u32| is_smallest_fit(i as int, size as int);
            assert(is_smallest_fit(r as int, size as int));
            lemma_smallest_fit_unique(c as int, r as int, size as int);
        }
    }
    r
}

/// The chain of size tests behind `__kmalloc_index`.
fn kmalloc_index_chain(size: usize) -> (r: u32)
    ensures
        size == 0 ==> r == 0,
        size > KMALLOC_LARGEST_CLASS ==> r == u32::MAX,
        0 < size <= KMALLOC_LARGEST_CLASS ==> is_smallest_fit(r as int, size as int),
{
    proof {
        lemma_class_sizes();
    }
    if size == 0 {
        return 0;
    }
    if size <= KMALLOC_MIN_SIZE as usize {
        return KMALLOC_SHIFT_LOW;
    }
    if KMALLOC_MIN_SIZE <= 32 && size > 64 && size <= 96 {
        return 1;
    }
    if KMALLOC_MIN_SIZE <= 64 && size > 128 && size <= 192 {
        return 2;
    }
    if size <= 8 {
        return 3;
    }
    if size <= 16 {
        return 4;
    }
    if size <= 32 {
        return 5;
    }
    if size <= 64 {
        return 6;
    }
    if size <= 128 {
        return 7;
    }
    if size <= 256 {
        return 8;
    }
    if size <= 512 {
        return 9;
    }
    if size <= 1024 {
        return 10;
    }
    if size <= 2 * 1024 {
        return 11;
    }
    if size <= 4 * 1024 {
        return 12;
    }
    if size <= 8 * 1024 {
        return 13;
    }
    if size <= 16 * 1024 {
        return 14;
    }
    if size <= 32 * 1024 {
        return 15;
    }
    if size <= 64 * 1024 {
        return 16;
    }
    if size <= 128 * 1024 {
        return 17;
    }
    if size <= 256 * 1024 {
        return 18;
    }
    if size <= 512 * 1024 {
        return 19;
    }
    if size <= 1024 * 1024 {
        return 20;
    }
    if size <= 2 * 1024 * 1024 {
        return 21;
    }
    return u32::MAX;
}

/// Position of the highest set bit of `x`, counting from one; 0 for 0.
pub open spec fn fls_spec(x: u32) -> u32 {
    if x == 0 {
        0
    } else {
        (32 - u32_leading_zeros(x)) as u32
    }
}

/// Bytes in `2^order` pages.
pub open spec fn order_bytes(order: nat) -> int {
    PAGE_SIZE * pow2(order)
}

/// Bounds of a number by the position of its highest set bit.
pub proof fn lemma_fls_bounds(x: u32)
    requires
        x != 0,
    ensures
        1 <= fls_spec(x) <= 32,
        pow2((fls_spec(x) - 1) as nat) <= x,
        fls_spec(x) < 32 ==> x < pow2(fls_spec(x) as nat),
{
    axiom_u32_leading_zeros(x);
    let f = fls_spec(x);
    let lz = u32_leading_zeros(x);
    let k = (f - 1) as u32;
    assert(k == (31 - lz) as u32);
    lemma_u32_shr_is_div(x, k);
    assert((x >> k) & 1 != 0);
    assert((x >> k) & 1 != 0 ==> (x >> k) >= 1) by (bit_vector);
    vstd::arithmetic::power2::lemma_pow2_pos(k as nat);
    vstd::arithmetic::div_mod::lemma_fundamental_div_mod(x as int, pow2(k as nat) as int);
    assert(pow2(k as nat) <= x) by (nonlinear_arith)
        requires
            x as int / pow2(k as nat) as int >= 1,
            pow2(k as nat) > 0,
            x as int == pow2(k as nat) * (x as int / pow2(k as nat) as int) + x as int % pow2(
                k as nat,
            ) as int,
            x as int % pow2(k as nat) as int >= 0,
    ;
    if f < 32 {
        assert(x >> f == 0);
        lemma_u32_shr_is_div(x, f);
        vstd::arithmetic::power2::lemma_pow2_pos(f as nat);
        vstd::arithmetic::div_mod::lemma_fundamental_div_mod(x as int, pow2(f as nat) as int);
    }
}

/// Index of the kmalloc cache a request of `size` bytes is served from: the
/// small-size table up to 192 bytes, else the position of the highest set
/// bit of `size - 1`.
pub open spec fn kmalloc_slab_index(sc: SlabCommon, size: usize) -> int {
    if size <= 192 {
        sc.kmalloc_size_index@[(size - 1) / 8] as int
    } else {
        fls_spec((size - 1) as u32) as int
    }
}

/// Requests of `size` bytes can be looked up among the kmalloc caches:
/// taken as 32 bits, the size is between 1 and `KMALLOC_MAX_CACHE_SIZE`.
pub open spec fn kmalloc_slab_ok(size: usize) -> bool {
    1 <= size as u32 <= KMALLOC_MAX_CACHE_SIZE
}

proof fn lemma_slab_index_in_range(sc: SlabCommon, size: usize)
    requires
        sc.wf(),
        kmalloc_slab_ok(size),
    ensures
        size >= 1,
        0 <= kmalloc_slab_index(sc, size) < KMALLOC_SLOTS,
        size > 192 ==> (size - 1) as u32 == (size as u32) - 1,
{
    assert(size as u32 >= 1 ==> size >= 1) by (bit_vector);
    if size > 192 {
        assert(size as u32 >= 1u32 ==> ((size - 1) as u32) as int == (size as u32) as int - 1)
            by (bit_vector);
        let x = (size - 1) as u32;
        if x != 0 {
            lemma_fls_bounds(x);
            lemma2_to64();
            let f = fls_spec(x);
            if f >= 15 {
                vstd::arithmetic::power2::lemma_pow2_strictly_increases(13, (f - 1) as nat);
            }
        }
    } else {
        assert(sc.kmalloc_size_index@[(size - 1) / 8] < KMALLOC_SLOTS);
    }
}

/// What `kmalloc_size_roundup` answers for a request of `size` bytes, when
/// `slab` is the kmalloc cache that serves it (0 when there is none) and
/// `order` the page order of a block that holds it: the object size of
/// that cache, when there is one and the request is at most
/// `KMALLOC_MAX_CACHE_SIZE`; else, up to `KMALLOC_MAX_SIZE`, the bytes of
/// the page block; else (0 or very large sizes) the size itself.
pub open spec fn roundup_spec(sc: SlabCommon, size: usize, slab: usize, order: u32) -> int {
    if size != 0 && size <= KMALLOC_MAX_CACHE_SIZE && slab != 0 {
        sc.cache(slab).object_size as int
    } else if size != 0 && size <= KMALLOC_MAX_SIZE {
        order_bytes(order as nat)
    } else {
        size as int
    }
}

/// Size of the allocation that a request of `size` bytes actually gets.
/// `slab` is the answer of `kmalloc_slab` for the request (the normal
/// kmalloc cache that serves it, or 0) and `order` that of `get_order`.
pub fn kmalloc_size_roundup(sc: &SlabCommon, size: usize, slab: usize, order: u32) -> (r: usize)
    requires
        size != 0 && size <= KMALLOC_MAX_CACHE_SIZE && slab != 0 ==> sc.live(slab),
        size != 0 && size <= KMALLOC_MAX_SIZE ==> order < 20,
    ensures
        r == roundup_spec(*sc, size, slab, order),
{
    if size != 0 && size <= KMALLOC_MAX_CACHE_SIZE as usize {
        if slab != 0 {
            return sc.get_cache(slab).object_size as usize;
        }
    }
    if size != 0 && size <= KMALLOC_MAX_SIZE as usize {
        proof {
            lemma2_to64();
            lemma_u32_pow2_no_overflow(order as nat);
            if order < 19 {
                vstd::arithmetic::power2::lemma_pow2_strictly_increases(order as nat, 19);
            }
            assert(PAGE_SIZE * pow2(order as nat) < 0x1_0000_0000) by (nonlinear_arith)
                requires
                    pow2(order as nat) <= pow2(19),
                    pow2(19) == 0x8_0000,
                    PAGE_SIZE == 4096,
            ;
            lemma_u32_shl_is_mul(PAGE_SIZE, order);
        }
        return (PAGE_SIZE << order) as usize;
    }
    size
}

/// The smallest class that holds at most 8192 bytes has index at most 13.
pub proof fn lemma_small_fit_index(i: int, size: int)
    requires
        is_smallest_fit(i, size),
        size <= 8192,
    ensures
        1 <= i <= 13,
{
    lemma_class_sizes();
    assert(class_fits(13, size));
}

/// The smallest class for a size of `lo + 1` to `hi` bytes is `i`, when
/// class `i` holds `hi` bytes and no class holds between `lo + 1` and
/// `hi - 1` bytes but the larger ones.
proof fn lemma_smallest_fit_range(i: int, size: int)
    requires
        1 <= size <= 8192,
        i == (if size <= 8 {
            3int
        } else if size <= 16 {
            4
        } else if size <= 32 {
            5
        } else if size <= 64 {
            6
        } else if size <= 96 {
            1
        } else if size <= 128 {
            7
        } else if size <= 192 {
            2
        } else if size <= 256 {
            8
        } else if size <= 512 {
            9
        } else if size <= 1024 {
            10
        } else if size <= 2048 {
            11
        } else if size <= 4096 {
            12
        } else {
            13
        }),
    ensures
        is_smallest_fit(i, size),
        kmalloc_index_spec(size) == i,
{
    lemma_class_sizes();
    assert(is_smallest_fit(i, size));
    let c = choose|k: u32| is_smallest_fit(k as int, size);
    assert(is_smallest_fit(i as u32 as int, size));
    lemma_smallest_fit_unique(c as int, i, size);
}

/// With the initial small-size table, a request of 1 to 8192 bytes is served
/// from the smallest kmalloc class that holds it.
pub proof fn law_default_table_picks_smallest_class(sc: SlabCommon, size: usize)
    requires
        sc.kmalloc_size_index@ == SlabCommon::default_size_index(),
        1 <= size <= 8192,
    ensures
        kmalloc_slab_index(sc, size) == kmalloc_index_spec(size as int),
        is_smallest_fit(kmalloc_slab_index(sc, size), size as int),
{
    let idx = kmalloc_slab_index(sc, size);
    if size <= 192 {
        let e = (size - 1) / 8;
        assert(0 <= e < 24);
        assert(idx == SlabCommon::default_size_index()[e]);
        lemma_smallest_fit_range(idx, size as int);
    } else {
        let x = (size - 1) as u32;
        assert(x as int == size - 1);
        lemma_fls_bounds(x);
        lemma2_to64();
        let f = fls_spec(x);
        if f >= 15 {
            vstd::arithmetic::power2::lemma_pow2_strictly_increases(13, (f - 1) as nat);
        }
        if f <= 7 {
            vstd::arithmetic::power2::lemma_pow2_strictly_increases(f as nat, 8);
        }
        lemma_smallest_fit_range(idx, size as int);
    }
}

/// With the default index table, each normal kmalloc cache holding objects
/// of its class size, `slab` the cache the table picks and `order` a page
/// order whose block holds the request, the size a request of at most
/// `u32::MAX` bytes is rounded up to holds the request.
pub proof fn law_roundup_covers_request(sc: SlabCommon, size: usize, slab: usize, order: u32)
    requires
        sc.wf(),
        sc.kmalloc_size_index@ == SlabCommon::default_size_index(),
        forall|i: int|
            0 <= i < KMALLOC_SLOTS && sc.kmalloc_cache(KMALLOC_NORMAL as int, i) != 0 ==> sc.cache(
                #[trigger] sc.kmalloc_cache(KMALLOC_NORMAL as int, i),
            ).object_size == kmalloc_class_size(i),
        size <= u32::MAX,
        1 <= size <= KMALLOC_MAX_CACHE_SIZE ==> slab == sc.kmalloc_cache(
            KMALLOC_NORMAL as int,
            kmalloc_slab_index(sc, size),
        ),
        order_bytes(order as nat) >= size,
    ensures
        roundup_spec(sc, size, slab, order) >= size,
{
    if size != 0 && size <= KMALLOC_MAX_CACHE_SIZE && slab != 0 {
        law_default_table_picks_smallest_class(sc, size);
        let i = kmalloc_slab_index(sc, size);
        assert(class_fits(i, size as int));
        lemma_slab_index_in_range(sc, size);
        assert(sc.cache(slab).object_size == kmalloc_class_size(i));
    }
}

/// A request of 1 to `KMALLOC_MAX_CACHE_SIZE` bytes that a kmalloc cache
/// serves is rounded up to exactly that cache's object size; only a request
/// that no cache serves, or a larger one, gets a page block.
pub proof fn law_roundup_uses_serving_cache(sc: SlabCommon, size: usize, slab: usize, order: u32)
    requires
        1 <= size <= KMALLOC_MAX_CACHE_SIZE,
        slab != 0,
    ensures
        roundup_spec(sc, size, slab, order) == sc.cache(slab).object_size,
{
}

/// With the default index table, each normal kmalloc cache holding objects
/// of its class size and `slab` the cache the table picks, a request of 1
/// to 8192 bytes is rounded up to the smallest kmalloc class size that
/// holds it: at least the request, and no more than any class that holds
/// it.
pub proof fn law_roundup_is_smallest_class(sc: SlabCommon, size: usize, slab: usize, order: u32)
    requires
        sc.wf(),
        sc.kmalloc_size_index@ == SlabCommon::default_size_index(),
        forall|i: int|
            0 <= i < KMALLOC_SLOTS && sc.kmalloc_cache(KMALLOC_NORMAL as int, i) != 0 ==> sc.cache(
                #[trigger] sc.kmalloc_cache(KMALLOC_NORMAL as int, i),
            ).object_size == kmalloc_class_size(i),
        1 <= size <= KMALLOC_MAX_CACHE_SIZE,
        slab == sc.kmalloc_cache(KMALLOC_NORMAL as int, kmalloc_slab_index(sc, size)),
        slab != 0,
    ensures
        roundup_spec(sc, size, slab, order) >= size,
        forall|j: int|
            #[trigger] class_fits(j, size as int) ==> roundup_spec(sc, size, slab, order)
                <= kmalloc_class_size(j),
{
    law_default_table_picks_smallest_class(sc, size);
    lemma_slab_index_in_range(sc, size);
    let i = kmalloc_slab_index(sc, size);
    assert(sc.cache(slab).object_size == kmalloc_class_size(i));
}

} // verus!
