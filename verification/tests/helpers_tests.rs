use lib::align::{align_macro, align_mask};
use lib::bitops::ffs;
use lib::cache::{calculate_alignment, find_mergeable, kmem_cache_sanity_check, slab_unmergeable};
use lib::errptr::{err_ptr, is_err, ptr_err};
use lib::flags::{SLAB_HWCACHE_ALIGN, SLAB_POISON};
use lib::kmalloc::{__kmalloc_index, size_index_elem};
use lib::registry::SlabCommon;
use lib::types::{kmalloc_info_struct, kmem_cache};

#[test]
fn align_mask_rounds_with_mask() {
    assert_eq!(align_mask(5, 3), 8);
    assert_eq!(align_mask(8, 7), 8);
    assert_eq!(align_mask(0, 7), 0);
}

#[test]
fn align_macro_rounds_up_to_power_of_two() {
    assert_eq!(align_macro(13, 8), 16);
    assert_eq!(align_macro(16, 8), 16);
    assert_eq!(align_macro(1, 64), 64);
    assert_eq!(align_macro(96, 128), 128);
    assert_eq!(align_macro(0, 1), 0);
}

#[test]
fn err_ptr_round_trip() {
    for e in [-1isize, -12, -1000, -1001, 0, 7] {
        assert_eq!(ptr_err(err_ptr(e)), e);
    }
}

#[test]
fn is_err_on_error_range_only() {
    assert!(is_err(err_ptr(-1)));
    assert!(is_err(err_ptr(-12)));
    assert!(is_err(err_ptr(-1000)));
    assert!(!is_err(err_ptr(-1001)));
    assert!(!is_err(0));
    assert!(!is_err(0xFFFF_FFF3));
}

#[test]
fn ffs_finds_lowest_set_bit() {
    assert_eq!(ffs(0), 0);
    assert_eq!(ffs(1), 1);
    assert_eq!(ffs(8), 4);
    assert_eq!(ffs(12), 3);
    assert_eq!(ffs(96), 6);
    assert_eq!(ffs(0x8000_0000), 32);
}


#[test]
fn size_index_elem_steps_of_eight() {
    assert_eq!(size_index_elem(1), 0);
    assert_eq!(size_index_elem(8), 0);
    assert_eq!(size_index_elem(9), 1);
    assert_eq!(size_index_elem(96), 11);
    assert_eq!(size_index_elem(192), 23);
}

#[test]
fn kmalloc_index_picks_smallest_class() {
    assert_eq!(__kmalloc_index(0, false), 0);
    assert_eq!(__kmalloc_index(1, true), 3);
    assert_eq!(__kmalloc_index(8, false), 3);
    assert_eq!(__kmalloc_index(9, false), 4);
    assert_eq!(__kmalloc_index(64, false), 6);
    assert_eq!(__kmalloc_index(65, false), 1);
    assert_eq!(__kmalloc_index(96, false), 1);
    assert_eq!(__kmalloc_index(97, false), 7);
    assert_eq!(__kmalloc_index(128, false), 7);
    assert_eq!(__kmalloc_index(129, false), 2);
    assert_eq!(__kmalloc_index(192, false), 2);
    assert_eq!(__kmalloc_index(193, false), 8);
    assert_eq!(__kmalloc_index(4096, false), 12);
    assert_eq!(__kmalloc_index(4097, false), 13);
    assert_eq!(__kmalloc_index(2 * 1024 * 1024, false), 21);
    assert_eq!(__kmalloc_index(2 * 1024 * 1024 + 1, false), u32::MAX);
}


#[test]
fn calculate_alignment_values() {
    assert_eq!(calculate_alignment(0, 0, 100), 8);
    assert_eq!(calculate_alignment(0, 13, 1), 16);
    assert_eq!(calculate_alignment(0, 64, 1), 64);
    assert_eq!(calculate_alignment(SLAB_HWCACHE_ALIGN, 0, 100), 128);
    assert_eq!(calculate_alignment(SLAB_HWCACHE_ALIGN, 0, 64), 64);
    assert_eq!(calculate_alignment(SLAB_HWCACHE_ALIGN, 0, 20), 32);
    assert_eq!(calculate_alignment(SLAB_HWCACHE_ALIGN, 0, 1), 8);
    assert_eq!(calculate_alignment(SLAB_HWCACHE_ALIGN, 256, 20), 256);
}

#[test]
fn calculate_alignment_is_idempotent() {
    for flags in [0u32, SLAB_HWCACHE_ALIGN] {
        for align in [0u32, 1, 7, 8, 13, 64, 300] {
            for size in [1u32, 3, 20, 64, 65, 4096] {
                let a = calculate_alignment(flags, align, size);
                assert_eq!(calculate_alignment(flags, a, size), a);
                assert_eq!(a % 8, 0);
                assert!(a >= align);
            }
        }
    }
}

#[test]
fn sanity_check_accepts() {
    assert_eq!(kmem_cache_sanity_check(0, 0), 0);
    assert_eq!(kmem_cache_sanity_check(1234, 64), 0);
}

#[test]
fn merging_is_off() {
    let mut c = kmem_cache::zeroed();
    assert_eq!(slab_unmergeable(&c), 1);
    c.flags = SLAB_POISON;
    assert_eq!(slab_unmergeable(&c), 1);
    let info: Vec<kmalloc_info_struct> = (0..22).map(|_| kmalloc_info_struct { name: [0; 4], size: 0 }).collect();
    let sc = SlabCommon::new(info, false, false);
    assert_eq!(find_mergeable(&sc, 64, 8, 0, 0, 0, 0), 0);
}
