//! The slab layer's records.  Addresses are plain `usize` values; 0 is the
//! null address.
use vstd::prelude::*;
use crate::list::list_head;

verus! {

/// Allocation mode requested from the page allocator.
#[allow(non_camel_case_types)]
#[derive(Clone, Copy, PartialEq, Eq, Debug)]
pub enum Gfp {
    GFP_KERNEL,
    GFP_ATOMIC,
    __GFP_HIGHMEM,
    __GFP_HIGH,
}

/// Precomputed reciprocal used to divide by the object size.
#[allow(non_camel_case_types)]
#[derive(Clone, Copy, PartialEq, Eq)]
pub struct reciprocal_value {
    pub m: u32,
    pub sh1: u8,
    pub sh2: u8,
}

/// Page order and object count of a slab, packed in one word.
#[allow(non_camel_case_types)]
#[derive(Clone, Copy, PartialEq, Eq)]
pub struct kmem_cache_order_objects {
    pub x: u32,
}

/// Per-node bookkeeping of a cache.
#[allow(non_camel_case_types)]
#[derive(Clone, Copy)]
pub struct kmem_cache_node {
    pub nr_partial: u64,
    pub partial: list_head,
    pub nr_slabs: i64,
    pub total_objects: i64,
    pub full: list_head,
}

/// Per-cpu state of a cache; its layout belongs to the allocator.
#[allow(non_camel_case_types)]
#[derive(Clone, Copy)]
pub struct kmem_cache_cpu {}

/// Number of memory nodes a cache keeps state for.
pub const MAX_NUMNODES: usize = 16;

/// A slab cache.  Its list entry lives in the registry's link table, at the
/// cache's own address.
#[allow(non_camel_case_types)]
#[derive(Clone, Copy)]
pub struct kmem_cache {
    pub cpu_slab: usize,
    pub flags: u32,
    pub min_partial: u64,
    /// Object size including metadata.
    pub size: u32,
    /// Object size without metadata.
    pub object_size: u32,
    pub reciprocal_size: reciprocal_value,
    pub offset: u32,
    pub cpu_partial: u32,
    pub cpu_partial_slabs: u32,
    pub oo: kmem_cache_order_objects,
    pub min: kmem_cache_order_objects,
    pub allocflags: Gfp,
    /// Reference count; a negative count keeps the cache from merging.
    pub refcount: i32,
    /// Address of the object constructor, 0 when there is none.
    pub ctor: usize,
    pub inuse: u32,
    pub align: u32,
    pub red_left_pad: u32,
    /// Address of the cache's name.
    pub name: usize,
    pub random: u64,
    pub remote_node_defrag_ratio: u32,
    pub random_seq: usize,
    /// Offset of the region that may be copied to or from user space.
    pub useroffset: u32,
    /// Size of the region that may be copied to or from user space.
    pub usersize: u32,
    pub node: [usize; 16],
}

impl kmem_cache {
    /// A cache record with every field zero, as a zeroing allocation
    /// hands it out.
    pub open spec fn zeroed_spec() -> kmem_cache {
        kmem_cache {
            cpu_slab: 0,
            flags: 0,
            min_partial: 0,
            size: 0,
            object_size: 0,
            reciprocal_size: reciprocal_value { m: 0, sh1: 0, sh2: 0 },
            offset: 0,
            cpu_partial: 0,
            cpu_partial_slabs: 0,
            oo: kmem_cache_order_objects { x: 0 },
            min: kmem_cache_order_objects { x: 0 },
            allocflags: Gfp::GFP_KERNEL,
            refcount: 0,
            ctor: 0,
            inuse: 0,
            align: 0,
            red_left_pad: 0,
            name: 0,
            random: 0,
            remote_node_defrag_ratio: 0,
            random_seq: 0,
            useroffset: 0,
            usersize: 0,
            node: [0usize, 0, 0, 0, 0, 0, 0, 0, 0, 0, 0, 0, 0, 0, 0, 0],
        }
    }

    /// Returns a zeroed cache record.
    pub fn zeroed() -> (c: kmem_cache)
        ensures
            c == kmem_cache::zeroed_spec(),
    {
        kmem_cache {
            cpu_slab: 0,
            flags: 0,
            min_partial: 0,
            size: 0,
            object_size: 0,
            reciprocal_size: reciprocal_value { m: 0, sh1: 0, sh2: 0 },
            offset: 0,
            cpu_partial: 0,
            cpu_partial_slabs: 0,
            oo: kmem_cache_order_objects { x: 0 },
            min: kmem_cache_order_objects { x: 0 },
            allocflags: Gfp::GFP_KERNEL,
            refcount: 0,
            ctor: 0,
            inuse: 0,
            align: 0,
            red_left_pad: 0,
            name: 0,
            random: 0,
            remote_node_defrag_ratio: 0,
            random_seq: 0,
            useroffset: 0,
            usersize: 0,
            node: [0usize, 0, 0, 0, 0, 0, 0, 0, 0, 0, 0, 0, 0, 0, 0, 0],
        }
    }
}

/// A slab in a numbered list of slabs.
#[allow(non_camel_case_types)]
#[derive(Clone, Copy)]
pub struct slab_member_numbered_list {
    pub next: usize,
    /// Number of slabs left.
    pub slabs: i32,
}

/// Free list of a slab together with its counters.
#[allow(non_camel_case_types)]
#[derive(Clone, Copy)]
pub struct slab_freelist_counter {
    pub freelist: usize,
    pub counters: u64,
}

/// What the list word of a slab holds: either its entry in a list of
/// slabs, or a link in a numbered list of slabs.
#[allow(non_camel_case_types)]
#[derive(Clone, Copy)]
pub enum slab_member_list_type {
    SlabList(list_head),
    SlabListNumbered(slab_member_numbered_list),
}

/// A free list with its counters, seen either as its two halves or as one
/// full word for a compare-and-exchange.
#[allow(non_camel_case_types)]
#[derive(Clone, Copy)]
pub enum freelist_aba_t {
    List(slab_freelist_counter),
    Full(u64),
}

/// The free-list word of a slab, in either of its two readings.
#[allow(non_camel_case_types)]
#[derive(Clone, Copy)]
pub enum slab_freelist_counter_type {
    Freelist(slab_freelist_counter),
    FreelistAba(freelist_aba_t),
}

/// The list and free-list words of a slab.
#[allow(non_camel_case_types)]
#[derive(Clone, Copy)]
pub struct slab_list_and_counter {
    pub list: slab_member_list_type,
    pub freelist_counter: slab_freelist_counter_type,
}

/// A slab: the page (or pages) that hold objects of one cache.
#[allow(non_camel_case_types)]
#[derive(Clone, Copy)]
pub struct slab {
    pub __page_flags: u64,
    /// Address of the cache the objects belong to.
    pub slab_cache: usize,
    pub slab_list: slab_list_and_counter,
    pub __page_type: u32,
    /// Reference count of the page.
    pub __page_refcount: i32,
    pub obj_exts: u64,
}

/// Figures reported for a cache in /proc/slabinfo.
#[allow(non_camel_case_types)]
#[derive(Clone, Copy)]
pub struct slabinfo {
    pub active_objs: u64,
    pub num_objs: u64,
    pub active_slabs: u64,
    pub num_slabs: u64,
    pub shared_avail: u64,
    pub limit: u32,
    pub batchcount: u32,
    pub shared: u32,
    pub objects_per_slab: u32,
    pub cache_order: u32,
}

/// Number of stack addresses kept for an object.
pub const KS_ADDRS_COUNT: usize = 16;

/// What is known about one slab object.
#[allow(non_camel_case_types)]
#[derive(Clone, Copy)]
pub struct kmem_object_info {
    pub kp_ptr: usize,
    pub kp_slab: usize,
    pub kp_objp: usize,
    pub kp_data_offset: u64,
    pub kp_slab_cache: usize,
    pub kp_ret: usize,
    pub kp_stack: [usize; 16],
    pub kp_free_stack: [usize; 16],
}

/// A kmalloc size class: the names of its caches, one per kmalloc type,
/// and its object size.
#[allow(non_camel_case_types)]
#[derive(Clone, Copy)]
pub struct kmalloc_info_struct {
    pub name: [usize; 4],
    pub size: u32,
}

/// How far the slab layer has come up during boot.
#[allow(non_camel_case_types)]
#[derive(Clone, Copy, PartialEq, Eq, Debug)]
pub enum slab_state_t {
    /// No slab functionality yet.
    DOWN,
    /// Per-node structures available.
    PARTIAL,
    /// Caches usable, not all extras yet.
    UP,
    /// Everything is working.
    FULL,
}

/// Position of a state in boot order.
pub open spec fn state_rank(s: slab_state_t) -> u32 {
    match s {
        slab_state_t::DOWN => 0,
        slab_state_t::PARTIAL => 1,
        slab_state_t::UP => 2,
        slab_state_t::FULL => 3,
    }
}

impl slab_state_t {
    /// Position of the state in boot order.
    pub fn rank(&self) -> (r: u32)
        ensures
            r == state_rank(*self),
    {
        match self {
            slab_state_t::DOWN => 0,
            slab_state_t::PARTIAL => 1,
            slab_state_t::UP => 2,
            slab_state_t::FULL => 3,
        }
    }
}

} // verus!
