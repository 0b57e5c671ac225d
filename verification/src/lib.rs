//! A verified model of the kernel's common slab-cache layer: cache
//! creation, merging, destruction and the kmalloc size classes.

use vstd::prelude::*;

pub mod align;
pub mod errptr;
pub mod bitops;
pub mod list;
pub mod flags;
pub mod types;
pub mod registry;
pub mod cache;
pub mod create;
pub mod destroy;
pub mod kmalloc;
pub mod boot;
pub mod buckets;
pub mod mutex;
