# slab_common, verified

The allocator-independent part of the Linux slab layer — cache creation,
merging, destruction, the kmalloc size classes and their boot caches, and
kmalloc buckets — written in Verus and proved against its contracts.

The kernel around it is modelled, not called: the state the slab layer
keeps (its cache records, the cache lists, the kmalloc tables) lives in
`SlabCommon`; every call into the rest of the kernel is recorded, with its
arguments, in `SlabCommon::calls`; and what such a call answers is an
argument of the function that makes it. Contracts state the kernel calls
a function makes and what it does with the answers; where they leave part
of the call log open (the teardown of a failed bucket set, after the step
that failed), the function's doc comment says so.

Layout of `src/`:

- `align`, `errptr`, `bitops`: alignment, error-pointer and bit helpers.
- `list`: the doubly linked list over a table of links, with its laws.
- `flags`, `types`: configuration, flag bits and the slab records.
- `registry`: `SlabCommon`, the kernel-call log and the mutex balance.
- `cache`: alignment and merge rules.
- `create`, `destroy`, `mutex`: cache life cycle.
- `kmalloc`, `boot`, `buckets`: size classes, boot caches and buckets.
