use vstd::prelude::*;

verus! {

/// Largest error number that an encoded error address can carry.
pub const MAX_ERRNO: usize = 1000;

/// Encodes a (negative) error number as an address, the way the kernel
/// returns errors in pointer-typed results.
pub fn err_ptr(err: isize) -> (ptr: usize)
    ensures
        ptr == err as usize,
{
    err as usize
}

/// Decodes an address back into the signed number it carries.
pub fn ptr_err(ptr: usize) -> (err: isize)
    ensures
        err == ptr as isize,
{
    ptr as isize
}

/// An address is an encoded error when it lies in the top `MAX_ERRNO`
/// addresses of the address space.
pub open spec fn is_err_spec(ptr: usize) -> bool {
    ptr > usize::MAX - MAX_ERRNO
}

/// Tells whether `ptr` is an encoded error (see `is_err_spec`).
pub fn is_err(ptr: usize) -> (r: bool)
    ensures
        r == is_err_spec(ptr),
{
    ptr > usize::MAX - MAX_ERRNO
}

/// Decoding an encoded error gives the error number back.
pub proof fn lemma_ptr_err_of_err_ptr(err: isize)
    ensures
        (err as usize) as isize == err,
{
    assert((err as usize) as isize == err) by (bit_vector);
}

/// An encoded error number is recognised as an error exactly when it lies
/// in `-MAX_ERRNO ..= -1`.
pub proof fn lemma_is_err_of_err_ptr(err: isize)
    ensures
        is_err_spec(err as usize) <==> -1000 <= err <= -1,
{
    if usize::BITS == 64 {
        assert(usize::MAX - MAX_ERRNO == 0xFFFF_FFFF_FFFF_FC17);
        assert((err as usize) as int > 0xFFFF_FFFF_FFFF_FC17int <==> (-1000isize <= err && err <= -1isize))
            by (bit_vector)
            requires
                usize::BITS == 64,
        ;
    } else {
        assert(usize::MAX - MAX_ERRNO == 0xFFFF_FC17);
        assert((err as usize) as int > 0xFFFF_FC17int <==> (-1000isize <= err && err <= -1isize))
            by (bit_vector)
            requires
                usize::BITS == 32,
        ;
    }
}

} // verus!
