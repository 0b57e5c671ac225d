use vstd::prelude::*;
use vstd::std_specs::bits::{u32_trailing_zeros, axiom_u32_trailing_zeros};

verus! {

/// One-based position of the lowest set bit of `x`; zero when no bit is set.
pub open spec fn ffs_spec(x: u32) -> u32 {
    if x == 0 {
        0
    } else {
        (u32_trailing_zeros(x) + 1) as u32
    }
}

/// Finds the first (lowest) set bit, counting from one; `ffs(0) == 0`.
pub fn ffs(x: u32) -> (r: u32)
    ensures
        r == ffs_spec(x),
        x != 0 ==> 1 <= r <= 32,
        x != 0 ==> (x >> ((r - 1) as u32)) & 1 == 1,
        x != 0 ==> forall|j: u32| j < r - 1 ==> #[trigger] ((x >> j) & 1) == 0,
{
    proof {
        axiom_u32_trailing_zeros(x);
    }
    if x == 0 {
        0
    } else {
        let low = x & !(x - 1);
        proof {
            lemma_isolated_bit_trailing_zeros(x);
        }
        low.trailing_zeros() + 1
    }
}

/// Isolating the lowest set bit keeps the number of trailing zeros.
pub proof fn lemma_isolated_bit_trailing_zeros(x: u32)
    requires
        x != 0,
    ensures
        u32_trailing_zeros(x & !((x - 1) as u32)) == u32_trailing_zeros(x),
{
    let y = x & !((x - 1) as u32);
    axiom_u32_trailing_zeros(x);
    axiom_u32_trailing_zeros(y);
    let t = u32_trailing_zeros(x);
    let u = u32_trailing_zeros(y);
    assert(t < 32);
    // bit t of y is set, and every bit below t is clear
    assert((y >> t) & 1 == 1) by (bit_vector)
        requires
            y == x & !((x - 1) as u32),
            t < 32,
            (x >> t) & 1u32 == 1u32,
            x << ((32 - t) as u32) == 0u32,
            x != 0u32,
    ;
    assert forall|j: u32| j < t implies #[trigger] ((y >> j) & 1) == 0 by {
        assert((x >> j) & 1 == 0);
        assert((y >> j) & 1 == 0) by (bit_vector)
            requires
                y == x & !((x - 1) as u32),
                (x >> j) & 1u32 == 0u32,
        ;
    }
    if u < t {
        assert((y >> u) & 1 == 1);
        assert((y >> u) & 1 == 0);
    }
    if u > t {
        assert((y >> t) & 1 == 0);
    }
}

} // verus!
