use vstd::prelude::*;
use vstd::arithmetic::power2::pow2;
use vstd::bits::{lemma_u32_shl_is_mul, lemma_u32_shr_is_div, lemma_u32_pow2_no_overflow};

verus! {

/// `a` is a power of two that fits in a `u32`.
pub open spec fn is_pow2(a: u32) -> bool {
    exists|k: u32| k < 32 && a == #[trigger] (1u32 << k)
}

/// `x` rounded up to the next multiple of `a`.
pub open spec fn round_up(x: int, a: int) -> int {
    ((x + a - 1) / a) * a
}

/// Rounds `x` up with the low-bit mask `mask`: `(x + mask) & !mask`.
pub fn align_mask(x: u32, mask: u32) -> (r: u32)
    requires
        x + mask <= u32::MAX,
    ensures
        r == (x + mask) as u32 & !mask,
{
    (x + mask) & !mask
}

/// Rounds `x` up to a multiple of `a`, by masking with `a - 1`.
pub fn align_macro(x: u32, a: u32) -> (r: u32)
    requires
        a >= 1,
        x + a - 1 <= u32::MAX,
    ensures
        r == (x + a - 1) as u32 & !((a - 1) as u32),
        is_pow2(a) ==> r == round_up(x as int, a as int),
        is_pow2(a) ==> r % a == 0 && x <= r < x + a,
{
    let mask = a - 1u32;
    proof {
        if is_pow2(a) {
            lemma_round_up_pow2(x, a);
        }
    }
    align_mask(x, mask)
}

/// Masking off the low bits of `x + a - 1` rounds `x` up to a multiple of
/// the power of two `a`.
pub proof fn lemma_round_up_pow2(x: u32, a: u32)
    requires
        is_pow2(a),
        x + a - 1 <= u32::MAX,
    ensures
        ((x + a - 1) as u32) & !((a - 1) as u32) == round_up(x as int, a as int),
        round_up(x as int, a as int) % (a as int) == 0,
        x <= round_up(x as int, a as int) < x + a,
{
    let k = choose|k: u32| k < 32 && a == #[trigger] (1u32 << k);
    let y = (x + a - 1) as u32;
    assert(y & !((a - 1) as u32) == (y >> k) << k) by (bit_vector)
        requires
            k < 32,
            a == 1u32 << k,
    ;
    lemma_u32_pow2_no_overflow(k as nat);
    lemma_u32_shl_is_mul(1, k);
    assert(a == pow2(k as nat));
    lemma_u32_shr_is_div(y, k);
    let q = y >> k;
    assert(q == y as int / a as int);
    assert(q * a <= y) by (nonlinear_arith)
        requires
            q == y as int / a as int,
            a > 0,
    ;
    lemma_u32_shl_is_mul(q, k);
    let r = q * a;
    assert(r % (a as int) == 0 && x <= r < x + a) by (nonlinear_arith)
        requires
            q == y as int / a as int,
            a > 0,
            y == x + a - 1,
            r == q * a,
    ;
}

} // verus!
