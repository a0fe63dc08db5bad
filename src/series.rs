//! Integer parts of the power series of the Bessel functions of the first kind.
use vstd::prelude::*;

verus! {

/// `n!`
pub open spec fn factorial(n: nat) -> nat
    decreases n,
{
    if n == 0 {
        1
    } else {
        n * factorial((n - 1) as nat)
    }
}

/// The largest order whose factorial fits in a `u32`.
pub const MAX_ORDER: u32 = 12;

/// `order!`, the divisor of the first term of the series of `J_order`
/// (the empty product, 1, for order 0).
pub fn order_factorial(order: u32) -> (r: u32)
    requires
        order <= MAX_ORDER,
    ensures
        r == factorial(order as nat),
{
    let mut product: u32 = 1;
    let mut k: u32 = 1;
    while k <= order
        invariant
            1 <= k <= order + 1,
            order <= 12,
            product == factorial((k - 1) as nat),
        decreases order + 1 - k,
    {
        proof {
            lemma_factorial_bound((k - 1) as nat);
            assert(factorial(k as nat) == k * factorial((k - 1) as nat));
            assert(product * k == factorial(k as nat) && product * k <= 12 * 39916800)
                by (nonlinear_arith)
                requires
                    k <= 12,
                    product == factorial((k - 1) as nat),
                    factorial(k as nat) == k * factorial((k - 1) as nat),
                    factorial((k - 1) as nat) <= 39916800,
            ;
        }
        product = product * k;
        k = k + 1;
    }
    product
}

/// No factorial up to `11!` exceeds `11!`.
proof fn lemma_factorial_bound(n: nat)
    requires
        n <= 11,
    ensures
        factorial(n) <= 39916800,
    decreases 11 - n,
{
    if n == 11 {
        reveal_with_fuel(factorial, 12);
        assert(factorial(11) == 39916800);
    } else {
        lemma_factorial_bound(n + 1);
        assert(factorial(n + 1) == (n + 1) * factorial(n));
        assert((n + 1) * factorial(n) >= factorial(n)) by (nonlinear_arith);
    }
}

} // verus!
