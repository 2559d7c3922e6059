//! Integer square roots.

use vstd::prelude::*;

verus! {

/// The largest natural number whose square is at most `n`.
pub open spec fn int_sqrt(n: nat) -> nat
    decreases n,
{
    if n == 0 {
        0
    } else {
        let r = 2 * int_sqrt(n / 4);
        if (r + 1) * (r + 1) <= n {
            r + 1
        } else {
            r
        }
    }
}

/// `int_sqrt(n)` is the floor of the square root of `n`.
pub proof fn lemma_int_sqrt_is_floor(n: nat)
    ensures
        int_sqrt(n) * int_sqrt(n) <= n,
        n < (int_sqrt(n) + 1) * (int_sqrt(n) + 1),
    decreases n,
{
    if n != 0 {
        let s = int_sqrt(n / 4);
        lemma_int_sqrt_is_floor(n / 4);
        let r = 2 * s;
        assert(r * r <= n && n < (r + 2) * (r + 2)) by (nonlinear_arith)
            requires
                s * s <= n / 4,
                n / 4 < (s + 1) * (s + 1),
                r == 2 * s,
        ;
        let v = int_sqrt(n);
        if (r + 1) * (r + 1) <= n {
            assert(v == r + 1);
            assert((v + 1) * (v + 1) == (r + 2) * (r + 2)) by (nonlinear_arith)
                requires
                    v == r + 1,
            ;
            assert(v * v == (r + 1) * (r + 1)) by (nonlinear_arith)
                requires
                    v == r + 1,
            ;
        } else {
            assert(v == r);
            assert((v + 1) * (v + 1) == (r + 1) * (r + 1)) by (nonlinear_arith)
                requires
                    v == r,
            ;
            assert(v * v == r * r) by (nonlinear_arith)
                requires
                    v == r,
            ;
        }
    } else {
        let v = int_sqrt(n);
        assert((v + 1) * (v + 1) == 1) by (nonlinear_arith)
            requires
                v == 0,
        ;
    }
}

/// A natural number whose square brackets `n` from below is `int_sqrt(n)`.
pub proof fn lemma_int_sqrt_unique(n: nat, r: nat)
    requires
        r * r <= n,
        n < (r + 1) * (r + 1),
    ensures
        r == int_sqrt(n),
{
    lemma_int_sqrt_is_floor(n);
    let s = int_sqrt(n);
    assert(r == s) by (nonlinear_arith)
        requires
            r * r <= n,
            n < (r + 1) * (r + 1),
            s * s <= n,
            n < (s + 1) * (s + 1),
    ;
}

/// The floor of the square root of `n`.
pub fn isqrt(n: u128) -> (r: u128)
    ensures
        r == int_sqrt(n as nat),
        r <= 0xFFFF_FFFF_FFFF_FFFF,
    decreases n,
{
    if n == 0 {
        0
    } else {
        let s: u128 = isqrt(n / 4);
        proof {
            lemma_int_sqrt_is_floor((n / 4) as nat);
            assert(s < 0x8000_0000_0000_0000) by (nonlinear_arith)
                requires
                    s * s <= n / 4,
                    n / 4 < 0x4000_0000_0000_0000_0000_0000_0000_0000,
            ;
        }
        let r: u128 = 2 * s;
        let c: u128 = r + 1;
        let q: u128 = n / c;
        assert((c <= q) == (c * c <= n)) by (nonlinear_arith)
            requires
                c > 0,
                q == n / c,
        ;
        if c <= q {
            c
        } else {
            r
        }
    }
}

} // verus!
