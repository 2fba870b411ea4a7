//! Integer square root, used to turn a squared motion delta into a speed.

use vstd::prelude::*;

verus! {

/// `r` is the integer square root of `n`: the greatest integer whose
/// square does not exceed `n`.
pub open spec fn is_floor_sqrt(n: nat, r: nat) -> bool {
    r * r <= n < (r + 1) * (r + 1)
}

/// The integer square root of `n`, as a mathematical value.
pub open spec fn spec_isqrt(n: nat) -> nat {
    choose|r: nat| is_floor_sqrt(n, r)
}

/// Every natural number has an integer square root, and `spec_isqrt`
/// denotes it.
pub proof fn lemma_isqrt_exists(n: nat)
    ensures
        is_floor_sqrt(n, spec_isqrt(n)),
    decreases n,
{
    if n == 0 {
        assert(is_floor_sqrt(0, 0)) by (nonlinear_arith);
    } else {
        lemma_isqrt_exists((n - 1) as nat);
        let r = spec_isqrt((n - 1) as nat);
        if (r + 1) * (r + 1) <= n {
            assert((r + 1) * (r + 1) < (r + 2) * (r + 2)) by (nonlinear_arith);
            assert(is_floor_sqrt(n, r + 1));
        } else {
            assert(is_floor_sqrt(n, r));
        }
    }
    assert(exists|r: nat| is_floor_sqrt(n, r));
}

/// The integer square root is unique.
pub proof fn lemma_isqrt_unique(n: nat, a: nat, b: nat)
    requires
        is_floor_sqrt(n, a),
        is_floor_sqrt(n, b),
    ensures
        a == b,
{
    assert(a == b) by (nonlinear_arith)
        requires
            a * a <= n < (a + 1) * (a + 1),
            b * b <= n < (b + 1) * (b + 1);
}

/// Any witness of `is_floor_sqrt` is the value `spec_isqrt` denotes.
pub proof fn lemma_isqrt_is(n: nat, r: nat)
    requires
        is_floor_sqrt(n, r),
    ensures
        spec_isqrt(n) == r,
{
    lemma_isqrt_exists(n);
    lemma_isqrt_unique(n, r, spec_isqrt(n));
}

/// Integer square root by bisection over `[0, 65536)`.
pub fn isqrt(n: u32) -> (r: u32)
    ensures
        r == spec_isqrt(n as nat),
        r <= 65535,
{
    let mut lo: u32 = 0;
    let mut hi: u32 = 65536;
    while lo + 1 < hi
        invariant
            lo < hi <= 65536,
            (lo as nat) * (lo as nat) <= n as nat,
            (n as nat) < (hi as nat) * (hi as nat),
        decreases hi - lo,
    {
        let mid: u32 = lo + (hi - lo) / 2;
        assert(mid * mid <= 0xffff_ffff) by (nonlinear_arith)
            requires mid <= 65535;
        if mid * mid <= n {
            lo = mid;
        } else {
            hi = mid;
        }
    }
    proof {
        assert((65536 as nat) * (65536 as nat) == 0x1_0000_0000) by (nonlinear_arith);
        lemma_isqrt_is(n as nat, lo as nat);
    }
    lo
}

} // verus!
