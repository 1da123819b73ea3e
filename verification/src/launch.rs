//! Kernel launch geometry.

use vstd::prelude::*;

verus! {

/// Grid, block and dynamic shared memory of one kernel launch.
#[derive(Clone, Copy, Debug, PartialEq, Eq)]
pub struct LaunchConfig {
    pub grid_dim: (u32, u32, u32),
    pub block_dim: (u32, u32, u32),
    pub shared_mem_bytes: u32,
}

/// `n / d`, rounded up.
pub open spec fn ceil_div(n: int, d: int) -> int {
    (n + d - 1) / d
}

/// `n / d`, rounded up.
pub fn div_ceil(n: usize, d: usize) -> (r: usize)
    requires
        d > 0,
    ensures
        r == ceil_div(n as int, d as int),
{
    proof {
        lemma_ceil_div(n as int, d as int);
    }
    if n % d == 0 {
        n / d
    } else {
        assert(n / d < usize::MAX) by (nonlinear_arith)
            requires
                d > 0,
                n % d != 0,
                0 <= n <= usize::MAX,
        ;
        n / d + 1
    }
}

/// What rounding up amounts to.
pub proof fn lemma_ceil_div(n: int, d: int)
    requires
        n >= 0,
        d > 0,
    ensures
        ceil_div(n, d) == if n % d == 0 {
            n / d
        } else {
            n / d + 1
        },
{
    vstd::arithmetic::div_mod::lemma_fundamental_div_mod(n, d);
    let q = n / d;
    let r = n % d;
    if r == 0 {
        assert(ceil_div(n, d) == q) by (nonlinear_arith)
            requires
                n == d * q + r,
                r == 0,
                d > 0,
                ceil_div(n, d) == (n + d - 1) / d,
        ;
    } else {
        assert(ceil_div(n, d) == q + 1) by (nonlinear_arith)
            requires
                n == d * q + r,
                0 < r < d,
                ceil_div(n, d) == (n + d - 1) / d,
        ;
    }
}

/// `ceil_div(n, d)` blocks of `d` units cover `n` units, and no block is empty.
pub proof fn law_blocks_cover(n: int, d: int)
    requires
        n >= 0,
        d > 0,
    ensures
        ceil_div(n, d) * d >= n,
        n > 0 ==> (ceil_div(n, d) - 1) * d < n,
        n == 0 ==> ceil_div(n, d) == 0,
{
    lemma_ceil_div(n, d);
    vstd::arithmetic::div_mod::lemma_fundamental_div_mod(n, d);
    let q = n / d;
    assert((q + 1) * d == q * d + d) by (nonlinear_arith);
    assert((q - 1) * d == q * d - d) by (nonlinear_arith);
    assert(d * q == q * d) by (nonlinear_arith);
    if n == 0 {
        assert(q == 0) by (nonlinear_arith)
            requires
                q == n / d,
                n == 0,
                d > 0,
        ;
    }
}

} // verus!
