//! Matrix products by a column-major library on row-major buffers.
//!
//! A row-major matrix, read column by column, is its transpose. Handing the library
//! the second factor first makes it compute the transpose of the product, which, read
//! row by row, is the product.

use vstd::prelude::*;

use crate::error::CudaInitError;
use crate::text::{dec, push_dec};

verus! {

/// Whether the library transposes an operand.
#[derive(Clone, Copy, Debug, PartialEq, Eq, Structural)]
pub enum BlasOp {
    N,
    T,
}

/// Settings of a GEMM call: `C = op(first) * op(second)`, all column-major, with `m`
/// rows, `n` columns and `k` terms in each sum.
#[derive(Clone, Copy, Debug, PartialEq, Eq, Structural)]
pub struct GemmConfig {
    pub transa: BlasOp,
    pub transb: BlasOp,
    pub m: i32,
    pub n: i32,
    pub k: i32,
    pub lda: i32,
    pub ldb: i32,
    pub ldc: i32,
}

/// Settings of a GEMV call: `y = op(A) * x`, with a column-major `A` of `m` rows and
/// `n` columns.
#[derive(Clone, Copy, Debug, PartialEq, Eq, Structural)]
pub struct GemvConfig {
    pub trans: BlasOp,
    pub m: i32,
    pub n: i32,
    pub lda: i32,
    pub incx: i32,
    pub incy: i32,
}

/// Place of element `(i, p)` of an operand with leading dimension `ld`.
pub open spec fn operand_at(op: BlasOp, ld: int, i: int, p: int) -> int {
    match op {
        BlasOp::N => i + p * ld,
        BlasOp::T => p + i * ld,
    }
}

/// The first `k` terms of element `(i, j)` of the library's result.
pub open spec fn blas_sum(
    cfg: GemmConfig,
    first: spec_fn(int) -> int,
    second: spec_fn(int) -> int,
    i: int,
    j: int,
    k: nat,
) -> int
    decreases k,
{
    if k == 0 {
        0
    } else {
        let p = k - 1;
        blas_sum(cfg, first, second, i, j, p as nat) + first(
            operand_at(cfg.transa, cfg.lda as int, i, p),
        ) * second(operand_at(cfg.transb, cfg.ldb as int, p, j))
    }
}

/// The first `k` terms of element `(r, c)` of the product of two row-major matrices.
pub open spec fn product_sum(
    a: spec_fn(int) -> int,
    b: spec_fn(int) -> int,
    inner: int,
    cols: int,
    r: int,
    c: int,
    k: nat,
) -> int
    decreases k,
{
    if k == 0 {
        0
    } else {
        let p = k - 1;
        product_sum(a, b, inner, cols, r, c, p as nat) + a(r * inner + p) * b(p * cols + c)
    }
}

/// The first `k` terms of element `(r, c)` of the product of a row-major matrix and the
/// transpose of another.
pub open spec fn product_transb_sum(
    a: spec_fn(int) -> int,
    b: spec_fn(int) -> int,
    inner: int,
    r: int,
    c: int,
    k: nat,
) -> int
    decreases k,
{
    if k == 0 {
        0
    } else {
        let p = k - 1;
        product_transb_sum(a, b, inner, r, c, p as nat) + a(r * inner + p) * b(c * inner + p)
    }
}

pub open spec fn matmul_config(m: usize, n: usize, k: usize) -> GemmConfig {
    GemmConfig {
        transa: BlasOp::N,
        transb: BlasOp::N,
        m: n as i32,
        n: m as i32,
        k: k as i32,
        lda: n as i32,
        ldb: k as i32,
        ldc: n as i32,
    }
}

pub open spec fn transb_config(m: usize, n: usize, k: usize) -> GemmConfig {
    GemmConfig {
        transa: BlasOp::T,
        transb: BlasOp::N,
        m: n as i32,
        n: m as i32,
        k: k as i32,
        lda: k as i32,
        ldb: k as i32,
        ldc: n as i32,
    }
}

/// The call for row-major `C = A * B`, `B` handed over first: `A` has `m` rows of `k`,
/// `B` has `k` rows of `n`.
pub fn matmul(a_len: usize, b_len: usize, m: usize, n: usize, k: usize) -> (cfg: GemmConfig)
    requires
        a_len == m * k,
        b_len == k * n,
    ensures
        cfg == matmul_config(m, n, k),
        cfg.m == n as i32 && cfg.n == m as i32 && cfg.k == k as i32,
        cfg.transa == BlasOp::N && cfg.transb == BlasOp::N,
        cfg.lda == n as i32 && cfg.ldb == k as i32 && cfg.ldc == n as i32,
{
    GemmConfig {
        transa: BlasOp::N,
        transb: BlasOp::N,
        m: #[verifier::truncate] (n as i32),
        n: #[verifier::truncate] (m as i32),
        k: #[verifier::truncate] (k as i32),
        lda: #[verifier::truncate] (n as i32),
        ldb: #[verifier::truncate] (k as i32),
        ldc: #[verifier::truncate] (n as i32),
    }
}

/// The call for row-major `C = A * B^T`, `B` handed over first: `A` has `m` rows of `k`,
/// `B` has `n` rows of `k`.
pub fn matmul_transb(a_len: usize, b_len: usize, m: usize, n: usize, k: usize) -> (cfg: GemmConfig)
    requires
        a_len >= m * k,
        b_len >= n * k,
    ensures
        cfg == transb_config(m, n, k),
        cfg.m == n as i32 && cfg.n == m as i32 && cfg.k == k as i32,
        cfg.transa == BlasOp::T && cfg.transb == BlasOp::N,
        cfg.lda == k as i32 && cfg.ldb == k as i32 && cfg.ldc == n as i32,
{
    GemmConfig {
        transa: BlasOp::T,
        transb: BlasOp::N,
        m: #[verifier::truncate] (n as i32),
        n: #[verifier::truncate] (m as i32),
        k: #[verifier::truncate] (k as i32),
        lda: #[verifier::truncate] (k as i32),
        ldb: #[verifier::truncate] (k as i32),
        ldc: #[verifier::truncate] (n as i32),
    }
}

/// The call for `y = W * x` as a GEMM with one row: `W` has `n` rows of `k`.
pub fn gemv(w_len: usize, x_len: usize, n: usize, k: usize) -> (cfg: GemmConfig)
    requires
        w_len == n * k,
        x_len == k,
    ensures
        cfg == transb_config(1, n, k),
        cfg.m == n as i32 && cfg.n == 1 && cfg.k == k as i32,
        cfg.transa == BlasOp::T && cfg.transb == BlasOp::N,
        cfg.lda == k as i32 && cfg.ldb == k as i32 && cfg.ldc == n as i32,
{
    matmul_transb(x_len, w_len, 1, n, k)
}

/// The call for `y = W * x` as a GEMV: `W` has `n` rows of `k`.
pub fn gemv_device_w(w_len: usize, x_len: usize, n: usize, k: usize) -> (cfg: GemvConfig)
    requires
        w_len == n * k,
        x_len == k,
    ensures
        cfg == (GemvConfig {
            trans: BlasOp::T,
            m: k as i32,
            n: n as i32,
            lda: k as i32,
            incx: 1,
            incy: 1,
        }),
        dims_fit(1, n, k) ==> cfg.n == n && cfg.m == k && forall|i: int, p: int|
            0 <= i < n && 0 <= p < k ==> #[trigger] gemv_at(cfg, i, p) == i * k + p,
        cfg.incx == 1 && cfg.incy == 1,
{
    GemvConfig {
        trans: BlasOp::T,
        m: #[verifier::truncate] (k as i32),
        n: #[verifier::truncate] (n as i32),
        lda: #[verifier::truncate] (k as i32),
        incx: 1,
        incy: 1,
    }
}

/// The message for an output buffer that is too short.
pub open spec fn short_output(c_len: usize, need: int) -> Seq<char> {
    "matmul_transb_device_inout_f16_into: c.len="@ + dec(c_len as nat) + " < m*n="@ + dec(
        need as nat,
    )
}

/// The call for `C = A * B^T` into a buffer that the caller has allocated, which may be
/// longer than the product.
pub fn matmul_transb_device_inout_f16_into(
    a_len: usize,
    b_len: usize,
    c_len: usize,
    m: usize,
    n: usize,
    k: usize,
) -> (r: Result<GemmConfig, CudaInitError>)
    requires
        a_len >= m * k,
        b_len >= n * k,
        m * n <= usize::MAX,
    ensures
        r is Ok == (c_len >= m * n),
        r matches Ok(cfg) ==> cfg == transb_config(m, n, k),
        r matches Err(e) ==> e.says(short_output(c_len, m * n)),
        r matches Err(e) ==> e.says(
            "matmul_transb_device_inout_f16_into: c.len="@ + dec(c_len as nat) + " < m*n="@
                + dec((m * n) as nat),
        ),
{
    if c_len < m * n {
        let mut s: String = "matmul_transb_device_inout_f16_into: c.len=".to_owned();
        push_dec(&mut s, c_len as u64);
        s.append(" < m*n=");
        push_dec(&mut s, (m * n) as u64);
        return Err(CudaInitError::DriverMissing(s));
    }
    Ok(matmul_transb(a_len, b_len, m, n, k))
}

/// Dimensions that fit the library's integers.
pub open spec fn dims_fit(m: usize, n: usize, k: usize) -> bool {
    m <= i32::MAX && n <= i32::MAX && k <= i32::MAX
}

/// The library's result, read row by row, is the product: element `(r, c)` lies where a
/// row-major matrix of `n` columns has it, and is the sum of the right terms.
pub proof fn law_matmul(
    a: spec_fn(int) -> int,
    b: spec_fn(int) -> int,
    m: usize,
    n: usize,
    k: usize,
    r: int,
    c: int,
)
    requires
        dims_fit(m, n, k),
        0 <= r < m,
        0 <= c < n,
    ensures
        ({
            let cfg = matmul_config(m, n, k);
            &&& c + r * cfg.ldc == r * n + c
            &&& blas_sum(cfg, b, a, c, r, k as nat) == product_sum(
                a,
                b,
                k as int,
                n as int,
                r,
                c,
                k as nat,
            )
        }),
{
    lemma_matmul_terms(a, b, m, n, k, r, c, k as nat);
}

proof fn lemma_matmul_terms(
    a: spec_fn(int) -> int,
    b: spec_fn(int) -> int,
    m: usize,
    n: usize,
    k: usize,
    r: int,
    c: int,
    t: nat,
)
    requires
        dims_fit(m, n, k),
    ensures
        blas_sum(matmul_config(m, n, k), b, a, c, r, t) == product_sum(
            a,
            b,
            k as int,
            n as int,
            r,
            c,
            t,
        ),
    decreases t,
{
    if t > 0 {
        lemma_matmul_terms(a, b, m, n, k, r, c, (t - 1) as nat);
        let p = t - 1;
        let x = b(p * n + c);
        let y = a(r * k + p);
        assert(c + p * n == p * n + c && p + r * k == r * k + p);
        assert(x * y == y * x) by (nonlinear_arith);
    }
}

/// The same for the product with a transpose.
pub proof fn law_matmul_transb(
    a: spec_fn(int) -> int,
    b: spec_fn(int) -> int,
    m: usize,
    n: usize,
    k: usize,
    r: int,
    c: int,
)
    requires
        dims_fit(m, n, k),
        0 <= r < m,
        0 <= c < n,
    ensures
        ({
            let cfg = transb_config(m, n, k);
            &&& c + r * cfg.ldc == r * n + c
            &&& blas_sum(cfg, b, a, c, r, k as nat) == product_transb_sum(
                a,
                b,
                k as int,
                r,
                c,
                k as nat,
            )
        }),
{
    lemma_transb_terms(a, b, m, n, k, r, c, k as nat);
}

proof fn lemma_transb_terms(
    a: spec_fn(int) -> int,
    b: spec_fn(int) -> int,
    m: usize,
    n: usize,
    k: usize,
    r: int,
    c: int,
    t: nat,
)
    requires
        dims_fit(m, n, k),
    ensures
        blas_sum(transb_config(m, n, k), b, a, c, r, t) == product_transb_sum(
            a,
            b,
            k as int,
            r,
            c,
            t,
        ),
    decreases t,
{
    if t > 0 {
        lemma_transb_terms(a, b, m, n, k, r, c, (t - 1) as nat);
        let p = t - 1;
        let x = b(c * k + p);
        let y = a(r * k + p);
        assert(p + c * k == c * k + p && p + r * k == r * k + p);
        assert(x * y == y * x) by (nonlinear_arith);
    }
}

/// The call computes the whole product and nothing more: every column of the product is a row of
/// the library's result and every row a column, each sum has all its terms, and the leading
/// dimensions are the row lengths of the three matrices.
pub proof fn law_product_is_covered(m: usize, n: usize, k: usize, r: int, c: int, p: int)
    requires
        dims_fit(m, n, k),
        0 <= r < m,
        0 <= c < n,
        0 <= p < k,
    ensures
        ({
            let a = matmul_config(m, n, k);
            let b = transb_config(m, n, k);
            &&& c < a.m == n && r < a.n == m && p < a.k == k
            &&& c < b.m == n && r < b.n == m && p < b.k == k
            &&& a.ldc == n && b.ldc == n
            &&& operand_at(a.transb, a.ldb as int, p, r) == r * k + p
            &&& operand_at(b.transb, b.ldb as int, p, r) == r * k + p
            &&& operand_at(a.transa, a.lda as int, c, p) == p * n + c
            &&& operand_at(b.transa, b.lda as int, c, p) == c * k + p
        }),
{
}

/// The product with a transpose is the product with the transposed matrix.
pub proof fn law_transb_is_product_of_transpose(
    a: spec_fn(int) -> int,
    b: spec_fn(int) -> int,
    bt: spec_fn(int) -> int,
    inner: int,
    cols: int,
    r: int,
    c: int,
    t: nat,
)
    requires
        0 <= c < cols,
        t <= inner,
        forall|p: int| 0 <= p < inner ==> #[trigger] bt(p * cols + c) == b(c * inner + p),
    ensures
        product_sum(a, bt, inner, cols, r, c, t) == product_transb_sum(a, b, inner, r, c, t),
    decreases t,
{
    if t > 0 {
        law_transb_is_product_of_transpose(a, b, bt, inner, cols, r, c, (t - 1) as nat);
    }
}

/// The place of the term `p` of element `i` of a GEMV call's result in its matrix.
pub open spec fn gemv_at(cfg: GemvConfig, i: int, p: int) -> int {
    match cfg.trans {
        BlasOp::T => p + i * cfg.lda,
        BlasOp::N => i + p * cfg.lda,
    }
}

} // verus!
