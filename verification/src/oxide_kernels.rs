//! The softmax kernel that is written in Rust: which elements a thread touches, and powers
//! of two as bit patterns.

use vstd::prelude::*;

verus! {

/// The largest finite number of single precision, as a bit pattern.
pub const MAX_BITS: u32 = 0x7f7f_ffff;

/// Two to the power of `exp`, as the bit pattern of a number of single precision: zero
/// below the normal numbers, the largest finite number above them.
pub fn pow2_i32(exp: i32) -> (bits: u32)
    ensures
        bits == if exp < -126 {
            0
        } else if exp > 127 {
            0x7f7f_ffff
        } else {
            (exp + 127) * 0x80_0000
        },
{
    if exp < -126 {
        0
    } else if exp > 127 {
        MAX_BITS
    } else {
        let e: u32 = (exp + 127) as u32;
        assert(e << 23 == e * 0x80_0000) by (bit_vector)
            requires
                e <= 254,
        ;
        e << 23
    }
}

/// The elements of the row that a thread works on: from the first number up to the
/// second. A thread without a row, or whose row is not all there, has none.
pub fn row_range(row: usize, len: usize, n_rows: i32, n_cols: i32) -> (r: Option<(usize, usize)>)
    requires
        0 <= n_rows,
        0 <= n_cols,
        row < n_rows ==> row * n_cols + n_cols <= usize::MAX,
    ensures
        match r {
            Some((from, to)) => row < n_rows && from == row * n_cols && to == from + n_cols && to
                <= len,
            None => row >= n_rows || row * n_cols + n_cols > len,
        },
{
    let rows: usize = n_rows as usize;
    let cols: usize = n_cols as usize;
    if row >= rows {
        return None;
    }
    assert(0 <= row * cols) by (nonlinear_arith);
    let base: usize = row * cols;
    if base + cols > len {
        return None;
    }
    Some((base, base + cols))
}

/// Whether a column is hidden from a row.
pub fn masked(causal: i32, row: usize, col: usize) -> (r: bool)
    ensures
        r == (causal != 0 && col > row),
{
    causal != 0 && col > row
}

/// Different threads work on different elements.
pub proof fn law_threads_do_not_meet(a: int, b: int, n_cols: int)
    requires
        0 <= a < b,
        0 <= n_cols,
    ensures
        a * n_cols + n_cols <= b * n_cols,
{
    assert(a * n_cols + n_cols <= b * n_cols) by (nonlinear_arith)
        requires
            0 <= a < b,
            0 <= n_cols,
    ;
}

/// In single precision a normal number `2^e` has `e + 127` in its exponent field and nothing
/// else: the next power has the next field, and the largest finite number lies just below the
/// field that follows the last.
pub proof fn law_power_fields(e: int)
    requires
        -126 <= e <= 127,
    ensures
        (e + 127) * 0x80_0000 <= u32::MAX,
        (e + 1 + 127) * 0x80_0000 - (e + 127) * 0x80_0000 == 0x80_0000,
        1 <= e + 127 <= 254,
        MAX_BITS == 255 * 0x80_0000 - 1,
{
}

} // verus!
