//! Q4_K matvec from packed weights and an `f32` row.

use vstd::prelude::*;

use crate::error::CudaInitError;
use crate::flags::{number_or, number_setting, off_unless_one, set_to, TRACE_MIN_ROWS};
use crate::packed::{
    direct_complaint, direct_launch, direct_matvec, BlockFormat, MatvecLaunch, Q4K_BLOCK_BYTES,
    Q4K_BLOCK_ELEMS,
};
use crate::text::{dec, push_dec};

verus! {

pub open spec fn q4k() -> BlockFormat {
    BlockFormat { elems: Q4K_BLOCK_ELEMS, bytes: Q4K_BLOCK_BYTES }
}

/// Checks a Q4_K matvec and lays out its launch, whichever stream it goes to.
pub fn matvec_device_on_stream(data_len: usize, x_len: usize, rows: usize, hidden: usize) -> (r:
    Result<MatvecLaunch, CudaInitError>)
    ensures
        r is Ok == direct_complaint("q4k"@, q4k(), data_len, x_len, rows, hidden) is None,
        r matches Ok(l) ==> l == direct_launch(rows, hidden, Q4K_BLOCK_ELEMS),
        r matches Err(e) ==> direct_complaint("q4k"@, q4k(), data_len, x_len, rows, hidden) matches Some(
            t,
        ) && e.says(t),
        r matches Ok(l) ==> {
            &&& l.rows == rows as i32 && l.hidden == hidden as i32
            &&& l.blocks_per_row == (hidden / 256) as i32
            &&& l.cfg.block_dim == (128u32, 4u32, 1u32) && l.cfg.shared_mem_bytes == 2048
            &&& l.cfg.grid_dim.1 == 1 && l.cfg.grid_dim.2 == 1
            &&& rows <= u32::MAX ==> l.cfg.grid_dim.0 * 4 >= rows && l.cfg.grid_dim.0 * 4 < rows + 4
        },
        r is Ok <==> {
            &&& rows != 0 && hidden != 0 && x_len == hidden
            &&& hidden % 256 == 0
            &&& data_len == rows * ((hidden / 256) * 144)
        },
{
    direct_matvec(
        "q4k",
        BlockFormat { elems: Q4K_BLOCK_ELEMS, bytes: Q4K_BLOCK_BYTES },
        data_len,
        x_len,
        rows,
        hidden,
    )
}

/// Whether a matvec is traced: tracing is on, and the matrix has enough rows.
pub fn is_traced(trace: Option<&str>, min_rows: Option<&str>, rows: usize) -> (r: bool)
    ensures
        r == (set_to(trace, "1"@) && rows >= number_or(min_rows, TRACE_MIN_ROWS)),
        r <==> trace is Some && trace->0@ == "1"@ && rows >= number_or(min_rows, TRACE_MIN_ROWS),
        min_rows is None ==> (r <==> trace is Some && trace->0@ == "1"@ && rows >= 100_000),
{
    off_unless_one(trace) && rows >= number_setting(min_rows, TRACE_MIN_ROWS)
}

/// The complaint about the row that two matrices share.
pub open spec fn pair_text(hidden: usize, x_len: usize) -> Seq<char> {
    "invalid pair matvec shape hidden="@ + dec(hidden as nat) + " x_len="@ + dec(x_len as nat)
}

/// The first thing wrong with a pair of matvecs on one row: the row, then the first
/// matrix, then the second.
pub open spec fn pair_complaint(
    a_len: usize,
    a_rows: usize,
    b_len: usize,
    b_rows: usize,
    x_len: usize,
    hidden: usize,
) -> Option<Seq<char>> {
    if hidden == 0 || x_len != hidden || hidden % Q4K_BLOCK_ELEMS != 0 {
        Some(pair_text(hidden, x_len))
    } else if direct_complaint("q4k"@, q4k(), a_len, x_len, a_rows, hidden) is Some {
        direct_complaint("q4k"@, q4k(), a_len, x_len, a_rows, hidden)
    } else {
        direct_complaint("q4k"@, q4k(), b_len, x_len, b_rows, hidden)
    }
}

/// Checks two matvecs on one row and lays out their launches.
pub fn matvec_pair(
    a_len: usize,
    a_rows: usize,
    b_len: usize,
    b_rows: usize,
    x_len: usize,
    hidden: usize,
) -> (r: Result<(MatvecLaunch, MatvecLaunch), CudaInitError>)
    ensures
        r is Ok == pair_complaint(a_len, a_rows, b_len, b_rows, x_len, hidden) is None,
        r matches Ok((a, b)) ==> a == direct_launch(a_rows, hidden, Q4K_BLOCK_ELEMS) && b
            == direct_launch(b_rows, hidden, Q4K_BLOCK_ELEMS),
        r matches Err(e) ==> pair_complaint(a_len, a_rows, b_len, b_rows, x_len, hidden) matches Some(
            t,
        ) && e.says(t),
        r matches Ok((a, b)) ==> {
            &&& a.rows == a_rows as i32 && a.hidden == hidden as i32
            &&& a.blocks_per_row == (hidden / 256) as i32
            &&& a.cfg.block_dim == (128u32, 4u32, 1u32) && a.cfg.shared_mem_bytes == 2048
            &&& a.cfg.grid_dim.1 == 1 && a.cfg.grid_dim.2 == 1
            &&& a_rows <= u32::MAX ==> a.cfg.grid_dim.0 * 4 >= a_rows && a.cfg.grid_dim.0 * 4 < a_rows + 4
            &&& b.rows == b_rows as i32 && b.hidden == hidden as i32
            &&& b.blocks_per_row == (hidden / 256) as i32
            &&& b.cfg.block_dim == (128u32, 4u32, 1u32) && b.cfg.shared_mem_bytes == 2048
            &&& b.cfg.grid_dim.1 == 1 && b.cfg.grid_dim.2 == 1
            &&& b_rows <= u32::MAX ==> b.cfg.grid_dim.0 * 4 >= b_rows && b.cfg.grid_dim.0 * 4 < b_rows + 4
        },
        r is Ok <==> {
            &&& a_rows != 0 && b_rows != 0 && hidden != 0 && x_len == hidden && hidden % 256 == 0
            &&& a_len == a_rows * ((hidden / 256) * 144)
            &&& b_len == b_rows * ((hidden / 256) * 144)
        },
{
    if hidden == 0 || x_len != hidden || hidden % Q4K_BLOCK_ELEMS != 0 {
        let mut s: String = "invalid pair matvec shape hidden=".to_owned();
        push_dec(&mut s, hidden as u64);
        s.append(" x_len=");
        push_dec(&mut s, x_len as u64);
        return Err(CudaInitError::DriverMissing(s));
    }
    let a = match matvec_device_on_stream(a_len, x_len, a_rows, hidden) {
        Ok(l) => l,
        Err(e) => return Err(e),
    };
    match matvec_device_on_stream(b_len, x_len, b_rows, hidden) {
        Ok(b) => Ok((a, b)),
        Err(e) => Err(e),
    }
}

/// A pair of matvecs is accepted just where the row suits and each matrix would be accepted on
/// its own; the row is complained of first, then the first matrix, then the second.
pub proof fn law_pair_is_two_matvecs(
    a_len: usize,
    a_rows: usize,
    b_len: usize,
    b_rows: usize,
    x_len: usize,
    hidden: usize,
)
    ensures
        ({
            let p = pair_complaint(a_len, a_rows, b_len, b_rows, x_len, hidden);
            let a = direct_complaint("q4k"@, q4k(), a_len, x_len, a_rows, hidden);
            let b = direct_complaint("q4k"@, q4k(), b_len, x_len, b_rows, hidden);
            &&& p is None <==> a is None && b is None
            &&& hidden == 0 || x_len != hidden || hidden % 256 != 0 ==> p == Some(
                pair_text(hidden, x_len),
            )
            &&& !(hidden == 0 || x_len != hidden || hidden % 256 != 0) && a is Some ==> p == a
            &&& !(hidden == 0 || x_len != hidden || hidden % 256 != 0) && a is None ==> p == b
        }),
{
}

/// Q4_K packs 256 elements into 144 bytes.
pub proof fn law_q4k_blocks(rows: usize, blocks: usize, hidden: usize)
    requires
        hidden == blocks * 256,
    ensures
        q4k().matrix_bytes(rows, hidden) == rows * (blocks * 144),
{
    crate::packed::law_matrix_bytes(q4k(), rows, 0, blocks, hidden);
}

/// What is said of a row that does not suit a pair of matrices.
pub proof fn law_pair_says(hidden: usize, x_len: usize)
    ensures
        pair_text(hidden, x_len) == "invalid pair matvec shape hidden="@ + dec(hidden as nat)
            + " x_len="@ + dec(x_len as nat),
{
}

} // verus!
