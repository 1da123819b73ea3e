//! Q6_K matvec from packed weights and a packed row.

use vstd::prelude::*;

use crate::error::CudaInitError;
use crate::packed::{
    make_tiled_launch, mmvq_check, mmvq_complaint, tiled_launch, BlockFormat, MmvqLaunch, PackedRow,
    Q6K_BLOCK_BYTES, Q6K_BLOCK_ELEMS, ROWS_PER_BLOCK,
};

verus! {

pub open spec fn q6k() -> BlockFormat {
    BlockFormat { elems: Q6K_BLOCK_ELEMS, bytes: Q6K_BLOCK_BYTES }
}

fn check(
    on_device: bool,
    weight_len: usize,
    x: &PackedRow,
    y_len: usize,
    rows: usize,
    hidden: usize,
) -> (r: Result<MmvqLaunch, CudaInitError>)
    ensures
        r is Ok == mmvq_complaint("q6k"@, q6k(), on_device, weight_len, *x, y_len, rows, hidden) is None,
        r matches Ok(l) ==> l == tiled_launch(rows, hidden / Q6K_BLOCK_ELEMS, ROWS_PER_BLOCK),
        r matches Err(e) ==> mmvq_complaint(
            "q6k"@,
            q6k(),
            on_device,
            weight_len,
            *x,
            y_len,
            rows,
            hidden,
        ) matches Some(t) && e.says(t),
        r matches Ok(l) ==> {
            &&& l.rows == rows as i32 && l.n_super_blocks == (hidden / 256) as i32
            &&& l.cfg.block_dim == (32u32, 4u32, 1u32) && l.cfg.shared_mem_bytes == 0
            &&& l.cfg.grid_dim.1 == 1 && l.cfg.grid_dim.2 == 1
            &&& rows <= u32::MAX ==> l.cfg.grid_dim.0 * 4 >= rows && l.cfg.grid_dim.0 * 4 < rows + 4
        },
        r is Ok <==> {
            &&& rows != 0 && hidden != 0 && hidden % 256 == 0
            &&& weight_len == rows * ((hidden / 256) * 210)
            &&& x.n_blocks * 32 == hidden && y_len == rows
        },
{
    let f = BlockFormat { elems: Q6K_BLOCK_ELEMS, bytes: Q6K_BLOCK_BYTES };
    match mmvq_check("q6k", f, on_device, weight_len, x, y_len, rows, hidden) {
        Ok(n) => Ok(make_tiled_launch(rows, n, ROWS_PER_BLOCK)),
        Err(e) => Err(e),
    }
}

/// Checks a matvec with a weight that is on the device, and lays out its launch.
pub fn matvec_device_into_with_dev(
    dev_len: usize,
    x: &PackedRow,
    y_len: usize,
    rows: usize,
    hidden: usize,
) -> (r: Result<MmvqLaunch, CudaInitError>)
    ensures
        r is Ok == mmvq_complaint("q6k"@, q6k(), true, dev_len, *x, y_len, rows, hidden) is None,
        r matches Ok(l) ==> l == tiled_launch(rows, hidden / Q6K_BLOCK_ELEMS, ROWS_PER_BLOCK),
        r matches Err(e) ==> mmvq_complaint("q6k"@, q6k(), true, dev_len, *x, y_len, rows, hidden) matches Some(
            t,
        ) && e.says(t),
        r matches Ok(l) ==> {
            &&& l.rows == rows as i32 && l.n_super_blocks == (hidden / 256) as i32
            &&& l.cfg.block_dim == (32u32, 4u32, 1u32) && l.cfg.shared_mem_bytes == 0
            &&& l.cfg.grid_dim.1 == 1 && l.cfg.grid_dim.2 == 1
            &&& rows <= u32::MAX ==> l.cfg.grid_dim.0 * 4 >= rows && l.cfg.grid_dim.0 * 4 < rows + 4
        },
        r is Ok <==> {
            &&& rows != 0 && hidden != 0 && hidden % 256 == 0
            &&& dev_len == rows * ((hidden / 256) * 210)
            &&& x.n_blocks * 32 == hidden && y_len == rows
        },
{
    check(true, dev_len, x, y_len, rows, hidden)
}

/// Checks a matvec with a weight that may still have to be brought to the device, and
/// lays out its launch.
pub fn matvec_device_into(
    data_len: usize,
    x: &PackedRow,
    y_len: usize,
    rows: usize,
    hidden: usize,
) -> (r: Result<MmvqLaunch, CudaInitError>)
    ensures
        r is Ok == mmvq_complaint("q6k"@, q6k(), false, data_len, *x, y_len, rows, hidden) is None,
        r matches Ok(l) ==> l == tiled_launch(rows, hidden / Q6K_BLOCK_ELEMS, ROWS_PER_BLOCK),
        r matches Err(e) ==> mmvq_complaint("q6k"@, q6k(), false, data_len, *x, y_len, rows, hidden) matches Some(
            t,
        ) && e.says(t),
        r matches Ok(l) ==> {
            &&& l.rows == rows as i32 && l.n_super_blocks == (hidden / 256) as i32
            &&& l.cfg.block_dim == (32u32, 4u32, 1u32) && l.cfg.shared_mem_bytes == 0
            &&& l.cfg.grid_dim.1 == 1 && l.cfg.grid_dim.2 == 1
            &&& rows <= u32::MAX ==> l.cfg.grid_dim.0 * 4 >= rows && l.cfg.grid_dim.0 * 4 < rows + 4
        },
        r is Ok <==> {
            &&& rows != 0 && hidden != 0 && hidden % 256 == 0
            &&& data_len == rows * ((hidden / 256) * 210)
            &&& x.n_blocks * 32 == hidden && y_len == rows
        },
{
    check(false, data_len, x, y_len, rows, hidden)
}

/// Q6_K packs 256 elements into 210 bytes.
pub proof fn law_q6k_blocks(rows: usize, blocks: usize, hidden: usize)
    requires
        hidden == blocks * 256,
    ensures
        q6k().matrix_bytes(rows, hidden) == rows * (blocks * 210),
{
    crate::packed::law_matrix_bytes(q6k(), rows, 0, blocks, hidden);
}

/// An accepted Q6_K matvec covers its output: every element of the output has a warp of the
/// launch, below the kernel's bound, and goes through all blocks of its weight row and of the
/// input.
pub proof fn law_q6k_launch_covers_output(
    on_device: bool,
    weight_len: usize,
    x: PackedRow,
    y_len: usize,
    rows: usize,
    hidden: usize,
    row: int,
)
    requires
        mmvq_complaint("q6k"@, q6k(), on_device, weight_len, x, y_len, rows, hidden) is None,
        rows <= i32::MAX,
        hidden <= i32::MAX,
        0 <= row < y_len,
    ensures
        ({
            let l = tiled_launch(rows, hidden / 256, 4);
            &&& l.rows == y_len && row < l.rows
            &&& row / 4 < l.cfg.grid_dim.0 && l.cfg.block_dim.1 == 4
            &&& l.n_super_blocks * 256 == hidden
            &&& l.n_super_blocks * 8 == x.n_blocks
            &&& (row + 1) * (l.n_super_blocks * 210) <= weight_len
        }),
{
    crate::packed::law_tiled_launch_covers_rows(rows, hidden / 256, 4, row);
    crate::packed::law_weight_rows_in_bounds(q6k(), rows, hidden, row);
}

} // verus!
