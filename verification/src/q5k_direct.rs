//! Q5_K matvec from packed weights and an `f32` row.

use vstd::prelude::*;

use crate::error::CudaInitError;
use crate::packed::{
    direct_complaint, direct_launch, direct_matvec, BlockFormat, MatvecLaunch, Q5K_BLOCK_BYTES,
    Q5K_BLOCK_ELEMS,
};

verus! {

pub open spec fn q5k() -> BlockFormat {
    BlockFormat { elems: Q5K_BLOCK_ELEMS, bytes: Q5K_BLOCK_BYTES }
}

/// Checks a Q5_K matvec and lays out its launch.
pub fn matvec_device(data_len: usize, x_len: usize, rows: usize, hidden: usize) -> (r: Result<
    MatvecLaunch,
    CudaInitError,
>)
    ensures
        r is Ok == direct_complaint("q5k"@, q5k(), data_len, x_len, rows, hidden) is None,
        r matches Ok(l) ==> l == direct_launch(rows, hidden, Q5K_BLOCK_ELEMS),
        r matches Err(e) ==> direct_complaint("q5k"@, q5k(), data_len, x_len, rows, hidden) matches Some(
            t,
        ) && e.says(t),
        r matches Ok(l) ==> {
            &&& l.rows == rows as i32 && l.hidden == hidden as i32
            &&& l.blocks_per_row == (hidden / 256) as i32
            &&& l.cfg.block_dim == (128u32, 4u32, 1u32) && l.cfg.shared_mem_bytes == 2048
            &&& l.cfg.grid_dim.1 == 1 && l.cfg.grid_dim.2 == 1
            &&& rows <= u32::MAX ==> l.cfg.grid_dim.0 * 4 >= rows && l.cfg.grid_dim.0 * 4 < rows + 4
        },
        r is Ok <==> {
            &&& rows != 0 && hidden != 0 && x_len == hidden
            &&& hidden % 256 == 0
            &&& data_len == rows * ((hidden / 256) * 176)
        },
{
    direct_matvec(
        "q5k",
        BlockFormat { elems: Q5K_BLOCK_ELEMS, bytes: Q5K_BLOCK_BYTES },
        data_len,
        x_len,
        rows,
        hidden,
    )
}

/// Q5_K packs 256 elements into 176 bytes.
pub proof fn law_q5k_blocks(rows: usize, blocks: usize, hidden: usize)
    requires
        hidden == blocks * 256,
    ensures
        q5k().matrix_bytes(rows, hidden) == rows * (blocks * 176),
{
    crate::packed::law_matrix_bytes(q5k(), rows, 0, blocks, hidden);
}

} // verus!
