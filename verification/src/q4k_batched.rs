//! Q4_K matvec of a few rows at once.

use vstd::prelude::*;

use crate::error::CudaInitError;
use crate::launch::LaunchConfig;
use crate::packed::{
    grid_blocks, grid_of, Q4K_BLOCK_BYTES, Q4K_BLOCK_ELEMS, ROWS_PER_BLOCK, THREADS_PER_ROW,
};
use crate::text::{dec, push_dec};

verus! {

/// Rows that one launch takes at most.
pub const M_TILE_MAX: usize = 8;

/// Launch of a batched matvec, with its integer arguments.
#[derive(Clone, Copy, Debug, PartialEq, Eq)]
pub struct BatchedLaunch {
    pub cfg: LaunchConfig,
    pub rows: i32,
    pub hidden: i32,
    pub blocks_per_row: i32,
    pub m_tile: i32,
}

/// The first thing wrong with a batched matvec.
pub open spec fn batched_complaint(
    data_len: usize,
    x_len: usize,
    rows: usize,
    hidden: usize,
    m_tile: usize,
) -> Option<Seq<char>> {
    let expected = rows * (hidden / Q4K_BLOCK_ELEMS) * Q4K_BLOCK_BYTES;
    if rows == 0 || hidden == 0 || m_tile == 0 || m_tile > M_TILE_MAX {
        Some(
            "matvec_batched bad shape: rows="@ + dec(rows as nat) + " hidden="@ + dec(hidden as nat)
                + " m_tile="@ + dec(m_tile as nat) + " (max "@ + dec(M_TILE_MAX as nat) + ")"@,
        )
    } else if x_len != m_tile * hidden {
        Some(
            "matvec_batched x len mismatch: got "@ + dec(x_len as nat) + ", expected "@ + dec(
                (m_tile * hidden) as nat,
            ),
        )
    } else if hidden % Q4K_BLOCK_ELEMS != 0 {
        Some(
            "matvec_batched hidden="@ + dec(hidden as nat) + " not multiple of "@ + dec(
                Q4K_BLOCK_ELEMS as nat,
            ),
        )
    } else if data_len != expected {
        Some(
            "matvec_batched q4k len mismatch: got "@ + dec(data_len as nat) + ", expected "@ + dec(
                expected as nat,
            ),
        )
    } else {
        None
    }
}

/// Checks a matvec of `m_tile` rows and lays out its launch. Each block of threads takes
/// four weight rows and keeps one sum for each input row and thread.
pub fn matvec_batched(
    data_len: usize,
    x_len: usize,
    rows: usize,
    hidden: usize,
    m_tile: usize,
) -> (r: Result<BatchedLaunch, CudaInitError>)
    requires
        rows > 0 && hidden > 0 && 0 < m_tile <= M_TILE_MAX ==> m_tile * hidden <= usize::MAX,
        rows > 0 && hidden > 0 && 0 < m_tile <= M_TILE_MAX && x_len == m_tile * hidden && hidden
            % Q4K_BLOCK_ELEMS == 0 ==> rows * (hidden / Q4K_BLOCK_ELEMS) <= usize::MAX && rows * (
        hidden / Q4K_BLOCK_ELEMS) * Q4K_BLOCK_BYTES <= usize::MAX,
    ensures
        r is Ok == batched_complaint(data_len, x_len, rows, hidden, m_tile) is None,
        r matches Ok(l) ==> l == (BatchedLaunch {
            cfg: LaunchConfig {
                grid_dim: (grid_of(rows, ROWS_PER_BLOCK), 1, 1),
                block_dim: (THREADS_PER_ROW, ROWS_PER_BLOCK, 1),
                shared_mem_bytes: 16_384,
            },
            rows: rows as i32,
            hidden: hidden as i32,
            blocks_per_row: (hidden / Q4K_BLOCK_ELEMS) as i32,
            m_tile: m_tile as i32,
        }),
        r matches Err(e) ==> batched_complaint(data_len, x_len, rows, hidden, m_tile) matches Some(t)
            && e.says(t),
        r matches Ok(l) ==> {
            &&& rows <= u32::MAX ==> l.cfg.grid_dim.0 * 4 >= rows && l.cfg.grid_dim.0 * 4 < rows + 4
            &&& l.cfg.block_dim == (128u32, 4u32, 1u32)
            &&& l.cfg.shared_mem_bytes == 4 * (8 * (128 * 4))
            &&& l.blocks_per_row == (hidden / 256) as i32
        },
        r is Ok <==> {
            &&& rows != 0 && hidden != 0 && 1 <= m_tile <= 8
            &&& x_len == m_tile * hidden && hidden % 256 == 0
            &&& data_len == rows * (hidden / 256) * 144
        },
{
    if rows == 0 || hidden == 0 || m_tile == 0 || m_tile > M_TILE_MAX {
        let mut s: String = "matvec_batched bad shape: rows=".to_owned();
        push_dec(&mut s, rows as u64);
        s.append(" hidden=");
        push_dec(&mut s, hidden as u64);
        s.append(" m_tile=");
        push_dec(&mut s, m_tile as u64);
        s.append(" (max ");
        push_dec(&mut s, M_TILE_MAX as u64);
        s.append(")");
        return Err(CudaInitError::DriverMissing(s));
    }
    if x_len != m_tile * hidden {
        let mut s: String = "matvec_batched x len mismatch: got ".to_owned();
        push_dec(&mut s, x_len as u64);
        s.append(", expected ");
        push_dec(&mut s, (m_tile * hidden) as u64);
        return Err(CudaInitError::DriverMissing(s));
    }
    if hidden % Q4K_BLOCK_ELEMS != 0 {
        let mut s: String = "matvec_batched hidden=".to_owned();
        push_dec(&mut s, hidden as u64);
        s.append(" not multiple of ");
        push_dec(&mut s, Q4K_BLOCK_ELEMS as u64);
        return Err(CudaInitError::DriverMissing(s));
    }
    let blocks_per_row: usize = hidden / Q4K_BLOCK_ELEMS;
    let expected: usize = rows * blocks_per_row * Q4K_BLOCK_BYTES;
    if data_len != expected {
        let mut s: String = "matvec_batched q4k len mismatch: got ".to_owned();
        push_dec(&mut s, data_len as u64);
        s.append(", expected ");
        push_dec(&mut s, expected as u64);
        return Err(CudaInitError::DriverMissing(s));
    }
    Ok(
        BatchedLaunch {
            cfg: LaunchConfig {
                grid_dim: (grid_blocks(rows, ROWS_PER_BLOCK), 1, 1),
                block_dim: (THREADS_PER_ROW, ROWS_PER_BLOCK, 1),
                shared_mem_bytes: 16_384,
            },
            rows: #[verifier::truncate] (rows as i32),
            hidden: #[verifier::truncate] (hidden as i32),
            blocks_per_row: #[verifier::truncate] (blocks_per_row as i32),
            m_tile: m_tile as i32,
        },
    )
}

/// A batched matvec takes one to eight input rows of whole blocks and the bytes of its matrix,
/// and nothing else.
pub proof fn law_batched_accepts(
    data_len: usize,
    x_len: usize,
    rows: usize,
    hidden: usize,
    m_tile: usize,
)
    ensures
        batched_complaint(data_len, x_len, rows, hidden, m_tile) is None <==> {
            &&& rows > 0 && hidden > 0 && 1 <= m_tile <= 8
            &&& x_len == m_tile * hidden
            &&& hidden % 256 == 0
            &&& data_len == crate::q4k_direct::q4k().matrix_bytes(rows, hidden)
        },
{
}

/// With one input row, a batched matvec accepts what a direct one accepts.
pub proof fn law_one_row_batch_is_a_matvec(data_len: usize, x_len: usize, rows: usize, hidden: usize)
    ensures
        batched_complaint(data_len, x_len, rows, hidden, 1) is None
            <==> crate::packed::direct_complaint(
            "q4k"@,
            crate::q4k_direct::q4k(),
            data_len,
            x_len,
            rows,
            hidden,
        ) is None,
{
}

/// What is said of a batched matvec, in the order in which it is looked at.
pub proof fn law_batched_says(
    data_len: usize,
    x_len: usize,
    rows: usize,
    hidden: usize,
    m_tile: usize,
)
    ensures
        ({
            let c = batched_complaint(data_len, x_len, rows, hidden, m_tile);
            let shape = rows > 0 && hidden > 0 && 1 <= m_tile <= 8;
            let bytes = rows * (hidden / 256) * 144;
            &&& !shape ==> c == Some(
                "matvec_batched bad shape: rows="@ + dec(rows as nat) + " hidden="@ + dec(
                    hidden as nat,
                ) + " m_tile="@ + dec(m_tile as nat) + " (max "@ + dec(8) + ")"@,
            )
            &&& shape && x_len != m_tile * hidden ==> c == Some(
                "matvec_batched x len mismatch: got "@ + dec(x_len as nat) + ", expected "@ + dec(
                    (m_tile * hidden) as nat,
                ),
            )
            &&& shape && x_len == m_tile * hidden && hidden % 256 != 0 ==> c == Some(
                "matvec_batched hidden="@ + dec(hidden as nat) + " not multiple of "@ + dec(256),
            )
            &&& shape && x_len == m_tile * hidden && hidden % 256 == 0 && data_len != bytes ==> c
                == Some(
                "matvec_batched q4k len mismatch: got "@ + dec(data_len as nat) + ", expected "@
                    + dec(bytes as nat),
            )
        }),
{
}

} // verus!
