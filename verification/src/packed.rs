//! Packed weight matrices: block geometry, size checks and launch geometry.

use vstd::prelude::*;

use crate::error::CudaInitError;
use crate::launch::{ceil_div, lemma_ceil_div, LaunchConfig};
use crate::text::{dec, push_dec};

verus! {

/// A packed format: elements of a block and the bytes that they take.
#[derive(Clone, Copy, Debug, PartialEq, Eq, Structural)]
pub struct BlockFormat {
    pub elems: usize,
    pub bytes: usize,
}

pub const Q4K_BLOCK_ELEMS: usize = 256;

pub const Q4K_BLOCK_BYTES: usize = 144;

pub const Q5K_BLOCK_ELEMS: usize = 256;

pub const Q5K_BLOCK_BYTES: usize = 176;

pub const Q6K_BLOCK_ELEMS: usize = 256;

pub const Q6K_BLOCK_BYTES: usize = 210;

pub const Q8_0_BLOCK_ELEMS: usize = 32;

pub const Q8_0_BLOCK_BYTES: usize = 34;

/// Elements and bytes of a block of a packed input row.
pub const Q8_1_BLOCK_ELEMS: usize = 32;

pub const Q8_1_BLOCK_BYTES: usize = 36;

/// Threads for each row, and rows for each block of threads, of the direct kernels.
pub const THREADS_PER_ROW: u32 = 128;

pub const ROWS_PER_BLOCK: u32 = 4;

pub const WARP_SIZE: u32 = 32;

impl BlockFormat {
    pub open spec fn ok(self) -> bool {
        self.elems > 0 && self.bytes > 0
    }

    /// Bytes of a matrix of `rows` rows of `hidden` elements.
    pub open spec fn matrix_bytes(self, rows: usize, hidden: usize) -> int {
        rows * (hidden / self.elems) * self.bytes
    }

    /// Bytes of a matrix, `None` if they cannot be held in a `usize`.
    pub fn bytes_of(&self, rows: usize, hidden: usize) -> (r: Option<usize>)
        requires
            self.ok(),
        ensures
            match r {
                Some(n) => n == self.matrix_bytes(rows, hidden),
                None => self.matrix_bytes(rows, hidden) > usize::MAX,
            },
            r matches Some(n) ==> n == rows * ((hidden / self.elems) * self.bytes),
    {
        proof {
            lemma_bytes_by_row(*self, rows, hidden);
        }
        let blocks: usize = hidden / self.elems;
        match rows.checked_mul(blocks) {
            Some(n) => n.checked_mul(self.bytes),
            None => {
                assert(rows * blocks * self.bytes >= rows * blocks) by (nonlinear_arith)
                    requires
                        self.bytes > 0,
                        rows * blocks >= 0,
                ;
                None
            },
        }
    }
}

/// A matrix's bytes, row by row.
pub proof fn lemma_bytes_by_row(f: BlockFormat, rows: usize, hidden: usize)
    ensures
        f.matrix_bytes(rows, hidden) == rows * ((hidden / f.elems) * f.bytes),
{
    let b = (hidden / f.elems) as int;
    assert(rows * b * f.bytes == rows * (b * f.bytes)) by (nonlinear_arith);
}

/// `n` units in blocks of `d`, counted in the integers that a launch takes.
pub open spec fn grid_of(n: usize, d: u32) -> u32 {
    ceil_div((n as u32) as int, d as int) as u32
}

pub fn grid_blocks(n: usize, d: u32) -> (r: u32)
    requires
        d > 0,
    ensures
        r == grid_of(n, d),
        r == ceil_div((n as u32) as int, d as int),
        n <= u32::MAX ==> r * d >= n && r * d < n + d,
{
    proof {
        crate::launch::law_blocks_cover((n as u32) as int, d as int);
        let c = ceil_div((n as u32) as int, d as int);
        assert((c - 1) * d == c * d - d) by (nonlinear_arith);
    }
    let m: u32 = #[verifier::truncate] (n as u32);
    proof {
        lemma_ceil_div(m as int, d as int);
    }
    if m % d == 0 {
        m / d
    } else {
        assert(m / d < u32::MAX) by (nonlinear_arith)
            requires
                d > 0,
                m % d != 0,
                0 <= m <= u32::MAX,
        ;
        m / d + 1
    }
}

/// Launch of a matvec, with its integer arguments.
#[derive(Clone, Copy, Debug, PartialEq, Eq)]
pub struct MatvecLaunch {
    pub cfg: LaunchConfig,
    pub rows: i32,
    pub hidden: i32,
    pub blocks_per_row: i32,
}

/// The launch of a direct kernel: four rows for each block of threads.
pub open spec fn direct_launch(rows: usize, hidden: usize, elems: usize) -> MatvecLaunch {
    MatvecLaunch {
        cfg: LaunchConfig {
            grid_dim: (grid_of(rows, ROWS_PER_BLOCK), 1, 1),
            block_dim: (THREADS_PER_ROW, ROWS_PER_BLOCK, 1),
            shared_mem_bytes: 2048,
        },
        rows: rows as i32,
        hidden: hidden as i32,
        blocks_per_row: (hidden / elems) as i32,
    }
}

/// The shape of a matvec is one that a direct kernel takes.
pub open spec fn direct_shape_ok(elems: usize, rows: usize, hidden: usize, x_len: usize) -> bool {
    rows != 0 && hidden != 0 && x_len == hidden && hidden % elems == 0
}

/// The complaint about the shape of a matvec.
pub open spec fn shape_text(label: Seq<char>, rows: usize, hidden: usize, x_len: usize) -> Seq<char> {
    "invalid "@ + label + " matvec shape rows="@ + dec(rows as nat) + " hidden="@ + dec(
        hidden as nat,
    ) + " x_len="@ + dec(x_len as nat)
}

pub open spec fn overflow_text(label: Seq<char>) -> Seq<char> {
    label + " byte size overflow"@
}

/// The complaint about the length of a weight.
pub open spec fn length_text(label: Seq<char>, got: usize, expected: int) -> Seq<char> {
    label + " byte length mismatch: got "@ + dec(got as nat) + ", expected "@ + dec(expected as nat)
}

pub fn shape_error(label: &str, rows: usize, hidden: usize, x_len: usize) -> (e: CudaInitError)
    ensures
        e.says(shape_text(label@, rows, hidden, x_len)),
        e.says(
            "invalid "@ + label@ + " matvec shape rows="@ + dec(rows as nat) + " hidden="@
                + dec(hidden as nat) + " x_len="@ + dec(x_len as nat),
        ),
{
    let mut s: String = "invalid ".to_owned();
    s.append(label);
    s.append(" matvec shape rows=");
    push_dec(&mut s, rows as u64);
    s.append(" hidden=");
    push_dec(&mut s, hidden as u64);
    s.append(" x_len=");
    push_dec(&mut s, x_len as u64);
    CudaInitError::DriverMissing(s)
}

pub fn overflow_error(label: &str) -> (e: CudaInitError)
    ensures
        e.says(overflow_text(label@)),
        e.says(label@ + " byte size overflow"@),
{
    let mut s: String = label.to_owned();
    s.append(" byte size overflow");
    CudaInitError::DriverMissing(s)
}

pub fn length_error(label: &str, got: usize, expected: usize) -> (e: CudaInitError)
    ensures
        e.says(length_text(label@, got, expected as int)),
        e.says(
            label@ + " byte length mismatch: got "@ + dec(got as nat) + ", expected "@
                + dec(expected as nat),
        ),
{
    let mut s: String = label.to_owned();
    s.append(" byte length mismatch: got ");
    push_dec(&mut s, got as u64);
    s.append(", expected ");
    push_dec(&mut s, expected as u64);
    CudaInitError::DriverMissing(s)
}

/// The first thing wrong with a matvec by a direct kernel.
pub open spec fn direct_complaint(
    label: Seq<char>,
    f: BlockFormat,
    data_len: usize,
    x_len: usize,
    rows: usize,
    hidden: usize,
) -> Option<Seq<char>> {
    if !direct_shape_ok(f.elems, rows, hidden, x_len) {
        Some(shape_text(label, rows, hidden, x_len))
    } else if f.matrix_bytes(rows, hidden) > usize::MAX {
        Some(overflow_text(label))
    } else if data_len != f.matrix_bytes(rows, hidden) {
        Some(length_text(label, data_len, f.matrix_bytes(rows, hidden)))
    } else {
        None
    }
}

/// Checks a matvec by a direct kernel and lays out its launch.
pub fn direct_matvec(
    label: &str,
    f: BlockFormat,
    data_len: usize,
    x_len: usize,
    rows: usize,
    hidden: usize,
) -> (r: Result<MatvecLaunch, CudaInitError>)
    requires
        f.ok(),
    ensures
        r is Ok == direct_complaint(label@, f, data_len, x_len, rows, hidden) is None,
        r matches Ok(l) ==> l == direct_launch(rows, hidden, f.elems),
        r matches Err(e) ==> direct_complaint(label@, f, data_len, x_len, rows, hidden) matches Some(
            t,
        ) && e.says(t),
        r matches Ok(l) ==> {
            &&& l.rows == rows as i32 && l.hidden == hidden as i32
            &&& l.blocks_per_row == (hidden / f.elems) as i32
            &&& l.cfg.block_dim == (128u32, 4u32, 1u32) && l.cfg.shared_mem_bytes == 4 * 4 * 128
            &&& l.cfg.grid_dim.1 == 1 && l.cfg.grid_dim.2 == 1
            &&& rows <= u32::MAX ==> l.cfg.grid_dim.0 * 4 >= rows && l.cfg.grid_dim.0 * 4 < rows + 4
        },
        r is Ok ==> x_len == hidden && hidden % f.elems == 0 && data_len == rows * ((hidden
            / f.elems) * f.bytes),
        r is Err ==> rows == 0 || hidden == 0 || x_len != hidden || hidden % f.elems != 0 || data_len
            != rows * ((hidden / f.elems) * f.bytes),
{
    proof {
        lemma_bytes_by_row(f, rows, hidden);
    }
    if rows == 0 || hidden == 0 || x_len != hidden || hidden % f.elems != 0 {
        return Err(shape_error(label, rows, hidden, x_len));
    }
    let expected: usize = match f.bytes_of(rows, hidden) {
        Some(n) => n,
        None => return Err(overflow_error(label)),
    };
    if data_len != expected {
        return Err(length_error(label, data_len, expected));
    }
    Ok(
        MatvecLaunch {
            cfg: LaunchConfig {
                grid_dim: (grid_blocks(rows, ROWS_PER_BLOCK), 1, 1),
                block_dim: (THREADS_PER_ROW, ROWS_PER_BLOCK, 1),
                shared_mem_bytes: 2048,
            },
            rows: #[verifier::truncate] (rows as i32),
            hidden: #[verifier::truncate] (hidden as i32),
            blocks_per_row: #[verifier::truncate] ((hidden / f.elems) as i32),
        },
    )
}

/// Every row of a matrix that a launch can count has its threads: the blocks cover the
/// rows, and none of them is without a row.
pub proof fn law_grid_covers_rows(rows: usize, per_block: u32)
    requires
        per_block > 0,
        rows <= u32::MAX,
    ensures
        grid_of(rows, per_block) * per_block >= rows,
        rows > 0 ==> (grid_of(rows, per_block) - 1) * per_block < rows,
{
    crate::launch::law_blocks_cover(rows as int, per_block as int);
    lemma_ceil_div(rows as int, per_block as int);
    assert(ceil_div(rows as int, per_block as int) <= rows) by (nonlinear_arith)
        requires
            ceil_div(rows as int, per_block as int) == if rows as int % per_block as int == 0 {
                rows as int / per_block as int
            } else {
                rows as int / per_block as int + 1
            },
            per_block > 0,
            rows >= 0,
    ;
}

/// The weight rows of an accepted matvec lie inside the weight, one behind the other.
pub proof fn law_weight_rows_in_bounds(f: BlockFormat, rows: usize, hidden: usize, row: int)
    requires
        f.ok(),
        0 <= row < rows,
    ensures
        ({
            let row_bytes = (hidden / f.elems) * f.bytes;
            &&& 0 <= row * row_bytes
            &&& (row + 1) * row_bytes <= f.matrix_bytes(rows, hidden)
            &&& rows * row_bytes == f.matrix_bytes(rows, hidden)
        }),
{
    let b = (hidden / f.elems) as int;
    let row_bytes = b * f.bytes;
    assert(rows * (b * f.bytes) == rows * b * f.bytes) by (nonlinear_arith);
    assert(0 <= row * row_bytes && (row + 1) * row_bytes <= rows * row_bytes) by (nonlinear_arith)
        requires
            0 <= row < rows,
            row_bytes >= 0,
    ;
}

/// Launch of a packed-input matvec, with its integer arguments.
#[derive(Clone, Copy, Debug, PartialEq, Eq)]
pub struct MmvqLaunch {
    pub cfg: LaunchConfig,
    pub rows: i32,
    pub n_super_blocks: i32,
}

/// The packed input row of a matvec: its blocks and its bytes.
#[derive(Clone, Copy, Debug, PartialEq, Eq, Structural)]
pub struct PackedRow {
    pub n_blocks: usize,
    pub bytes_len: usize,
}

impl PackedRow {
    /// The row holds `hidden` elements.
    pub open spec fn holds(self, hidden: usize) -> bool {
        self.n_blocks * 32 == hidden
    }

    pub fn holds_elems(&self, hidden: usize) -> (r: bool)
        ensures
            r == self.holds(hidden),
            r <==> self.n_blocks * Q8_1_BLOCK_ELEMS == hidden,
    {
        hidden % 32 == 0 && self.n_blocks == hidden / 32
    }
}

/// The complaint about the shape of a packed-input matvec.
pub open spec fn mmvq_shape_text(label: Seq<char>, rows: usize, hidden: usize) -> Seq<char> {
    "invalid "@ + label + "_mmvq shape rows="@ + dec(rows as nat) + " hidden="@ + dec(hidden as nat)
}

/// The complaint about a weight that is on the device.
pub open spec fn device_length_text(label: Seq<char>, got: usize, expected: int) -> Seq<char> {
    label + "_dev length mismatch: got "@ + dec(got as nat) + ", expected "@ + dec(expected as nat)
}

/// The complaint about the blocks of the input row.
pub open spec fn input_blocks_text(n_blocks: usize, hidden: usize) -> Seq<char> {
    "q8_1 input block count mismatch: "@ + dec(n_blocks as nat) + " blocks for hidden="@ + dec(
        hidden as nat,
    )
}

/// The complaint about the output row.
pub open spec fn output_text(label: Seq<char>, y_len: usize, rows: usize) -> Seq<char> {
    label + "_mmvq y length mismatch: y="@ + dec(y_len as nat) + " != rows="@ + dec(rows as nat)
}

pub fn mmvq_shape_error(label: &str, rows: usize, hidden: usize) -> (e: CudaInitError)
    ensures
        e.says(mmvq_shape_text(label@, rows, hidden)),
        e.says(
            "invalid "@ + label@ + "_mmvq shape rows="@ + dec(rows as nat) + " hidden="@
                + dec(hidden as nat),
        ),
{
    let mut s: String = "invalid ".to_owned();
    s.append(label);
    s.append("_mmvq shape rows=");
    push_dec(&mut s, rows as u64);
    s.append(" hidden=");
    push_dec(&mut s, hidden as u64);
    CudaInitError::DriverMissing(s)
}

pub fn device_length_error(label: &str, got: usize, expected: usize) -> (e: CudaInitError)
    ensures
        e.says(device_length_text(label@, got, expected as int)),
        e.says(
            label@ + "_dev length mismatch: got "@ + dec(got as nat) + ", expected "@
                + dec(expected as nat),
        ),
{
    let mut s: String = label.to_owned();
    s.append("_dev length mismatch: got ");
    push_dec(&mut s, got as u64);
    s.append(", expected ");
    push_dec(&mut s, expected as u64);
    CudaInitError::DriverMissing(s)
}

pub fn input_blocks_error(n_blocks: usize, hidden: usize) -> (e: CudaInitError)
    ensures
        e.says(input_blocks_text(n_blocks, hidden)),
        e.says(
            "q8_1 input block count mismatch: "@ + dec(n_blocks as nat) + " blocks for hidden="@
                + dec(hidden as nat),
        ),
{
    let mut s: String = "q8_1 input block count mismatch: ".to_owned();
    push_dec(&mut s, n_blocks as u64);
    s.append(" blocks for hidden=");
    push_dec(&mut s, hidden as u64);
    CudaInitError::DriverMissing(s)
}

pub fn output_error(label: &str, y_len: usize, rows: usize) -> (e: CudaInitError)
    ensures
        e.says(output_text(label@, y_len, rows)),
        e.says(
            label@ + "_mmvq y length mismatch: y="@ + dec(y_len as nat) + " != rows="@
                + dec(rows as nat),
        ),
{
    let mut s: String = label.to_owned();
    s.append("_mmvq y length mismatch: y=");
    push_dec(&mut s, y_len as u64);
    s.append(" != rows=");
    push_dec(&mut s, rows as u64);
    CudaInitError::DriverMissing(s)
}

/// The first thing wrong with the sizes of a packed-input matvec. The weight is either on
/// the device already or still with the host.
pub open spec fn mmvq_complaint(
    label: Seq<char>,
    f: BlockFormat,
    on_device: bool,
    weight_len: usize,
    x: PackedRow,
    y_len: usize,
    rows: usize,
    hidden: usize,
) -> Option<Seq<char>> {
    if rows == 0 || hidden == 0 || hidden % f.elems != 0 {
        Some(mmvq_shape_text(label, rows, hidden))
    } else if f.matrix_bytes(rows, hidden) > usize::MAX {
        Some(overflow_text(label))
    } else if weight_len != f.matrix_bytes(rows, hidden) {
        Some(
            if on_device {
                device_length_text(label, weight_len, f.matrix_bytes(rows, hidden))
            } else {
                length_text(label, weight_len, f.matrix_bytes(rows, hidden))
            },
        )
    } else if !x.holds(hidden) {
        Some(input_blocks_text(x.n_blocks, hidden))
    } else if y_len != rows {
        Some(output_text(label, y_len, rows))
    } else {
        None
    }
}

/// Checks the sizes of a packed-input matvec. The outcome is the number of blocks in a
/// weight row.
pub fn mmvq_check(
    label: &str,
    f: BlockFormat,
    on_device: bool,
    weight_len: usize,
    x: &PackedRow,
    y_len: usize,
    rows: usize,
    hidden: usize,
) -> (r: Result<usize, CudaInitError>)
    requires
        f.ok(),
    ensures
        r is Ok == mmvq_complaint(label@, f, on_device, weight_len, *x, y_len, rows, hidden) is None,
        r matches Ok(n) ==> n == hidden / f.elems,
        r matches Err(e) ==> mmvq_complaint(
            label@,
            f,
            on_device,
            weight_len,
            *x,
            y_len,
            rows,
            hidden,
        ) matches Some(t) && e.says(t),
        r matches Ok(n) ==> {
            &&& rows != 0 && hidden == n * f.elems && y_len == rows
            &&& weight_len == rows * (n * f.bytes)
            &&& x.n_blocks * 32 == hidden
        },
        r is Err ==> rows == 0 || hidden == 0 || hidden % f.elems != 0 || weight_len != rows * ((
        hidden / f.elems) * f.bytes) || x.n_blocks * 32 != hidden || y_len != rows,
{
    proof {
        lemma_bytes_by_row(f, rows, hidden);
        vstd::arithmetic::div_mod::lemma_fundamental_div_mod(hidden as int, f.elems as int);
        let q = hidden as int / f.elems as int;
        assert(q * f.elems == f.elems * q) by (nonlinear_arith);
    }
    if rows == 0 || hidden == 0 || hidden % f.elems != 0 {
        return Err(mmvq_shape_error(label, rows, hidden));
    }
    let expected: usize = match f.bytes_of(rows, hidden) {
        Some(n) => n,
        None => return Err(overflow_error(label)),
    };
    if weight_len != expected {
        if on_device {
            return Err(device_length_error(label, weight_len, expected));
        }
        return Err(length_error(label, weight_len, expected));
    }
    if !x.holds_elems(hidden) {
        return Err(input_blocks_error(x.n_blocks, hidden));
    }
    if y_len != rows {
        return Err(output_error(label, y_len, rows));
    }
    Ok(hidden / f.elems)
}

/// The launch with a number of rows for each block of threads.
pub open spec fn tiled_launch(rows: usize, n_super_blocks: usize, rows_per_block: u32) -> MmvqLaunch {
    MmvqLaunch {
        cfg: LaunchConfig {
            grid_dim: (grid_of(rows, rows_per_block), 1, 1),
            block_dim: (WARP_SIZE, rows_per_block, 1),
            shared_mem_bytes: 0,
        },
        rows: rows as i32,
        n_super_blocks: n_super_blocks as i32,
    }
}

pub fn make_tiled_launch(rows: usize, n_super_blocks: usize, rows_per_block: u32) -> (l: MmvqLaunch)
    requires
        rows_per_block > 0,
    ensures
        l == tiled_launch(rows, n_super_blocks, rows_per_block),
        l.rows == rows as i32 && l.n_super_blocks == n_super_blocks as i32,
        l.cfg.block_dim == (32u32, rows_per_block, 1u32) && l.cfg.shared_mem_bytes == 0,
        l.cfg.grid_dim.1 == 1 && l.cfg.grid_dim.2 == 1,
        rows <= u32::MAX ==> l.cfg.grid_dim.0 * rows_per_block >= rows && l.cfg.grid_dim.0
            * rows_per_block < rows + rows_per_block,
{
    MmvqLaunch {
        cfg: LaunchConfig {
            grid_dim: (grid_blocks(rows, rows_per_block), 1, 1),
            block_dim: (WARP_SIZE, rows_per_block, 1),
            shared_mem_bytes: 0,
        },
        rows: #[verifier::truncate] (rows as i32),
        n_super_blocks: #[verifier::truncate] (n_super_blocks as i32),
    }
}

/// A tiled launch covers the output: the kernel's bound is the number of rows, every row below
/// it has a warp of its own in the grid, no block is without a row, and each row is handed its
/// number of blocks.
pub proof fn law_tiled_launch_covers_rows(
    rows: usize,
    n_super_blocks: usize,
    rows_per_block: u32,
    row: int,
)
    requires
        rows_per_block > 0,
        rows <= i32::MAX,
        n_super_blocks <= i32::MAX,
        0 <= row < rows,
    ensures
        ({
            let l = tiled_launch(rows, n_super_blocks, rows_per_block);
            &&& l.rows == rows
            &&& l.n_super_blocks == n_super_blocks
            &&& l.cfg.grid_dim.0 * l.cfg.block_dim.1 >= l.rows
            &&& (l.cfg.grid_dim.0 - 1) * l.cfg.block_dim.1 < l.rows
            &&& row < l.rows
            &&& (row / (l.cfg.block_dim.1 as int)) < l.cfg.grid_dim.0
            &&& (row % (l.cfg.block_dim.1 as int)) < l.cfg.block_dim.1
            &&& l.cfg.block_dim == (32u32, rows_per_block, 1u32)
            &&& l.cfg.grid_dim.1 == 1 && l.cfg.grid_dim.2 == 1 && l.cfg.shared_mem_bytes == 0
        }),
{
    law_grid_covers_rows(rows, rows_per_block);
    let g = grid_of(rows, rows_per_block) as int;
    let b = rows_per_block as int;
    vstd::arithmetic::div_mod::lemma_fundamental_div_mod(row, b);
    let q = row / b;
    assert(q < g) by (nonlinear_arith)
        requires
            row == b * q + row % b,
            0 <= row % b,
            row < g * b,
            b > 0,
    ;
}

/// A direct launch covers the output: every row has a row of 128 threads in the grid, each
/// thread has a slot of shared memory, and the kernel is handed the matrix as it is.
pub proof fn law_direct_launch_covers_rows(f: BlockFormat, rows: usize, hidden: usize, row: int)
    requires
        f.ok(),
        rows <= i32::MAX,
        hidden <= i32::MAX,
        hidden % f.elems == 0,
        0 <= row < rows,
    ensures
        ({
            let l = direct_launch(rows, hidden, f.elems);
            &&& l.rows == rows && l.hidden == hidden
            &&& l.blocks_per_row * f.elems == hidden
            &&& l.cfg.block_dim == (128u32, 4u32, 1u32)
            &&& l.cfg.grid_dim.0 * l.cfg.block_dim.1 >= l.rows
            &&& (l.cfg.grid_dim.0 - 1) * l.cfg.block_dim.1 < l.rows
            &&& row / 4 < l.cfg.grid_dim.0
            &&& l.cfg.grid_dim.1 == 1 && l.cfg.grid_dim.2 == 1
            &&& l.cfg.shared_mem_bytes == 4 * (l.cfg.block_dim.0 * l.cfg.block_dim.1)
        }),
{
    law_grid_covers_rows(rows, ROWS_PER_BLOCK);
    let e = f.elems as int;
    let h = hidden as int;
    vstd::arithmetic::div_mod::lemma_fundamental_div_mod(h, e);
    let q = h / e;
    assert(0 <= q <= h) by (nonlinear_arith)
        requires
            h == e * q,
            e > 0,
            h >= 0,
    ;
    assert(q * e == e * q) by (nonlinear_arith);
}

/// The bytes of a matrix are those of its blocks: rows of whole blocks, each of the format's
/// bytes, and a matrix of more rows is longer by just those rows.
pub proof fn law_matrix_bytes(f: BlockFormat, rows: usize, more: usize, blocks: usize, hidden: usize)
    requires
        f.ok(),
        hidden == blocks * f.elems,
        rows + more <= usize::MAX,
    ensures
        f.matrix_bytes(rows, hidden) == rows * (blocks * f.bytes),
        f.matrix_bytes((rows + more) as usize, hidden) == f.matrix_bytes(rows, hidden)
            + f.matrix_bytes(more, hidden),
{
    let e = f.elems as int;
    let b = blocks as int;
    assert(b * e / e == b) by (nonlinear_arith)
        requires
            e > 0,
    ;
    assert(hidden as int / e == b);
    assert(rows * b * f.bytes == rows * (b * f.bytes)) by (nonlinear_arith);
    assert((rows + more) * b * f.bytes == rows * b * f.bytes + more * b * f.bytes)
        by (nonlinear_arith);
}

/// A direct matvec is accepted just for a matrix that is not empty, of whole blocks, with a row
/// as long as the matrix is wide and the bytes of the matrix.
pub proof fn law_direct_accepts(
    label: Seq<char>,
    f: BlockFormat,
    data_len: usize,
    x_len: usize,
    rows: usize,
    hidden: usize,
)
    requires
        f.ok(),
    ensures
        direct_complaint(label, f, data_len, x_len, rows, hidden) is None <==> {
            &&& rows > 0 && hidden > 0
            &&& x_len == hidden
            &&& hidden as int % f.elems as int == 0
            &&& data_len == rows * ((hidden as int / f.elems as int) * f.bytes)
        },
{
    let b = hidden as int / f.elems as int;
    assert(rows * b * f.bytes == rows * (b * f.bytes)) by (nonlinear_arith);
}

/// A packed-input matvec is accepted just for a matrix that is not empty, of whole blocks, with
/// the bytes of the matrix, an input of as many elements as the matrix is wide and an output of
/// as many as it has rows, wherever the weight lies.
pub proof fn law_mmvq_accepts(
    label: Seq<char>,
    f: BlockFormat,
    on_device: bool,
    weight_len: usize,
    x: PackedRow,
    y_len: usize,
    rows: usize,
    hidden: usize,
)
    requires
        f.ok(),
    ensures
        mmvq_complaint(label, f, on_device, weight_len, x, y_len, rows, hidden) is None <==> {
            &&& rows > 0 && hidden > 0
            &&& hidden as int % f.elems as int == 0
            &&& weight_len == rows * ((hidden as int / f.elems as int) * f.bytes)
            &&& x.n_blocks * Q8_1_BLOCK_ELEMS == hidden
            &&& y_len == rows
        },
{
    let b = hidden as int / f.elems as int;
    assert(rows * b * f.bytes == rows * (b * f.bytes)) by (nonlinear_arith);
}

/// What is wrong first is complained of first: the shape, then the weight's size, then its
/// length, then the input, then the output.
pub proof fn law_mmvq_complains_in_order(
    label: Seq<char>,
    f: BlockFormat,
    on_device: bool,
    weight_len: usize,
    x: PackedRow,
    y_len: usize,
    rows: usize,
    hidden: usize,
)
    requires
        f.ok(),
    ensures
        ({
            let c = mmvq_complaint(label, f, on_device, weight_len, x, y_len, rows, hidden);
            let bytes = rows * ((hidden as int / f.elems as int) * f.bytes);
            let shape = rows > 0 && hidden > 0 && hidden as int % f.elems as int == 0;
            &&& !shape ==> c == Some(mmvq_shape_text(label, rows, hidden))
            &&& shape && bytes > usize::MAX ==> c == Some(overflow_text(label))
            &&& shape && bytes <= usize::MAX && weight_len != bytes && on_device ==> c == Some(
                device_length_text(label, weight_len, bytes),
            )
            &&& shape && bytes <= usize::MAX && weight_len != bytes && !on_device ==> c == Some(
                length_text(label, weight_len, bytes),
            )
            &&& shape && weight_len == bytes && x.n_blocks * 32 != hidden ==> c == Some(
                input_blocks_text(x.n_blocks, hidden),
            )
            &&& shape && weight_len == bytes && x.n_blocks * 32 == hidden && y_len != rows ==> c
                == Some(output_text(label, y_len, rows))
        }),
{
    let b = hidden as int / f.elems as int;
    assert(rows * b * f.bytes == rows * (b * f.bytes)) by (nonlinear_arith);
}

/// A direct matvec's shape is complained of before the size of its weight, and that before the
/// weight's length.
pub proof fn law_direct_complains_in_order(
    label: Seq<char>,
    f: BlockFormat,
    data_len: usize,
    x_len: usize,
    rows: usize,
    hidden: usize,
)
    requires
        f.ok(),
    ensures
        ({
            let c = direct_complaint(label, f, data_len, x_len, rows, hidden);
            let bytes = rows * ((hidden as int / f.elems as int) * f.bytes);
            let shape = rows > 0 && hidden > 0 && x_len == hidden && hidden as int % f.elems as int
                == 0;
            &&& !shape ==> c == Some(shape_text(label, rows, hidden, x_len))
            &&& shape && bytes > usize::MAX ==> c == Some(overflow_text(label))
            &&& shape && bytes <= usize::MAX && data_len != bytes ==> c == Some(
                length_text(label, data_len, bytes),
            )
        }),
{
    let b = hidden as int / f.elems as int;
    assert(rows * b * f.bytes == rows * (b * f.bytes)) by (nonlinear_arith);
}

/// The block formats: 256 elements with two half-precision scales, twelve bytes of packed scales
/// and four, five or six bits for each element as the format has it; 32 elements of one byte
/// with a scale, or with a scale and a sum.
pub proof fn law_block_bytes()
    ensures
        Q4K_BLOCK_ELEMS == 256 && Q4K_BLOCK_BYTES == 2 * 2 + 12 + 256 * 4 / 8,
        Q5K_BLOCK_ELEMS == 256 && Q5K_BLOCK_BYTES == 2 * 2 + 12 + 256 * 5 / 8,
        Q6K_BLOCK_ELEMS == 256 && Q6K_BLOCK_BYTES == 2 + 16 + 256 * 6 / 8,
        Q8_0_BLOCK_ELEMS == 32 && Q8_0_BLOCK_BYTES == 2 + 32,
        Q8_1_BLOCK_ELEMS == 32 && Q8_1_BLOCK_BYTES == 2 * 2 + 32,
{
}

} // verus!
